use orpheus::codec::message_payload;
use orpheus::date::Date;
use orpheus::emoji::NumberEmojis;
use orpheus::poll::{finished_user_ids, first_poll_day, typed_day_or, DayReactions, Poll};
use orpheus::poll_text::next_dates_notice;

fn date(y: i32, m: u32, d: u32) -> Date {
    Date::from_ymd_opt(y, m, d).unwrap()
}

fn json_of(poll: &Poll) -> String {
    let mut object = serde_json::Map::new();
    object.insert("event_name".to_string(), serde_json::Value::from(poll.event_name.clone()));
    object.insert("host".to_string(), serde_json::Value::from(poll.host.to_string()));
    object.insert("end_date".to_string(), serde_json::Value::from(ymd_text(&poll.end_date)));
    object.insert("start_date".to_string(), serde_json::Value::from(ymd_text(&poll.start_date)));
    object.insert(
        "required_users".to_string(),
        serde_json::Value::from(
            poll.required_users
                .iter()
                .map(|u| serde_json::Value::from(u.to_string()))
                .collect::<Vec<_>>(),
        ),
    );
    object.insert("allowed_truants".to_string(), serde_json::Value::from(poll.allowed_truants));
    serde_json::Value::Object(object).to_string()
}

fn ymd_text(d: &Date) -> String {
    chrono::NaiveDate::from_num_days_from_ce_opt(d.day_number()).unwrap().to_string()
}

fn poll_of(json: &str) -> Poll {
    let value: serde_json::Value = serde_json::from_str(json).unwrap();
    let day = |key: &str| {
        let text = value[key].as_str().unwrap();
        let nd = chrono::NaiveDate::parse_from_str(text, "%Y-%m-%d").unwrap();
        Date::from_day_number(chrono::Datelike::num_days_from_ce(&nd)).unwrap()
    };
    Poll {
        event_name: value["event_name"].as_str().unwrap().to_string(),
        host: value["host"].as_str().unwrap().parse().unwrap(),
        end_date: day("end_date"),
        start_date: day("start_date"),
        required_users: value["required_users"]
            .as_array()
            .unwrap()
            .iter()
            .map(|u| u.as_str().unwrap().parse().unwrap())
            .collect(),
        allowed_truants: value["allowed_truants"].as_u64().unwrap() as usize,
        eliminated_days: vec![],
    }
}

fn same_poll(a: &Poll, b: &Poll) -> bool {
    a.event_name == b.event_name
        && a.host == b.host
        && a.end_date == b.end_date
        && a.start_date == b.start_date
        && a.required_users == b.required_users
        && a.allowed_truants == b.allowed_truants
        && a.eliminated_days == b.eliminated_days
}

fn sample_poll() -> Poll {
    Poll {
        event_name: "My event!".to_string(),
        host: 123451234,
        end_date: date(2024, 2, 11),
        start_date: date(2024, 2, 18),
        required_users: vec![],
        allowed_truants: 0,
        eliminated_days: vec![],
    }
}

#[test]
fn mod_test_froms() {
    let poll = sample_poll();
    let str: String = poll.to_message(&json_of(&poll));
    let poll2 = message_payload(&str).map(|json| poll_of(&json));
    assert!(same_poll(&poll, &poll2.unwrap()));
}

#[test]
fn test_update_days_with_users() {
    let mut poll = Poll {
        event_name: "My event!".to_string(),
        host: 123451234,
        end_date: date(2024, 2, 11),
        start_date: date(2024, 2, 18),
        allowed_truants: 1,
        required_users: vec![],
        eliminated_days: vec![],
    };

    let user_1: u64 = 1;
    let user_2: u64 = 2;

    let complete_users = vec![poll.host];

    let mut user_reactions = DayReactions::new();
    user_reactions.insert(NumberEmojis::One, vec![poll.host, user_1]);
    user_reactions.insert(NumberEmojis::Two, vec![]);
    user_reactions.insert(NumberEmojis::Three, vec![user_1, user_2]);
    user_reactions.insert(NumberEmojis::Four, vec![poll.host, user_2]);
    user_reactions.insert(NumberEmojis::Five, vec![poll.host, user_1, user_2]);

    let result = poll.update_days_with_users(&complete_users, user_reactions);
    assert!(result.is_ok());

    // Host trumps day 3
    assert!(!poll.eliminated_days.contains(&NumberEmojis::One));
    assert!(poll.eliminated_days.contains(&NumberEmojis::Two));
    assert!(poll.eliminated_days.contains(&NumberEmojis::Three));
    assert!(!poll.eliminated_days.contains(&NumberEmojis::Four));
    assert!(!poll.eliminated_days.contains(&NumberEmojis::Five));
}

#[test]
fn test_ends_at_line() {
    let mut poll = sample_poll();
    poll.end_date = date(2024, 3, 4);
    let line = poll.ends_at_line();
    assert_eq!(line, "Event voting will be open until Mon, Mar 4 at 10pm")
}

#[test]
fn no_answers_rule_out_no_day() {
    let mut poll = sample_poll();
    poll.eliminated_days = vec![NumberEmojis::Two];
    let result = poll.update_days_with_users(&vec![], DayReactions::new());
    assert!(result.is_ok());
    assert!(poll.eliminated_days.is_empty());
}

#[test]
fn required_users_and_truants_decide_days() {
    let mut poll = sample_poll();
    poll.required_users = vec![7, 8];
    let complete = vec![poll.host, 7, 8];
    let mut reactions = DayReactions::new();
    reactions.insert(NumberEmojis::One, vec![poll.host, 7, 8]);
    reactions.insert(NumberEmojis::Two, vec![poll.host, 7]);
    reactions.insert(NumberEmojis::Three, vec![7, 8]);
    poll.update_days_with_users(&complete, reactions).ok().unwrap();
    assert_eq!(
        poll.eliminated_days,
        vec![
            NumberEmojis::Two,
            NumberEmojis::Three,
            NumberEmojis::Four,
            NumberEmojis::Five,
            NumberEmojis::Six,
            NumberEmojis::Seven
        ]
    );

    // One truant allowed: a day with all but one attendee stays open.
    poll.allowed_truants = 1;
    let mut reactions = DayReactions::new();
    reactions.insert(NumberEmojis::One, vec![poll.host, 7, 8]);
    reactions.insert(NumberEmojis::Two, vec![poll.host, 7]);
    reactions.insert(NumberEmojis::Three, vec![7, 8]);
    poll.update_days_with_users(&complete, reactions).ok().unwrap();
    assert_eq!(
        poll.eliminated_days,
        vec![
            NumberEmojis::Three,
            NumberEmojis::Four,
            NumberEmojis::Five,
            NumberEmojis::Six,
            NumberEmojis::Seven
        ]
    );
}

#[test]
fn poll_message_lists_days_and_strikes_ruled_out_ones() {
    let mut poll = sample_poll();
    poll.required_users = vec![5, 6];
    poll.allowed_truants = 2;
    poll.eliminated_days = vec![NumberEmojis::Two];
    let message = poll.to_message("{}");
    let expected_start = "Welcome to the scheduling thread for **My event!**!\n\nHost: <@123451234>\n\nRequired attendees: <@5> <@6>\n\nAllowed truancy: 2\n\nEvent voting will be open until Sun, Feb 11 at 10pm\n\n1️⃣ Sun, Feb 18 at 3pm\n~~2️⃣ Mon, Feb 19 at 7pm~~\n3️⃣ Tue, Feb 20 at 7pm\n";
    assert!(message.starts_with(expected_start), "{}", message);
    assert!(message.contains("7️⃣ Sat, Feb 24 at 3pm\n\nTo lock in your availability, hit ✅."));
    assert!(message.ends_with("Orpehus Magic String (feel free to ignore):\n||e30=||"));
    assert_eq!(message_payload(&message).unwrap(), "{}");
}

#[test]
fn poll_message_without_truancy_has_no_truancy_line() {
    let poll = sample_poll();
    let message = poll.to_message("{}");
    assert!(!message.contains("Allowed truancy"));
    assert!(message.contains("Required attendees:\n\nEvent voting"));
}

#[test]
fn next_poll_moves_a_week() {
    let mut poll = sample_poll();
    poll.eliminated_days = vec![NumberEmojis::One];
    poll.required_users = vec![3];
    let next = poll.next_poll();
    assert_eq!(next.start_date, date(2024, 2, 25));
    assert_eq!(next.end_date, date(2024, 2, 24));
    assert!(next.eliminated_days.is_empty());
    assert_eq!(next.required_users, vec![3]);
    assert_eq!(next.event_name, "My event!");
}

#[test]
fn thread_name_gives_first_and_last_day() {
    let poll = sample_poll();
    assert_eq!(poll.thread_name(), "(2/18-2/24) My event!");
}

#[test]
fn new_poll_closes_the_day_before() {
    let poll = Poll::new("Game night".to_string(), 9, date(2024, 3, 1)).unwrap();
    assert_eq!(poll.end_date, date(2024, 2, 29));
    assert!(Poll::new("x".to_string(), 9, Date::from_day_number(orpheus::date::MIN_DAY).unwrap()).is_none());
}

#[test]
fn poll_open_for_days() {
    let poll = Poll::with_open_days("x".to_string(), 1, date(2024, 1, 30), Some(3)).unwrap();
    assert_eq!(poll.end_date, date(2024, 2, 2));
    let poll = Poll::with_open_days("x".to_string(), 1, date(2024, 1, 30), None).unwrap();
    assert_eq!(poll.end_date, date(2024, 1, 31));
}

#[test]
fn first_poll_day_reads_the_typed_date() {
    let today = date(2024, 5, 5);
    assert_eq!(first_poll_day(Some("03/04/24"), today), date(2024, 3, 4));
}

#[test]
fn first_poll_day_defaults_to_tomorrow() {
    let today = date(2024, 2, 28);
    assert_eq!(first_poll_day(None, today), date(2024, 2, 29));
    assert_eq!(first_poll_day(Some("not a date"), today), date(2024, 2, 29));
    let poll = Poll::new("x".to_string(), 1, first_poll_day(None, today)).unwrap();
    assert_eq!(poll.start_date, date(2024, 2, 29));
    assert_eq!(poll.end_date, today);
}

#[test]
fn typed_day_or_falls_back() {
    let today = date(2024, 2, 28);
    assert_eq!(typed_day_or(Some("03/04/24"), today), date(2024, 3, 4));
    assert_eq!(typed_day_or(Some("not a date"), today), today);
    assert_eq!(typed_day_or(None, today), today);
}

#[test]
fn required_users_unique_finds_repeats() {
    let mut poll = sample_poll();
    poll.required_users = vec![1, 2, 3];
    assert!(poll.required_users_unique());
    poll.required_users = vec![1, 2, 1];
    assert!(!poll.required_users_unique());
}

#[test]
fn finished_users_leave_out_the_bot_and_repeats() {
    let mut ids = finished_user_ids(&vec![4, 99, 5, 4], 99);
    ids.sort();
    assert_eq!(ids, vec![4, 5]);
}

#[test]
fn reaction_lists_keep_only_complete_users() {
    let lists = vec![
        ("1️⃣".to_string(), vec![1, 2, 3]),
        ("3️⃣".to_string(), vec![2]),
    ];
    let reactions = DayReactions::from_reaction_lists(&lists, &vec![1, 2]).unwrap();
    assert_eq!(reactions.get(NumberEmojis::One), &vec![1, 2]);
    assert_eq!(reactions.get(NumberEmojis::Three), &vec![2]);
    assert!(reactions.get(NumberEmojis::Two).is_empty());
    let bad = vec![("🙂".to_string(), vec![1])];
    assert!(DayReactions::from_reaction_lists(&bad, &vec![1]).is_none());
}

#[test]
fn add_required_users_keeps_them_once() {
    let mut poll = sample_poll();
    poll.required_users = vec![1];
    poll.add_required_users(&vec![2, 1, 2, 3]);
    assert_eq!(poll.required_users, vec![1, 2, 3]);
}

#[test]
fn all_days_eliminated_needs_seven() {
    let mut poll = sample_poll();
    assert!(!poll.all_days_eliminated());
    poll.update_days_with_users(&vec![poll.host], DayReactions::new()).ok().unwrap();
    assert!(poll.all_days_eliminated());
}

#[test]
fn next_dates_notice_names_the_thread() {
    assert_eq!(
        next_dates_notice(42),
        "All dates eliminated! Created a new thread <#42> with next set of dates. This thread is locked and will be archived in one day."
    );
}
