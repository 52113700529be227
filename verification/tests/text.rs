use orpheus::codec::{frame_payload, message_payload};
use orpheus::date::{Date, MAX_DAY, MIN_DAY};
use orpheus::emoji::{numbers, str_eq, NumberEmojis};
use orpheus::pattern::{mentioned_user_ids, strip_zero_padding};
use orpheus::status::OrpheusStatus;
use orpheus::text::{chars_of, decimal_text, last_line_chars, mention_text, remove_char, trim_chars};

#[test]
fn keycaps_read_back() {
    for n in numbers() {
        assert_eq!(NumberEmojis::try_from(n.as_str()).unwrap(), n);
    }
    assert_eq!(NumberEmojis::One.as_str(), "1️⃣");
    assert_eq!(NumberEmojis::Seven.as_str(), "7️⃣");
    assert!(NumberEmojis::try_from("8️⃣").is_err());
    assert!(NumberEmojis::try_from("1").is_err());
}

#[test]
fn status_texts() {
    assert_eq!(OrpheusStatus::Waiting.as_str(), "");
    assert_eq!(OrpheusStatus::Processing.as_str(), "Processing...");
    assert_eq!(OrpheusStatus::Stopped.as_str(), "Stopped");
}

#[test]
fn strip_zero_padding_drops_leading_zeros() {
    assert_eq!(strip_zero_padding("Sat, Feb 03 at 07pm"), "Sat, Feb 3 at 7pm");
    assert_eq!(strip_zero_padding("Sat, Feb 10 at 10pm"), "Sat, Feb 10 at 10pm");
}

#[test]
fn mentions_resume_after_a_broken_one() {
    assert_eq!(mentioned_user_ids("<@12<@34>"), vec![34]);
    assert_eq!(mentioned_user_ids("<@0012> <@>"), vec![12]);
    assert_eq!(strip_zero_padding("007 10 0x"), "07 10 0x");
}

#[test]
fn mentions_are_found_in_order() {
    assert_eq!(mentioned_user_ids("<@12> and <@34>, not <@x>"), vec![12, 34]);
    assert_eq!(mentioned_user_ids("nobody"), Vec::<u64>::new());
    assert_eq!(mentioned_user_ids("<@99999999999999999999>"), Vec::<u64>::new());
}

#[test]
fn decimal_and_mentions() {
    assert_eq!(decimal_text(0), "0");
    assert_eq!(decimal_text(123451234), "123451234");
    assert_eq!(decimal_text(u64::MAX), u64::MAX.to_string());
    assert_eq!(mention_text(42), "<@42>");
}

#[test]
fn trimming_and_lines() {
    let t: String = trim_chars(&chars_of(" \t a b \u{3000}\n")).into_iter().collect();
    assert_eq!(t, "a b");
    let last = |s: &str| last_line_chars(&chars_of(s)).map(|v| v.into_iter().collect::<String>());
    assert_eq!(last(""), None);
    assert_eq!(last("a\nb"), Some("b".to_string()));
    assert_eq!(last("a\nb\n"), Some("b".to_string()));
    assert_eq!(last("a\nb\r\n"), Some("b".to_string()));
    assert_eq!(last("a\nb\r"), Some("b\r".to_string()));
    assert_eq!(last("\n"), Some("".to_string()));
    for s in ["", "x", "a\nb", "a\nb\n", "a\r\nb\r\n", "\n\n", "a\n\nb\r"] {
        assert_eq!(last(s), s.lines().last().map(|l| l.to_string()), "{:?}", s);
    }
    let r: String = remove_char(&chars_of("||ab|c||"), '|').into_iter().collect();
    assert_eq!(r, "abc");
}

#[test]
fn payload_framing_round_trips() {
    assert_eq!(frame_payload("hello world~"), "||aGVsbG8gd29ybGR+||");
    assert_eq!(frame_payload(""), "||||");
    assert_eq!(frame_payload("ab"), "||YWI=||");
    let message = format!("Some text\nmore\n{}", frame_payload("{\"é\":1}"));
    assert_eq!(message_payload(&message).unwrap(), "{\"é\":1}");
    assert_eq!(message_payload(""), None);
    assert_eq!(message_payload("no payload here!"), None);
    assert_eq!(message_payload("x\n  ||aGk=||  \n").unwrap(), "hi");
    assert_eq!(message_payload("x\n||/w==||"), None);
}

#[test]
fn payload_needs_canonical_base64() {
    assert_eq!(message_payload("x\n||aGk||"), None);
    assert_eq!(message_payload("x\n||aGl=||"), None);
    assert_eq!(message_payload("x\n||aGk=||").unwrap(), "hi");
}

#[test]
fn dates_follow_the_calendar() {
    let d = Date::from_ymd_opt(2024, 2, 18).unwrap();
    assert_eq!(d.day_number(), 738934);
    assert_eq!(d.weekday(), 6);
    assert_eq!(Date::from_ymd_opt(1, 1, 1).unwrap().day_number(), 1);
    assert_eq!(Date::from_ymd_opt(1, 1, 1).unwrap().weekday(), 0);
    assert_eq!(Date::from_ymd_opt(-262143, 1, 1).unwrap().day_number(), MIN_DAY);
    assert_eq!(Date::from_ymd_opt(262142, 12, 31).unwrap().day_number(), MAX_DAY);
    assert!(Date::from_ymd_opt(262143, 1, 1).is_none());
    assert!(Date::from_ymd_opt(2023, 2, 29).is_none());
    assert!(Date::from_ymd_opt(2024, 2, 29).is_some());
    let last = Date::from_day_number(MAX_DAY).unwrap();
    assert!(last.checked_add_days(1).is_none());
    assert_eq!(d.checked_add_days(12).unwrap(), Date::from_ymd_opt(2024, 3, 1).unwrap());
    assert_eq!(d.checked_sub_days(18).unwrap(), Date::from_ymd_opt(2024, 1, 31).unwrap());
    assert!(Date::from_day_number(MIN_DAY - 1).is_none());
    assert_eq!(d.format_short(), "2/18");
    assert_eq!(d.format_at_hour(15), "Sun, Feb 18 at 03pm");
    assert_eq!(Date::parse_input("02/18/24"), Some(d));
}

#[test]
fn text_equality() {
    assert!(str_eq("✅", "✅"));
    assert!(!str_eq("✅", "✅ "));
}
