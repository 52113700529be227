use orpheus::codec::message_payload;
use orpheus::telephone::{classify_reaction, GameReaction, StartOutcome, Telephone, Timestamp};

fn game() -> Telephone {
    Telephone::new(10, "https://example.com/folder".to_string(), Timestamp { secs: 5, nanos: 0 })
}

#[test]
fn lead_moves_to_the_front_once() {
    let mut t = game();
    t.players = vec![1, 2, 3, 2];
    t.lead = Some(2);
    t.set_lead();
    assert_eq!(t.players, vec![2, 1, 3]);
    t.set_lead();
    assert_eq!(t.players, vec![2, 1, 3]);
    t.lead = Some(7);
    t.set_lead();
    assert_eq!(t.players, vec![7, 2, 1, 3]);
    t.lead = None;
    t.set_lead();
    assert_eq!(t.players, vec![7, 2, 1, 3]);
}

#[test]
fn next_player_is_first_unfinished() {
    let mut t = game();
    t.players = vec![1, 2, 3];
    t.finished_players = vec![1];
    assert_eq!(t.next_player_id(), Some(2));
    assert_eq!(t.next_player_position(), Some(1));
    t.finished_players = vec![3, 2, 1];
    assert_eq!(t.next_player_id(), None);
}

#[test]
fn game_message_lists_players() {
    let mut t = game();
    let empty = t.players();
    assert_eq!(empty, "Players:\nNo one yet 😥\n\nClick 🎙️ to signup as a player");
    t.players = vec![1, 2];
    t.finished_players = vec![2];
    assert_eq!(t.players(), "Players:\n<@1> \n<@2> ✅\n\nClick 🎙️ to signup as a player");
    assert_eq!(t.folder(), "[Shared folder](https://example.com/folder)");
    assert_eq!(t.host(), "Host: <@10>");
    let message = t.to_message("{\"a\":1}");
    assert!(message.starts_with("Welcome to Narrative Telephone!\n\nPlayers:\n<@1> \n<@2> ✅"));
    assert_eq!(message_payload(&message).unwrap(), "{\"a\":1}");
}

#[test]
fn turn_messages() {
    let mut t = game();
    t.players = vec![1, 2];
    t.finished_players = vec![1];
    assert_eq!(
        t.turn_message(),
        "<@2> you're up! Watch the latest video, then immediately record your version. Upload it to the link in the thread message and name the file `1[Your name]`.\n\nOnce you're done, react to the thread message with ✅."
    );
    t.finished_players = vec![1, 2];
    assert_eq!(
        t.turn_message(),
        "We're all done! Go ahead and use `\\orpheus save_me` in the main channel to schedule a watch party!"
    );
}

#[test]
fn only_the_host_starts() {
    let mut t = game();
    t.players = vec![4, 5];
    match t.start_story(4) {
        StartOutcome::NotHost(m) => assert_eq!(m, "Sorry <@4>, only the host can start the story time"),
        StartOutcome::Started(_) => panic!("a player started the game"),
    }
    assert_eq!(t.lead, None);
    match t.start_story(10) {
        StartOutcome::Started(m) => assert!(m.starts_with("<@4> you're up! Record your story")),
        StartOutcome::NotHost(_) => panic!("the host was refused"),
    }
    assert_eq!(t.lead, Some(4));
}

#[test]
fn update_players_shuffles_sign_ups() {
    let mut t = game();
    t.lead = Some(3);
    t.update_players(99, &vec![1, 2, 3, 99, 4], &vec![2, 99, 2]);
    assert_eq!(t.players[0], 3);
    let mut rest = t.players[1..].to_vec();
    rest.sort();
    assert_eq!(rest, vec![1, 2, 4]);
    assert_eq!(t.finished_players, vec![2]);
}

#[test]
fn reactions_are_classified() {
    assert_eq!(classify_reaction("✅"), GameReaction::Finished);
    assert_eq!(classify_reaction("🎙️"), GameReaction::StoryTeller);
    assert_eq!(classify_reaction("▶️"), GameReaction::Start);
    assert_eq!(classify_reaction("1️⃣"), GameReaction::Other);
}
