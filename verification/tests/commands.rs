use orpheus::commands::{
    add_command, allow_truancy_command, begin_command, host_check, finish_command, help_message,
    host_only_reply, nag_reply, next_update_step, set_lead_command, start_command, stop_command,
    thread_created_reply, SetLeadOutcome, UpdateAction, UpdateEvent, UpdateStep,
};
use orpheus::date::Date;
use orpheus::handler::{next_reaction_step, ContentKind, ReactionAction, ReactionEvent, ReactionStep};
use orpheus::poll::Poll;
use orpheus::status::OrpheusStatus;
use orpheus::telephone::{Telephone, Timestamp};

fn poll() -> Poll {
    Poll::new("Dinner".to_string(), 1, Date::from_ymd_opt(2024, 1, 8).unwrap()).unwrap()
}

#[test]
fn operators_start_and_stop() {
    let (s, m) = start_command(378323967158517763, OrpheusStatus::Stopped);
    assert_eq!(s, OrpheusStatus::Waiting);
    assert_eq!(m, "Ok, I'm started and waiting.");
    let (s, m) = stop_command(606692751752429585, OrpheusStatus::Waiting);
    assert_eq!(s, OrpheusStatus::Stopped);
    assert_eq!(m, "Ok, stopped until you ask me to `start` again.");
    let (s, m) = stop_command(5, OrpheusStatus::Waiting);
    assert_eq!(s, OrpheusStatus::Waiting);
    assert_eq!(m, "Sorry, only <@378323967158517763> or <@606692751752429585> can stop me.");
    let (s, _) = start_command(5, OrpheusStatus::Stopped);
    assert_eq!(s, OrpheusStatus::Stopped);
}

#[test]
fn host_only_replies() {
    assert_eq!(host_only_reply(7, "add users"), "Sorry, only the host (<@7>) can add users");
}

#[test]
fn nag_pings_unfinished_required_users() {
    let mut p = poll();
    p.required_users = vec![2, 3, 4];
    assert_eq!(
        nag_reply(&p, &vec![3]),
        "Sorry to bother you <@2> <@4>, but could you please take the time to fill out the current poll?\n\nThanks in advance, your friendly nagging bot."
    );
    assert_eq!(nag_reply(&p, &vec![2, 3, 4]), "No one left to nag, thanks everyone!");
}

#[test]
fn truancy_reads_a_count() {
    let mut p = poll();
    assert_eq!(allow_truancy_command(&mut p, "2"), Ok("Allowed truants count updated!".to_string()));
    assert_eq!(p.allowed_truants, 2);
    assert_eq!(
        allow_truancy_command(&mut p, "-1"),
        Err("Invalid count specified. -1 is not a positive integer".to_string())
    );
    assert_eq!(p.allowed_truants, 2);
    assert_eq!(allow_truancy_command(&mut p, "+3"), Ok("Allowed truants count updated!".to_string()));
    assert_eq!(p.allowed_truants, 3);
}

#[test]
fn add_requires_mentioned_users() {
    let mut p = poll();
    add_command(&mut p, "<@5> <@6> <@5>");
    assert_eq!(p.required_users, vec![5, 6]);
}

#[test]
fn set_lead_takes_the_first_mention() {
    let mut t = Telephone::new(1, String::new(), Timestamp { secs: 0, nanos: 0 });
    t.players = vec![4, 5];
    match set_lead_command(&mut t, "<@5> <@4>") {
        SetLeadOutcome::Lead(m) => assert_eq!(m, "Ok, made <@5> the first story teller for the game"),
        _ => panic!("no lead"),
    }
    assert_eq!(t.players, vec![5, 4]);
    match set_lead_command(&mut t, "nobody") {
        SetLeadOutcome::NoUser(m) => assert_eq!(m, "You must supply a valid user to take the lead!"),
        _ => panic!("a lead"),
    }
    assert_eq!(t.lead, Some(5));
}

#[test]
fn help_mentions_the_finished_emoji() {
    let help = help_message();
    assert!(help.contains("haven't responded with a ✅ yet"));
    assert!(help.starts_with("Hi, I'm your friendly neighborhood bot, Orpheus!"));
}

#[test]
fn thread_created() {
    assert_eq!(thread_created_reply(77), "Created a new thread <#77>");
}

#[test]
fn reaction_steps_for_a_poll() {
    let (step, status, action) = next_reaction_step(
        ReactionStep::Received,
        OrpheusStatus::Waiting,
        ReactionEvent::Reaction { reactor: 3, bot_id: 9, is_archive: false, is_finished: true },
    );
    assert_eq!((step, status, action), (ReactionStep::AwaitingLock, OrpheusStatus::Processing, ReactionAction::CheckLock));
    let (step, status, action) = next_reaction_step(step, status, ReactionEvent::ThreadLocked(false));
    assert_eq!(action, ReactionAction::FetchContent);
    let (step, status, action) = next_reaction_step(step, status, ReactionEvent::Content(ContentKind::Poll));
    assert_eq!(action, ReactionAction::HandlePoll);
    let (step, status, action) = next_reaction_step(step, status, ReactionEvent::Handled);
    assert_eq!((step, status, action), (ReactionStep::Done, OrpheusStatus::Waiting, ReactionAction::NotifyChange));
}

#[test]
fn reaction_steps_edge_cases() {
    let own = next_reaction_step(
        ReactionStep::Received,
        OrpheusStatus::Waiting,
        ReactionEvent::Reaction { reactor: 9, bot_id: 9, is_archive: false, is_finished: true },
    );
    assert_eq!(own, (ReactionStep::Done, OrpheusStatus::Waiting, ReactionAction::Finish));
    let stopped = next_reaction_step(
        ReactionStep::Received,
        OrpheusStatus::Stopped,
        ReactionEvent::Reaction { reactor: 3, bot_id: 9, is_archive: false, is_finished: true },
    );
    assert_eq!(stopped, (ReactionStep::Done, OrpheusStatus::Stopped, ReactionAction::Finish));
    let locked = next_reaction_step(ReactionStep::AwaitingLock, OrpheusStatus::Processing, ReactionEvent::ThreadLocked(true));
    assert_eq!(locked, (ReactionStep::Done, OrpheusStatus::Waiting, ReactionAction::Finish));
    let (step, status, action) = next_reaction_step(
        ReactionStep::Received,
        OrpheusStatus::Waiting,
        ReactionEvent::Reaction { reactor: 3, bot_id: 9, is_archive: true, is_finished: false },
    );
    assert_eq!(action, ReactionAction::FetchArchiveHost);
    let (step, status, action) = next_reaction_step(step, status, ReactionEvent::ArchiveHost(Some(3)));
    assert_eq!(action, ReactionAction::FetchArchiveReactors);
    let (step, status, action) = next_reaction_step(step, status, ReactionEvent::ArchiveReactors(vec![3]));
    assert_eq!(action, ReactionAction::ArchiveThread);
    let done = next_reaction_step(step, status, ReactionEvent::Archived);
    assert_eq!(done, (ReactionStep::Done, OrpheusStatus::Waiting, ReactionAction::Finish));
    let not_host = next_reaction_step(
        ReactionStep::AwaitingArchiveHost { reactor: 3, finished: false },
        OrpheusStatus::Waiting,
        ReactionEvent::ArchiveHost(Some(4)),
    );
    assert_eq!(not_host.2, ReactionAction::Finish);
    let neither = next_reaction_step(ReactionStep::AwaitingContent, OrpheusStatus::Processing, ReactionEvent::Content(ContentKind::Neither));
    assert_eq!(neither, (ReactionStep::Done, OrpheusStatus::Waiting, ReactionAction::ReportUndecodable));
    let ignored = next_reaction_step(ReactionStep::Handling, OrpheusStatus::Processing, ReactionEvent::Archived);
    assert_eq!(ignored, (ReactionStep::Handling, OrpheusStatus::Processing, ReactionAction::Ignore));
}

#[test]
fn commands_keep_a_stopped_bot_stopped() {
    assert_eq!(begin_command(OrpheusStatus::Stopped), OrpheusStatus::Stopped);
    assert_eq!(finish_command(OrpheusStatus::Stopped), OrpheusStatus::Stopped);
    assert_eq!(begin_command(OrpheusStatus::Waiting), OrpheusStatus::Processing);
    assert_eq!(finish_command(OrpheusStatus::Processing), OrpheusStatus::Waiting);
}

#[test]
fn update_steps_for_a_poll() {
    let (step, status, action) =
        next_update_step(UpdateStep::Received, OrpheusStatus::Waiting, UpdateEvent::Started);
    assert_eq!((step, status, action), (UpdateStep::AwaitingLock, OrpheusStatus::Processing, UpdateAction::CheckLock));
    let (step, status, action) = next_update_step(step, status, UpdateEvent::ThreadLocked(false));
    assert_eq!(action, UpdateAction::FetchContent);
    let (step, status, action) = next_update_step(step, status, UpdateEvent::Content(ContentKind::Poll));
    assert_eq!(action, UpdateAction::UpdateDays);
    let (step, status, action) =
        next_update_step(step, status, UpdateEvent::DaysUpdated { all_eliminated: true });
    assert_eq!(action, UpdateAction::OpenNextDates);
    let (step, status, action) = next_update_step(step, status, UpdateEvent::NextDatesOpened);
    assert_eq!(action, UpdateAction::WriteMessage);
    let (step, status, action) = next_update_step(step, status, UpdateEvent::MessageWritten);
    assert_eq!((step, status, action), (UpdateStep::Done, OrpheusStatus::Processing, UpdateAction::ReplyUpdated));
}

#[test]
fn update_steps_edge_cases() {
    let locked = next_update_step(UpdateStep::AwaitingLock, OrpheusStatus::Processing, UpdateEvent::ThreadLocked(true));
    assert_eq!(locked, (UpdateStep::Done, OrpheusStatus::Waiting, UpdateAction::ReplyLocked));
    let stopped = next_update_step(UpdateStep::Received, OrpheusStatus::Stopped, UpdateEvent::Started);
    assert_eq!(stopped, (UpdateStep::AwaitingLock, OrpheusStatus::Stopped, UpdateAction::CheckLock));
    let game = next_update_step(UpdateStep::AwaitingContent, OrpheusStatus::Processing, UpdateEvent::Content(ContentKind::Telephone));
    assert_eq!(game.2, UpdateAction::UpdatePlayers);
    let kept = next_update_step(UpdateStep::UpdatingDays, OrpheusStatus::Processing, UpdateEvent::DaysUpdated { all_eliminated: false });
    assert_eq!(kept.2, UpdateAction::WriteMessage);
    let ignored = next_update_step(UpdateStep::Done, OrpheusStatus::Waiting, UpdateEvent::Started);
    assert_eq!(ignored, (UpdateStep::Done, OrpheusStatus::Waiting, UpdateAction::Ignore));
}

#[test]
fn host_check_refuses_others() {
    assert_eq!(host_check(5, 5, "add users"), None);
    assert_eq!(
        host_check(5, 6, "add users"),
        Some("Sorry, only the host (<@5>) can add users".to_string())
    );
}

#[test]
fn truancy_counts_follow_std_parsing() {
    let mut p = poll();
    assert!(allow_truancy_command(&mut p, "+3").is_ok());
    assert_eq!(p.allowed_truants, 3);
    assert!(allow_truancy_command(&mut p, "99999999999999999999999").is_err());
    assert!(allow_truancy_command(&mut p, "+").is_err());
    assert!(allow_truancy_command(&mut p, "").is_err());
    assert!(allow_truancy_command(&mut p, "-1").is_err());
    assert_eq!(p.allowed_truants, 3);
}
