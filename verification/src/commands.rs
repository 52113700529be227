//! What the bot's commands decide and answer: who may run them, and the replies.

use vstd::prelude::*;
use crate::emoji::FINISHED;
use crate::handler::ContentKind;
use crate::pattern::{mentioned_user_ids, mentions_of};
use crate::poll::{contains_user, Poll};
use crate::status::OrpheusStatus;
use crate::telephone::{lead_first, Telephone};
use crate::text::{
    channel_mention, channel_mention_text, mention, mention_text, parse_usize, unsigned_value,
};

verus! {

/// The users who may start and stop the bot.
pub const FIRST_OPERATOR: u64 = 378323967158517763;

/// The users who may start and stop the bot.
pub const SECOND_OPERATOR: u64 = 606692751752429585;

/// Whether `author` may start and stop the bot.
pub open spec fn is_operator(author: u64) -> bool {
    author == FIRST_OPERATOR || author == SECOND_OPERATOR
}

/// Whether `author` may start and stop the bot.
pub fn operator(author: u64) -> (res: bool)
    ensures
        res == is_operator(author),
{
    author == FIRST_OPERATOR || author == SECOND_OPERATOR
}

/// What the bot says to a user who may not start it.
pub open spec fn start_refusal_text() -> Seq<char> {
    "Sorry, only <@378323967158517763> or <@606692751752429585> can start me."@
}

/// What the bot says to a user who may not stop it.
pub open spec fn stop_refusal_text() -> Seq<char> {
    "Sorry, only <@378323967158517763> or <@606692751752429585> can stop me."@
}

/// The `start` command: an operator sets the bot waiting; anyone else is refused and
/// the status stays.
pub fn start_command(author: u64, status: OrpheusStatus) -> (res: (OrpheusStatus, String))
    ensures
        is_operator(author) ==> res.0 == OrpheusStatus::Waiting && res.1@ == "Ok, I'm started and waiting."@,
        !is_operator(author) ==> res.0 == status && res.1@ == start_refusal_text(),
{
    if author != FIRST_OPERATOR && author != SECOND_OPERATOR {
        (status, String::from_str("Sorry, only <@378323967158517763> or <@606692751752429585> can start me."))
    } else {
        (OrpheusStatus::Waiting, String::from_str("Ok, I'm started and waiting."))
    }
}

/// The `stop` command: an operator stops the bot; anyone else is refused and the status
/// stays.
pub fn stop_command(author: u64, status: OrpheusStatus) -> (res: (OrpheusStatus, String))
    ensures
        is_operator(author) ==> res.0 == OrpheusStatus::Stopped && res.1@
            == "Ok, stopped until you ask me to `start` again."@,
        !is_operator(author) ==> res.0 == status && res.1@ == stop_refusal_text(),
{
    if author != FIRST_OPERATOR && author != SECOND_OPERATOR {
        (status, String::from_str("Sorry, only <@378323967158517763> or <@606692751752429585> can stop me."))
    } else {
        (OrpheusStatus::Stopped, String::from_str("Ok, stopped until you ask me to `start` again."))
    }
}

/// The status while a command works: busy, unless an operator has stopped the bot, which
/// then stays stopped until `start`.
pub open spec fn working_status(status: OrpheusStatus) -> OrpheusStatus {
    if status == OrpheusStatus::Stopped {
        OrpheusStatus::Stopped
    } else {
        OrpheusStatus::Processing
    }
}

/// The status once a command is done: waiting, unless an operator has stopped the bot.
pub open spec fn done_status(status: OrpheusStatus) -> OrpheusStatus {
    if status == OrpheusStatus::Stopped {
        OrpheusStatus::Stopped
    } else {
        OrpheusStatus::Waiting
    }
}

/// The status a command shows while it works.
pub fn begin_command(status: OrpheusStatus) -> (res: OrpheusStatus)
    ensures
        res == working_status(status),
{
    match status {
        OrpheusStatus::Stopped => OrpheusStatus::Stopped,
        _ => OrpheusStatus::Processing,
    }
}

/// The status a command leaves once it is done.
pub fn finish_command(status: OrpheusStatus) -> (res: OrpheusStatus)
    ensures
        res == done_status(status),
{
    match status {
        OrpheusStatus::Stopped => OrpheusStatus::Stopped,
        _ => OrpheusStatus::Waiting,
    }
}

/// A command keeps a stopped bot stopped, from its start to its end, and leaves any other
/// bot waiting once it is done.
pub proof fn lemma_stopped_until_start(status: OrpheusStatus)
    ensures
        (working_status(status) == OrpheusStatus::Stopped) <==> (status == OrpheusStatus::Stopped),
        (done_status(working_status(status)) == OrpheusStatus::Stopped) <==> (status
            == OrpheusStatus::Stopped),
        done_status(working_status(status)) == done_status(status),
{
}

/// Where the `update` command stands.
#[derive(PartialEq, Eq, Structural, Debug, Clone, Copy)]
pub enum UpdateStep {
    /// The command has just come in.
    Received,
    /// Waiting to learn whether the thread is locked.
    AwaitingLock,
    /// Waiting to learn what the thread's message holds.
    AwaitingContent,
    /// Waiting for the poll's days to be ruled in or out from the reactions.
    UpdatingDays,
    /// Waiting for the next week's thread to be opened.
    OpeningNextDates,
    /// Waiting for the game's players to be read from the reactions.
    UpdatingPlayers,
    /// Waiting for the thread's message to be rewritten.
    WritingMessage,
    /// Nothing is left to do.
    Done,
}

/// What the outside world reports to the `update` command.
#[derive(PartialEq, Eq, Structural, Debug, Clone, Copy)]
pub enum UpdateEvent {
    /// The command was run.
    Started,
    /// Whether the thread is locked.
    ThreadLocked(bool),
    /// What the thread's message holds.
    Content(ContentKind),
    /// The poll's days are updated; whether every day is now ruled out.
    DaysUpdated { all_eliminated: bool },
    /// The next week's thread is open.
    NextDatesOpened,
    /// The game's players are updated.
    PlayersUpdated,
    /// The thread's message is rewritten.
    MessageWritten,
}

/// What the `update` command asks the outside world to do next.
#[derive(PartialEq, Eq, Structural, Debug, Clone, Copy)]
pub enum UpdateAction {
    /// Show the status, say `Updating...` and read whether the thread is locked.
    CheckLock,
    /// Say that the thread is being updated and to try again in a minute.
    ReplyLocked,
    /// Read and decode the thread's message.
    FetchContent,
    /// Rule the poll's days in or out from the reactions.
    UpdateDays,
    /// Open the next week's thread and lock this one.
    OpenNextDates,
    /// Read the game's players from the reactions.
    UpdatePlayers,
    /// Rewrite the thread's message.
    WriteMessage,
    /// Say `Updated`.
    ReplyUpdated,
    /// The event does not belong to this step; nothing changes.
    Ignore,
}

/// The next step, status and action of the `update` command after `event`.
pub open spec fn update_transition(step: UpdateStep, status: OrpheusStatus, event: UpdateEvent) -> (
    UpdateStep,
    OrpheusStatus,
    UpdateAction,
) {
    match (step, event) {
        (UpdateStep::Received, UpdateEvent::Started) => (
            UpdateStep::AwaitingLock,
            working_status(status),
            UpdateAction::CheckLock,
        ),
        (UpdateStep::AwaitingLock, UpdateEvent::ThreadLocked(locked)) => if locked {
            (UpdateStep::Done, done_status(status), UpdateAction::ReplyLocked)
        } else {
            (UpdateStep::AwaitingContent, status, UpdateAction::FetchContent)
        },
        (UpdateStep::AwaitingContent, UpdateEvent::Content(kind)) => match kind {
            ContentKind::Poll => (UpdateStep::UpdatingDays, status, UpdateAction::UpdateDays),
            ContentKind::Telephone => (UpdateStep::UpdatingPlayers, status, UpdateAction::UpdatePlayers),
            ContentKind::Neither => (UpdateStep::Done, status, UpdateAction::ReplyUpdated),
        },
        (UpdateStep::UpdatingDays, UpdateEvent::DaysUpdated { all_eliminated }) => if all_eliminated {
            (UpdateStep::OpeningNextDates, status, UpdateAction::OpenNextDates)
        } else {
            (UpdateStep::WritingMessage, status, UpdateAction::WriteMessage)
        },
        (UpdateStep::OpeningNextDates, UpdateEvent::NextDatesOpened) => (
            UpdateStep::WritingMessage,
            status,
            UpdateAction::WriteMessage,
        ),
        (UpdateStep::UpdatingPlayers, UpdateEvent::PlayersUpdated) => (
            UpdateStep::WritingMessage,
            status,
            UpdateAction::WriteMessage,
        ),
        (UpdateStep::WritingMessage, UpdateEvent::MessageWritten) => (
            UpdateStep::Done,
            status,
            UpdateAction::ReplyUpdated,
        ),
        _ => (step, status, UpdateAction::Ignore),
    }
}

/// The next step, status and action of the `update` command after `event`.
pub fn next_update_step(step: UpdateStep, status: OrpheusStatus, event: UpdateEvent) -> (res: (
    UpdateStep,
    OrpheusStatus,
    UpdateAction,
))
    ensures
        res == update_transition(step, status, event),
{
    match (step, event) {
        (UpdateStep::Received, UpdateEvent::Started) => (
            UpdateStep::AwaitingLock,
            begin_command(status),
            UpdateAction::CheckLock,
        ),
        (UpdateStep::AwaitingLock, UpdateEvent::ThreadLocked(locked)) => if locked {
            (UpdateStep::Done, finish_command(status), UpdateAction::ReplyLocked)
        } else {
            (UpdateStep::AwaitingContent, status, UpdateAction::FetchContent)
        },
        (UpdateStep::AwaitingContent, UpdateEvent::Content(kind)) => match kind {
            ContentKind::Poll => (UpdateStep::UpdatingDays, status, UpdateAction::UpdateDays),
            ContentKind::Telephone => (UpdateStep::UpdatingPlayers, status, UpdateAction::UpdatePlayers),
            ContentKind::Neither => (UpdateStep::Done, status, UpdateAction::ReplyUpdated),
        },
        (UpdateStep::UpdatingDays, UpdateEvent::DaysUpdated { all_eliminated }) => if all_eliminated {
            (UpdateStep::OpeningNextDates, status, UpdateAction::OpenNextDates)
        } else {
            (UpdateStep::WritingMessage, status, UpdateAction::WriteMessage)
        },
        (UpdateStep::OpeningNextDates, UpdateEvent::NextDatesOpened) => (
            UpdateStep::WritingMessage,
            status,
            UpdateAction::WriteMessage,
        ),
        (UpdateStep::UpdatingPlayers, UpdateEvent::PlayersUpdated) => (
            UpdateStep::WritingMessage,
            status,
            UpdateAction::WriteMessage,
        ),
        (UpdateStep::WritingMessage, UpdateEvent::MessageWritten) => (
            UpdateStep::Done,
            status,
            UpdateAction::ReplyUpdated,
        ),
        _ => (step, status, UpdateAction::Ignore),
    }
}

/// The `update` command never takes a stopped bot out of its stop.
pub proof fn lemma_update_keeps_stopped(step: UpdateStep, event: UpdateEvent)
    ensures
        update_transition(step, OrpheusStatus::Stopped, event).1 == OrpheusStatus::Stopped,
{
}

/// When the poll's update rules out every day, the next week's thread is opened before the
/// message is rewritten; otherwise the message is rewritten at once.
pub proof fn lemma_all_eliminated_opens_next_dates(status: OrpheusStatus, all_eliminated: bool)
    ensures
        update_transition(
            UpdateStep::UpdatingDays,
            status,
            UpdateEvent::DaysUpdated { all_eliminated },
        ).2 == (if all_eliminated {
            UpdateAction::OpenNextDates
        } else {
            UpdateAction::WriteMessage
        }),
        update_transition(UpdateStep::OpeningNextDates, status, UpdateEvent::NextDatesOpened).2
            == UpdateAction::WriteMessage,
{
}

/// What the bot says to a user who is not a thread's host and tries `action`.
pub open spec fn host_only_text(host: u64, action: Seq<char>) -> Seq<char> {
    "Sorry, only the host ("@ + mention(host) + ") can "@ + action
}

/// What the bot says to a user who is not a thread's host and tries `action`.
pub fn host_only_reply(host: u64, action: &str) -> (res: String)
    ensures
        res@ == host_only_text(host, action@),
{
    let mut res = String::from_str("Sorry, only the host (");
    let m = mention_text(host);
    res.append(m.as_str());
    res.append(") can ");
    res.append(action);
    res
}

/// The host-only check of a thread's commands: nothing when `author` hosts the thread,
/// else the refusal to send for `action`.
pub fn host_check(host: u64, author: u64, action: &str) -> (res: Option<String>)
    ensures
        author == host ==> res is None,
        author != host ==> (res matches Some(m) && m@ == host_only_text(host, action@)),
{
    if author == host {
        None
    } else {
        Some(host_only_reply(host, action))
    }
}

/// The required users of a poll who have not locked in their answers.
pub open spec fn unfinished_required(required: Seq<u64>, finished: Seq<u64>) -> Seq<u64> {
    required.filter(|u: u64| !finished.contains(u))
}

/// The mentions of `users`, separated by spaces.
pub open spec fn joined_mentions(users: Seq<u64>) -> Seq<char>
    decreases users.len(),
{
    if users.len() == 0 {
        seq![]
    } else if users.len() == 1 {
        mention(users[0])
    } else {
        joined_mentions(users.drop_last()) + " "@ + mention(users.last())
    }
}

/// What `nag` says: it pings the required users who have not answered, or thanks
/// everyone when no one is left.
pub open spec fn nag_text(required: Seq<u64>, finished: Seq<u64>) -> Seq<char> {
    let left = unfinished_required(required, finished);
    if left.len() > 0 {
        "Sorry to bother you "@ + joined_mentions(left)
            + ", but could you please take the time to fill out the current poll?\n\nThanks in advance, your friendly nagging bot."@
    } else {
        "No one left to nag, thanks everyone!"@
    }
}

/// Whether `part` occurs in `whole` as a run of consecutive characters.
pub open spec fn occurs_in(part: Seq<char>, whole: Seq<char>) -> bool {
    exists|i: int| 0 <= i && i + part.len() <= whole.len() && #[trigger] whole.subrange(i, i + part.len()) == part
}

proof fn lemma_occurs_in_right(part: Seq<char>, a: Seq<char>, b: Seq<char>)
    requires
        occurs_in(part, b),
    ensures
        occurs_in(part, a + b),
{
    let i = choose|i: int| 0 <= i && i + part.len() <= b.len() && #[trigger] b.subrange(i, i + part.len()) == part;
    let j = i + a.len();
    assert((a + b).subrange(j, j + part.len()) =~= b.subrange(i, i + part.len()));
}

proof fn lemma_occurs_in_left(part: Seq<char>, a: Seq<char>, b: Seq<char>)
    requires
        occurs_in(part, a),
    ensures
        occurs_in(part, a + b),
{
    let i = choose|i: int| 0 <= i && i + part.len() <= a.len() && #[trigger] a.subrange(i, i + part.len()) == part;
    assert((a + b).subrange(i, i + part.len()) =~= a.subrange(i, i + part.len()));
}

proof fn lemma_occurs_in_self(part: Seq<char>)
    ensures
        occurs_in(part, part),
{
    let z: int = 0;
    assert(part.subrange(z, z + part.len()) =~= part);
}

proof fn lemma_joined_mentions_hold(users: Seq<u64>, u: u64)
    requires
        users.contains(u),
    ensures
        occurs_in(mention(u), joined_mentions(users)),
    decreases users.len(),
{
    if users.len() == 1 {
        assert(users[0] == u);
        lemma_occurs_in_self(mention(u));
    } else {
        let rest = users.drop_last();
        if users.last() == u {
            lemma_occurs_in_self(mention(u));
            lemma_occurs_in_right(mention(u), joined_mentions(rest) + " "@, mention(u));
        } else {
            let k = choose|k: int| 0 <= k < users.len() && users[k] == u;
            assert(rest[k] == u);
            lemma_joined_mentions_hold(rest, u);
            lemma_occurs_in_left(mention(u), joined_mentions(rest), " "@);
            lemma_occurs_in_left(mention(u), joined_mentions(rest) + " "@, mention(users.last()));
        }
    }
}

/// `nag` thanks everyone exactly when every required user has answered; otherwise its
/// reply mentions each required user who has not.
pub proof fn lemma_nag_pings_the_missing(required: Seq<u64>, finished: Seq<u64>)
    ensures
        (nag_text(required, finished) == "No one left to nag, thanks everyone!"@) <==> (forall|u: u64|
            required.contains(u) ==> finished.contains(u)),
        forall|u: u64|
            required.contains(u) && !finished.contains(u) ==> occurs_in(
                #[trigger] mention(u),
                nag_text(required, finished),
            ),
{
    let pred = |u: u64| !finished.contains(u);
    let left = unfinished_required(required, finished);
    let head = "Sorry to bother you "@;
    let tail = ", but could you please take the time to fill out the current poll?\n\nThanks in advance, your friendly nagging bot."@;
    reveal_strlit("Sorry to bother you ");
    reveal_strlit("No one left to nag, thanks everyone!");
    assert forall|u: u64| required.contains(u) && !finished.contains(u) implies left.contains(u) by {
        let k = choose|k: int| 0 <= k < required.len() && required[k] == u;
        required.lemma_filter_contains(pred, k);
    }
    if left.len() > 0 {
        let u0 = left[0];
        assert(left.contains(u0));
        required.lemma_filter_contains_rev(pred, u0);
        assert((head + joined_mentions(left) + tail)[0] == 'S');
        assert("No one left to nag, thanks everyone!"@[0] == 'N');
        assert forall|u: u64| required.contains(u) && !finished.contains(u) implies occurs_in(
            #[trigger] mention(u),
            nag_text(required, finished),
        ) by {
            lemma_joined_mentions_hold(left, u);
            lemma_occurs_in_right(mention(u), head, joined_mentions(left));
            lemma_occurs_in_left(mention(u), head + joined_mentions(left), tail);
        }
    }
}

/// What `nag` says for a poll whose answers `finished` has locked in.
pub fn nag_reply(poll: &Poll, finished: &Vec<u64>) -> (res: String)
    requires
        poll.required_users@.no_duplicates(),
    ensures
        res@ == nag_text(poll.required_users@, finished@),
{
    let mut left: Vec<u64> = Vec::new();
    let mut i: usize = 0;
    while i < poll.required_users.len()
        invariant
            i <= poll.required_users@.len(),
            left@ == unfinished_required(poll.required_users@.take(i as int), finished@),
        decreases poll.required_users@.len() - i,
    {
        proof {
            reveal(Seq::filter);
            assert(poll.required_users@.take(i + 1).drop_last() =~= poll.required_users@.take(i as int));
        }
        let u = poll.required_users[i];
        if !contains_user(finished, u) {
            left.push(u);
        }
        i = i + 1;
    }
    assert(poll.required_users@.take(poll.required_users@.len() as int) =~= poll.required_users@);
    if left.len() > 0 {
        let mut joined = String::new();
        let mut j: usize = 0;
        while j < left.len()
            invariant
                j <= left@.len(),
                joined@ == joined_mentions(left@.take(j as int)),
            decreases left@.len() - j,
        {
            assert(left@.take(j + 1).drop_last() =~= left@.take(j as int));
            if j > 0 {
                joined.append(" ");
            }
            let m = mention_text(left[j]);
            joined.append(m.as_str());
            j = j + 1;
        }
        assert(left@.take(left@.len() as int) =~= left@);
        let mut res = String::from_str("Sorry to bother you ");
        res.append(joined.as_str());
        res.append(
            ", but could you please take the time to fill out the current poll?\n\nThanks in advance, your friendly nagging bot.",
        );
        res
    } else {
        String::from_str("No one left to nag, thanks everyone!")
    }
}

/// What `allow_truancy` says when the count does not read as a number.
pub open spec fn invalid_count_text(count: Seq<char>) -> Seq<char> {
    "Invalid count specified. "@ + count + " is not a positive integer"@
}

/// The `allow_truancy` command on a poll: a count that reads as a number becomes the
/// allowed truancy (`Ok` with the reply); any other text is refused and the poll stays
/// (`Err` with the reply).
pub fn allow_truancy_command(poll: &mut Poll, count: &str) -> (res: Result<String, String>)
    ensures
        match unsigned_value(count@) {
            Some(v) => if v <= usize::MAX {
                final(poll).allowed_truants == v && (res matches Ok(m) && m@
                    == "Allowed truants count updated!"@)
            } else {
                final(poll).allowed_truants == old(poll).allowed_truants && (res matches Err(m)
                    && m@ == invalid_count_text(count@))
            },
            None => final(poll).allowed_truants == old(poll).allowed_truants && (res matches Err(m)
                && m@ == invalid_count_text(count@)),
        },
        final(poll).event_name == old(poll).event_name,
        final(poll).host == old(poll).host,
        final(poll).end_date == old(poll).end_date,
        final(poll).start_date == old(poll).start_date,
        final(poll).required_users == old(poll).required_users,
        final(poll).eliminated_days == old(poll).eliminated_days,
{
    match parse_usize(count) {
        Some(n) => {
            poll.allowed_truants = n;
            Ok(String::from_str("Allowed truants count updated!"))
        },
        None => {
            let mut res = String::from_str("Invalid count specified. ");
            res.append(count);
            res.append(" is not a positive integer");
            Err(res)
        },
    }
}

/// The `add` command on a poll: every user that `text` mentions becomes required.
pub fn add_command(poll: &mut Poll, text: &str)
    ensures
        final(poll).required_users@.to_set() == old(poll).required_users@.to_set() + mentions_of(text@).to_set(),
        old(poll).required_users@.no_duplicates() ==> final(poll).required_users@.no_duplicates(),
        final(poll).event_name == old(poll).event_name,
        final(poll).host == old(poll).host,
        final(poll).end_date == old(poll).end_date,
        final(poll).start_date == old(poll).start_date,
        final(poll).allowed_truants == old(poll).allowed_truants,
        final(poll).eliminated_days == old(poll).eliminated_days,
{
    let ids = mentioned_user_ids(text);
    poll.add_required_users(&ids);
}

/// How the `set_lead` command turns out.
pub enum SetLeadOutcome {
    /// The text mentions no user: what to say.
    NoUser(String),
    /// The first mentioned user leads: what to say.
    Lead(String),
}

/// What `set_lead` says when it has made `id` the lead.
pub open spec fn new_lead_text(id: u64) -> Seq<char> {
    "Ok, made "@ + mention(id) + " the first story teller for the game"@
}

/// The `set_lead` command on a game: the first user that `text` mentions leads and moves
/// to the front of the players.
pub fn set_lead_command(game: &mut Telephone, text: &str) -> (res: SetLeadOutcome)
    ensures
        ({
            let ids = mentions_of(text@);
            if ids.len() > 0 {
                &&& final(game).lead == Some(ids[0])
                &&& final(game).players@ == lead_first(old(game).players@, Some(ids[0]))
                &&& res matches SetLeadOutcome::Lead(m) && m@ == new_lead_text(ids[0])
            } else {
                &&& final(game).lead == old(game).lead
                &&& final(game).players == old(game).players
                &&& res matches SetLeadOutcome::NoUser(m) && m@
                    == "You must supply a valid user to take the lead!"@
            }
        }),
        final(game).host == old(game).host,
        final(game).folder_url == old(game).folder_url,
        final(game).finished_players == old(game).finished_players,
        final(game).nag_interval == old(game).nag_interval,
        final(game).nagged_at == old(game).nagged_at,
{
    let ids = mentioned_user_ids(text);
    if ids.len() == 0 {
        return SetLeadOutcome::NoUser(String::from_str("You must supply a valid user to take the lead!"));
    }
    let id = ids[0];
    game.lead = Some(id);
    game.set_lead();
    let mut m = String::from_str("Ok, made ");
    let who = mention_text(id);
    m.append(who.as_str());
    m.append(" the first story teller for the game");
    SetLeadOutcome::Lead(m)
}

/// What the bot says once it has opened a thread.
pub open spec fn thread_created_text(channel: u64) -> Seq<char> {
    "Created a new thread "@ + channel_mention(channel)
}

/// What the bot says once it has opened a thread.
pub fn thread_created_reply(channel: u64) -> (res: String)
    ensures
        res@ == thread_created_text(channel),
{
    let mut res = String::from_str("Created a new thread ");
    let m = channel_mention_text(channel);
    res.append(m.as_str());
    res
}

/// The `help` text.
pub open spec fn help_text() -> Seq<char> {
    "Hi, I'm your friendly neighborhood bot, Orpheus! I help you escape scheduling hell, mostly.\n    \nHere are some things you can ask me to do:\n\n`save_me`  - Start a new scheduling thread. You can provide the first day to start surveying at or I'll default to tomorrow. Example `/orpheus save_me`\n\nI'll automatically cross out days that don't work for one or more required attendees (see below), and if no days work I'll start a new thread with dates immediately after the current ones.\n\nOnce you're started a thread, you can use these commands in it:\n\n`add` - Add required attendees. Example: `@Orpheus add @auser @another_user`.\n`nag` - Pings all the required attendees who haven't responded with a "@
        + FINISHED@
        + " yet. Please use responsibly.\n`next_dates` - Manually open a new thread with dates bumped forward. Useful if you don't have required attendees but want enough people to be able to attend.\n`update` - Refresh the message at the top of the thread. Generally you shouldn't need to do this, but if you think something's off, it shouldn't hurt.\n`close` - If you've decided on a date or given up, you can use this to close the thread."@
}

/// The `help` text.
pub fn help_message() -> (res: String)
    ensures
        res@ == help_text(),
{
    let mut res = String::from_str(
        "Hi, I'm your friendly neighborhood bot, Orpheus! I help you escape scheduling hell, mostly.\n    \nHere are some things you can ask me to do:\n\n`save_me`  - Start a new scheduling thread. You can provide the first day to start surveying at or I'll default to tomorrow. Example `/orpheus save_me`\n\nI'll automatically cross out days that don't work for one or more required attendees (see below), and if no days work I'll start a new thread with dates immediately after the current ones.\n\nOnce you're started a thread, you can use these commands in it:\n\n`add` - Add required attendees. Example: `@Orpheus add @auser @another_user`.\n`nag` - Pings all the required attendees who haven't responded with a ",
    );
    res.append(FINISHED);
    res.append(
        " yet. Please use responsibly.\n`next_dates` - Manually open a new thread with dates bumped forward. Useful if you don't have required attendees but want enough people to be able to attend.\n`update` - Refresh the message at the top of the thread. Generally you shouldn't need to do this, but if you think something's off, it shouldn't hurt.\n`close` - If you've decided on a date or given up, you can use this to close the thread.",
    );
    res
}

} // verus!
