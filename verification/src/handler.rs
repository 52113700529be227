//! The steps of handling a reaction: the bot's own reactions are ignored, the host's
//! archive request locks the thread, and a ✅ on a poll or game message updates it
//! while the bot shows itself busy, unless an operator has stopped it.

use vstd::prelude::*;
use crate::status::OrpheusStatus;

verus! {

/// What the reacted message holds.
#[derive(PartialEq, Eq, Structural, Debug, Clone, Copy)]
pub enum ContentKind {
    Poll,
    Telephone,
    Neither,
}

/// Where the handling of a reaction stands.
#[derive(PartialEq, Eq, Structural, Debug, Clone, Copy)]
pub enum ReactionStep {
    /// The reaction has just come in.
    Received,
    /// An archive request: waiting for the host of the poll on the reacted message.
    AwaitingArchiveHost { reactor: u64, finished: bool },
    /// The host asked to archive: waiting for the users who still hold that reaction.
    AwaitingArchiveReactors { host: u64, finished: bool },
    /// Waiting for the thread to be locked for archiving.
    Archiving { finished: bool },
    /// Waiting to learn whether the thread is locked.
    AwaitingLock,
    /// Waiting to learn what the reacted message holds.
    AwaitingContent,
    /// Waiting for the poll or game to take the reaction in.
    Handling,
    /// Nothing is left to do.
    Done,
}

/// What the outside world reports to the handler.
pub enum ReactionEvent {
    /// The reaction: who made it, the bot's own user, and whether it is the archive or the ✅ emoji.
    Reaction { reactor: u64, bot_id: u64, is_archive: bool, is_finished: bool },
    /// The host of the poll that the reacted message holds, if it holds one.
    ArchiveHost(Option<u64>),
    /// The users who hold the archive reaction.
    ArchiveReactors(Vec<u64>),
    /// The thread has been locked for archiving.
    Archived,
    /// Whether the thread is locked.
    ThreadLocked(bool),
    /// What the reacted message holds.
    Content(ContentKind),
    /// The poll or game has taken the reaction in.
    Handled,
}

/// What the handler asks the outside world to do next.
#[derive(PartialEq, Eq, Structural, Debug, Clone, Copy)]
pub enum ReactionAction {
    /// Nothing more; show the status's activity if it changed.
    Finish,
    /// Read the reacted message and the host of the poll it holds.
    FetchArchiveHost,
    /// Read the users who hold the archive reaction.
    FetchArchiveReactors,
    /// Lock the thread, archive it after an hour and say so.
    ArchiveThread,
    /// Show the bot busy, read the reacted message and whether its thread is locked.
    CheckLock,
    /// Decode what the reacted message holds.
    FetchContent,
    /// Let the poll take the reaction in.
    HandlePoll,
    /// Let the game take the reaction in.
    HandleTelephone,
    /// Report a reaction to a message that holds neither.
    ReportUndecodable,
    /// Tell the reminder loop that the message changed.
    NotifyChange,
    /// The event does not belong to this step; nothing changes.
    Ignore,
}

/// Where the ✅ check leads: past it only for ✅ while the bot is not stopped.
pub open spec fn finished_gate(finished: bool, status: OrpheusStatus) -> (ReactionStep, OrpheusStatus, ReactionAction) {
    if !finished || status == OrpheusStatus::Stopped {
        (ReactionStep::Done, status, ReactionAction::Finish)
    } else {
        (ReactionStep::AwaitingLock, OrpheusStatus::Processing, ReactionAction::CheckLock)
    }
}

/// The next step, status and action of the handler after `event`.
pub open spec fn reaction_transition(step: ReactionStep, status: OrpheusStatus, event: ReactionEvent) -> (
    ReactionStep,
    OrpheusStatus,
    ReactionAction,
) {
    match (step, event) {
        (ReactionStep::Received, ReactionEvent::Reaction { reactor, bot_id, is_archive, is_finished }) => {
            if reactor == bot_id {
                (ReactionStep::Done, status, ReactionAction::Finish)
            } else if is_archive {
                (
                    ReactionStep::AwaitingArchiveHost { reactor, finished: is_finished },
                    status,
                    ReactionAction::FetchArchiveHost,
                )
            } else {
                finished_gate(is_finished, status)
            }
        },
        (ReactionStep::AwaitingArchiveHost { reactor, finished }, ReactionEvent::ArchiveHost(host)) => {
            if host == Some(reactor) {
                (
                    ReactionStep::AwaitingArchiveReactors { host: reactor, finished },
                    status,
                    ReactionAction::FetchArchiveReactors,
                )
            } else {
                finished_gate(finished, status)
            }
        },
        (ReactionStep::AwaitingArchiveReactors { host, finished }, ReactionEvent::ArchiveReactors(users)) => {
            if users@.contains(host) {
                (ReactionStep::Archiving { finished }, status, ReactionAction::ArchiveThread)
            } else {
                finished_gate(finished, status)
            }
        },
        (ReactionStep::Archiving { finished }, ReactionEvent::Archived) => finished_gate(finished, status),
        (ReactionStep::AwaitingLock, ReactionEvent::ThreadLocked(locked)) => {
            if locked {
                (ReactionStep::Done, OrpheusStatus::Waiting, ReactionAction::Finish)
            } else {
                (ReactionStep::AwaitingContent, status, ReactionAction::FetchContent)
            }
        },
        (ReactionStep::AwaitingContent, ReactionEvent::Content(kind)) => match kind {
            ContentKind::Poll => (ReactionStep::Handling, status, ReactionAction::HandlePoll),
            ContentKind::Telephone => (ReactionStep::Handling, status, ReactionAction::HandleTelephone),
            ContentKind::Neither => (ReactionStep::Done, OrpheusStatus::Waiting, ReactionAction::ReportUndecodable),
        },
        (ReactionStep::Handling, ReactionEvent::Handled) => (
            ReactionStep::Done,
            OrpheusStatus::Waiting,
            ReactionAction::NotifyChange,
        ),
        _ => (step, status, ReactionAction::Ignore),
    }
}

fn gate(finished: bool, status: OrpheusStatus) -> (res: (ReactionStep, OrpheusStatus, ReactionAction))
    ensures
        res == finished_gate(finished, status),
{
    if !finished || status == OrpheusStatus::Stopped {
        (ReactionStep::Done, status, ReactionAction::Finish)
    } else {
        (ReactionStep::AwaitingLock, OrpheusStatus::Processing, ReactionAction::CheckLock)
    }
}

fn holds_user(users: &Vec<u64>, x: u64) -> (res: bool)
    ensures
        res == users@.contains(x),
{
    let mut i: usize = 0;
    while i < users.len()
        invariant
            i <= users@.len(),
            forall|j: int| 0 <= j < i ==> users@[j] != x,
        decreases users@.len() - i,
    {
        if users[i] == x {
            return true;
        }
        i = i + 1;
    }
    false
}

/// The next step, status and action of the handler after `event`.
pub fn next_reaction_step(step: ReactionStep, status: OrpheusStatus, event: ReactionEvent) -> (res: (
    ReactionStep,
    OrpheusStatus,
    ReactionAction,
))
    ensures
        res == reaction_transition(step, status, event),
{
    match (step, event) {
        (ReactionStep::Received, ReactionEvent::Reaction { reactor, bot_id, is_archive, is_finished }) => {
            if reactor == bot_id {
                (ReactionStep::Done, status, ReactionAction::Finish)
            } else if is_archive {
                (
                    ReactionStep::AwaitingArchiveHost { reactor, finished: is_finished },
                    status,
                    ReactionAction::FetchArchiveHost,
                )
            } else {
                gate(is_finished, status)
            }
        },
        (ReactionStep::AwaitingArchiveHost { reactor, finished }, ReactionEvent::ArchiveHost(host)) => {
            let is_host = match host {
                Some(h) => h == reactor,
                None => false,
            };
            if is_host {
                (
                    ReactionStep::AwaitingArchiveReactors { host: reactor, finished },
                    status,
                    ReactionAction::FetchArchiveReactors,
                )
            } else {
                gate(finished, status)
            }
        },
        (ReactionStep::AwaitingArchiveReactors { host, finished }, ReactionEvent::ArchiveReactors(users)) => {
            if holds_user(&users, host) {
                (ReactionStep::Archiving { finished }, status, ReactionAction::ArchiveThread)
            } else {
                gate(finished, status)
            }
        },
        (ReactionStep::Archiving { finished }, ReactionEvent::Archived) => gate(finished, status),
        (ReactionStep::AwaitingLock, ReactionEvent::ThreadLocked(locked)) => {
            if locked {
                (ReactionStep::Done, OrpheusStatus::Waiting, ReactionAction::Finish)
            } else {
                (ReactionStep::AwaitingContent, status, ReactionAction::FetchContent)
            }
        },
        (ReactionStep::AwaitingContent, ReactionEvent::Content(kind)) => match kind {
            ContentKind::Poll => (ReactionStep::Handling, status, ReactionAction::HandlePoll),
            ContentKind::Telephone => (ReactionStep::Handling, status, ReactionAction::HandleTelephone),
            ContentKind::Neither => (ReactionStep::Done, OrpheusStatus::Waiting, ReactionAction::ReportUndecodable),
        },
        (ReactionStep::Handling, ReactionEvent::Handled) => (
            ReactionStep::Done,
            OrpheusStatus::Waiting,
            ReactionAction::NotifyChange,
        ),
        _ => (step, status, ReactionAction::Ignore),
    }
}

/// The handler's invariant: from the lock check on, the bot shows itself busy.
pub open spec fn reaction_invariant(step: ReactionStep, status: OrpheusStatus) -> bool {
    match step {
        ReactionStep::AwaitingLock | ReactionStep::AwaitingContent | ReactionStep::Handling => status
            == OrpheusStatus::Processing,
        _ => true,
    }
}

/// Every step keeps the handler's invariant.
pub proof fn lemma_reaction_invariant_kept(step: ReactionStep, status: OrpheusStatus, event: ReactionEvent)
    requires
        reaction_invariant(step, status),
    ensures
        reaction_invariant(
            reaction_transition(step, status, event).0,
            reaction_transition(step, status, event).1,
        ),
{
}

/// A stopped bot stays stopped, and takes no step that reads or changes a message
/// beyond an archive request.
pub proof fn lemma_stopped_stays_stopped(step: ReactionStep, event: ReactionEvent)
    requires
        reaction_invariant(step, OrpheusStatus::Stopped),
    ensures
        reaction_transition(step, OrpheusStatus::Stopped, event).1 == OrpheusStatus::Stopped,
        !(reaction_transition(step, OrpheusStatus::Stopped, event).2 is CheckLock),
        !(reaction_transition(step, OrpheusStatus::Stopped, event).2 is HandlePoll),
        !(reaction_transition(step, OrpheusStatus::Stopped, event).2 is HandleTelephone),
{
}

/// The bot's own reactions are ignored.
pub proof fn lemma_own_reaction_ignored(status: OrpheusStatus, bot_id: u64, is_archive: bool, is_finished: bool)
    ensures
        reaction_transition(
            ReactionStep::Received,
            status,
            ReactionEvent::Reaction { reactor: bot_id, bot_id, is_archive, is_finished },
        ) == (ReactionStep::Done, status, ReactionAction::Finish),
{
}

/// Once the handler has shown the bot busy, it ends with the bot waiting again.
pub proof fn lemma_busy_ends_waiting(step: ReactionStep, status: OrpheusStatus, event: ReactionEvent)
    requires
        reaction_invariant(step, status),
        status == OrpheusStatus::Processing,
        reaction_transition(step, status, event).0 == ReactionStep::Done,
        step is AwaitingLock || step is AwaitingContent || step is Handling,
    ensures
        reaction_transition(step, status, event).1 == OrpheusStatus::Waiting,
{
}

/// The thread is archived only on the users who still hold the archive reaction, and only
/// when the host is among them.
pub proof fn lemma_archive_needs_host(step: ReactionStep, status: OrpheusStatus, event: ReactionEvent)
    ensures
        reaction_transition(step, status, event).2 == ReactionAction::ArchiveThread ==> {
            &&& step matches ReactionStep::AwaitingArchiveReactors { host, .. }
            &&& event matches ReactionEvent::ArchiveReactors(users)
            &&& users@.contains(host)
        },
{
}

/// The reactors are only asked for once the reacted message holds a poll whose host made
/// the archive reaction, and it is that host whose reaction counts.
pub proof fn lemma_archive_host_is_reactor(step: ReactionStep, status: OrpheusStatus, event: ReactionEvent)
    ensures
        reaction_transition(step, status, event).0 matches ReactionStep::AwaitingArchiveReactors {
            host,
            ..
        } ==> (step matches ReactionStep::AwaitingArchiveReactors { .. }) || {
            &&& step matches ReactionStep::AwaitingArchiveHost { reactor, .. }
            &&& event matches ReactionEvent::ArchiveHost(found)
            &&& found == Some(reactor)
            &&& host == reactor
        },
{
}

} // verus!
