//! The bot's run status.

use vstd::prelude::*;

verus! {

/// Whether the bot is idle, busy, or stopped by an operator.
#[derive(PartialEq, Eq, Structural, Debug, Clone, Copy)]
pub enum OrpheusStatus {
    Waiting,
    Processing,
    Stopped,
}

/// The activity text shown for each status.
pub open spec fn status_text(s: OrpheusStatus) -> Seq<char> {
    match s {
        OrpheusStatus::Waiting => seq![],
        OrpheusStatus::Processing => "Processing..."@,
        OrpheusStatus::Stopped => "Stopped"@,
    }
}

impl OrpheusStatus {
    /// The activity text shown for this status.
    pub fn as_str(&self) -> (res: &'static str)
        ensures
            res@ =~= status_text(*self),
    {
        proof {
            reveal_strlit("");
            reveal_strlit("Processing...");
            reveal_strlit("Stopped");
        }
        match self {
            OrpheusStatus::Waiting => "",
            OrpheusStatus::Processing => "Processing...",
            OrpheusStatus::Stopped => "Stopped",
        }
    }
}

} // verus!
