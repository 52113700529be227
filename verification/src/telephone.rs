//! Narrative telephone: players take turns retelling a story, in an order that the
//! host's lead opens and the sign-ups fill in at random.

use vstd::prelude::*;
use vstd::utf8::encode_utf8;
use rand::seq::SliceRandom;
use crate::codec::{frame_payload, framed, lemma_framed_payload, payload_of};
use crate::emoji::{str_eq, FINISHED, START, STORY_TELLER};
use crate::poll::{contains_user, finished_user_ids, other_than};
use crate::text::{decimal, decimal_text, mention, mention_text};

verus! {

broadcast use vstd::seq_lib::group_seq_properties;

/// A point in time, as seconds and nanoseconds since the Unix epoch.
#[derive(PartialEq, Eq, Structural, Debug, Clone, Copy)]
pub struct Timestamp {
    pub secs: i64,
    pub nanos: u32,
}

/// A game of narrative telephone, as its thread message saves it.
#[derive(Debug, Clone)]
pub struct Telephone {
    pub host: u64,
    pub folder_url: String,
    pub lead: Option<u64>,
    /// The players in turn order.
    pub players: Vec<u64>,
    /// The players who have taken their turn, each once.
    pub finished_players: Vec<u64>,
    pub nag_interval: u8,
    pub nagged_at: Timestamp,
}

/// The error returned when a message does not hold a game.
#[derive(Debug)]
pub struct FromStringError;

/// The players with `lead`, if any, moved to the front once.
pub open spec fn lead_first(players: Seq<u64>, lead: Option<u64>) -> Seq<u64> {
    match lead {
        Some(l) => seq![l] + players.filter(other_than(l)),
        None => players,
    }
}

/// The position of the first player who has not taken a turn.
pub open spec fn first_unfinished(players: Seq<u64>, finished: Seq<u64>) -> Option<int>
    decreases players.len(),
{
    if players.len() == 0 {
        None
    } else {
        match first_unfinished(players.drop_last(), finished) {
            Some(i) => Some(i),
            None => if finished.contains(players.last()) {
                None
            } else {
                Some(players.len() - 1)
            },
        }
    }
}

/// Calls rand's `SliceRandom::shuffle` with the thread's generator. Claims only that the
/// players come out as a rearrangement of those that went in; the order is random.
#[verifier::external_body]
fn shuffle_players(players: &mut Vec<u64>)
    ensures
        final(players)@.to_multiset() == old(players)@.to_multiset(),
{
    players.shuffle(&mut rand::thread_rng());
}

/// Which of the game's reactions an emoji is.
#[derive(PartialEq, Eq, Structural, Debug, Clone, Copy)]
pub enum GameReaction {
    StoryTeller,
    Finished,
    Start,
    Other,
}

/// Which of the game's reactions the text `emoji` is.
pub open spec fn game_reaction(emoji: Seq<char>) -> GameReaction {
    if emoji == STORY_TELLER@ {
        GameReaction::StoryTeller
    } else if emoji == FINISHED@ {
        GameReaction::Finished
    } else if emoji == START@ {
        GameReaction::Start
    } else {
        GameReaction::Other
    }
}

/// Which of the game's reactions `emoji` is.
pub fn classify_reaction(emoji: &str) -> (res: GameReaction)
    ensures
        res == game_reaction(emoji@),
{
    if str_eq(emoji, STORY_TELLER) {
        GameReaction::StoryTeller
    } else if str_eq(emoji, FINISHED) {
        GameReaction::Finished
    } else if str_eq(emoji, START) {
        GameReaction::Start
    } else {
        GameReaction::Other
    }
}

/// `Welcome to Narrative Telephone!`
pub open spec fn telephone_welcome_text() -> Seq<char> {
    "Welcome to Narrative Telephone!"@
}

/// A player's line: the mention, a space, and ✅ once the player has taken a turn.
pub open spec fn player_line(id: u64, finished: Seq<u64>) -> Seq<char> {
    mention(id) + " "@ + if finished.contains(id) {
        FINISHED@
    } else {
        seq![]
    }
}

/// The players' lines, one per line.
pub open spec fn player_lines(players: Seq<u64>, finished: Seq<u64>) -> Seq<char>
    decreases players.len(),
{
    if players.len() == 0 {
        seq![]
    } else if players.len() == 1 {
        player_line(players[0], finished)
    } else {
        player_lines(players.drop_last(), finished) + "\n"@ + player_line(players.last(), finished)
    }
}

/// The players part of a game's message.
pub open spec fn players_text(players: Seq<u64>, finished: Seq<u64>) -> Seq<char> {
    "Players:\n"@ + (if players.len() == 0 {
        "No one yet 😥"@
    } else {
        player_lines(players, finished)
    }) + "\n\nClick "@ + STORY_TELLER@ + " to signup as a player"@
}

/// `[Shared folder](url)`
pub open spec fn folder_text(url: Seq<char>) -> Seq<char> {
    "[Shared folder]("@ + url + ")"@
}

/// A game's message up to the line of its saved state.
pub open spec fn telephone_body(t: Telephone) -> Seq<char> {
    telephone_welcome_text() + "\n\n"@ + players_text(t.players@, t.finished_players@) + "\n\n"@
        + folder_text(t.folder_url@) + "\n\n"@ + "Orpehus Magic String (feel free to ignore):"@
}

/// The saved state that a game's message carries reads back as the state it was written
/// with.
pub proof fn lemma_game_message_carries_state(t: Telephone, json: Seq<char>)
    ensures
        payload_of(framed(telephone_body(t), json)) == Some(json),
{
    lemma_framed_payload(telephone_body(t), json);
}

/// What the thread says to the next player.
pub open spec fn next_turn_text(id: u64, position: nat) -> Seq<char> {
    mention(id)
        + " you're up! Watch the latest video, then immediately record your version. Upload it to the link in the thread message and name the file `"@
        + decimal(position) + "[Your name]`.\n\nOnce you're done, react to the thread message with "@
        + FINISHED@ + "."@
}

/// What the thread says to the lead when the game starts.
pub open spec fn first_turn_text(id: u64) -> Seq<char> {
    mention(id)
        + " you're up! Record your story (it should be about two minutes), then upload it to the link in the thread message. You should name the file `0[Your name]`.\n\nOnce you're done, react to the thread message with "@
        + FINISHED@ + "."@
}

/// What the thread says when every player has taken a turn.
pub open spec fn all_done_text() -> Seq<char> {
    "We're all done! Go ahead and use `\\orpheus save_me` in the main channel to schedule a watch party!"@
}

/// What the thread says to a user who is not the host and tries to start the game.
pub open spec fn not_host_start_text(id: u64) -> Seq<char> {
    "Sorry "@ + mention(id) + ", only the host can start the story time"@
}

/// How a reaction to start the game turns out.
pub enum StartOutcome {
    /// Only the host may start: what to tell the user who tried.
    NotHost(String),
    /// The game started: what to tell the lead.
    Started(String),
}

impl Telephone {
    /// A new game hosted by `host` with its videos in `folder_url`: no lead, no players,
    /// reminders every seven days, last reminded at `now`.
    pub fn new(host: u64, folder_url: String, now: Timestamp) -> (res: Telephone)
        ensures
            res.host == host,
            res.folder_url == folder_url,
            res.lead is None,
            res.players@ == Seq::<u64>::empty(),
            res.finished_players@ == Seq::<u64>::empty(),
            res.nag_interval == 7,
            res.nagged_at == now,
    {
        Telephone {
            host,
            folder_url,
            lead: None,
            players: Vec::new(),
            finished_players: Vec::new(),
            nag_interval: 7,
            nagged_at: now,
        }
    }

    /// Moves the lead, if any, to the front of the players, once.
    pub fn set_lead(&mut self)
        ensures
            final(self).players@ == lead_first(old(self).players@, old(self).lead),
            final(self).host == old(self).host,
            final(self).folder_url == old(self).folder_url,
            final(self).lead == old(self).lead,
            final(self).finished_players == old(self).finished_players,
            final(self).nag_interval == old(self).nag_interval,
            final(self).nagged_at == old(self).nagged_at,
    {
        match self.lead {
            Some(lead_id) => {
                let mut players: Vec<u64> = Vec::new();
                players.push(lead_id);
                let mut i: usize = 0;
                while i < self.players.len()
                    invariant
                        i <= self.players@.len(),
                        players@ == seq![lead_id] + self.players@.take(i as int).filter(
                            other_than(lead_id),
                        ),
                    decreases self.players@.len() - i,
                {
                    proof {
                        reveal(Seq::filter);
                        assert(self.players@.take(i + 1).drop_last() =~= self.players@.take(
                            i as int,
                        ));
                    }
                    if self.players[i] != lead_id {
                        players.push(self.players[i]);
                    }
                    i = i + 1;
                }
                assert(self.players@.take(self.players@.len() as int) =~= self.players@);
                self.players = players;
            },
            None => {},
        }
    }

    /// The first player who has not taken a turn yet.
    pub fn next_player_id(&self) -> (res: Option<u64>)
        ensures
            match first_unfinished(self.players@, self.finished_players@) {
                Some(i) => res == Some(self.players@[i]),
                None => res is None,
            },
    {
        let pos = self.next_player_position();
        proof {
            if let Some(k) = first_unfinished(self.players@, self.finished_players@) {
                assert(pos->0 as int == k);
            }
        }
        match pos {
            Some(i) => Some(self.players[i]),
            None => None,
        }
    }

    /// The position of the first player who has not taken a turn yet.
    pub fn next_player_position(&self) -> (res: Option<usize>)
        ensures
            match first_unfinished(self.players@, self.finished_players@) {
                Some(i) => res is Some && res->0 as int == i && 0 <= i < self.players@.len(),
                None => res is None,
            },
    {
        let mut i: usize = 0;
        while i < self.players.len()
            invariant
                i <= self.players@.len(),
                first_unfinished(self.players@.take(i as int), self.finished_players@) is None,
            decreases self.players@.len() - i,
        {
            assert(self.players@.take(i + 1).drop_last() =~= self.players@.take(i as int));
            if !contains_user(&self.finished_players, self.players[i]) {
                proof {
                    lemma_first_unfinished_prefix(
                        self.players@,
                        self.finished_players@,
                        i as int + 1,
                    );
                }
                return Some(i);
            }
            i = i + 1;
        }
        assert(self.players@.take(self.players@.len() as int) =~= self.players@);
        None
    }

    /// Renews the players from the thread's reactions: the sign-ups, less the bot, in a
    /// random order with the lead first; and the players who took their turn, less the bot.
    pub fn update_players(&mut self, bot_id: u64, story_tellers: &Vec<u64>, finished: &Vec<u64>)
        ensures
            exists|shuffled: Seq<u64>|
                shuffled.to_multiset() == story_tellers@.filter(other_than(bot_id)).to_multiset()
                    && final(self).players@ == lead_first(shuffled, old(self).lead),
            final(self).finished_players@.no_duplicates(),
            forall|u: u64|
                final(self).finished_players@.contains(u) <==> finished@.contains(u) && u != bot_id,
            final(self).host == old(self).host,
            final(self).folder_url == old(self).folder_url,
            final(self).lead == old(self).lead,
            final(self).nag_interval == old(self).nag_interval,
            final(self).nagged_at == old(self).nagged_at,
    {
        let mut players: Vec<u64> = Vec::new();
        let mut i: usize = 0;
        while i < story_tellers.len()
            invariant
                i <= story_tellers@.len(),
                players@ == story_tellers@.take(i as int).filter(other_than(bot_id)),
            decreases story_tellers@.len() - i,
        {
            proof {
                reveal(Seq::filter);
                assert(story_tellers@.take(i + 1).drop_last() =~= story_tellers@.take(i as int));
            }
            if story_tellers[i] != bot_id {
                players.push(story_tellers[i]);
            }
            i = i + 1;
        }
        assert(story_tellers@.take(story_tellers@.len() as int) =~= story_tellers@);
        let ghost signed_up = players@;
        shuffle_players(&mut players);
        let ghost shuffled = players@;
        self.players = players;
        self.set_lead();
        self.finished_players = finished_user_ids(finished, bot_id);
        self.set_lead();
        proof {
            lemma_lead_first_idempotent(shuffled, self.lead);
        }
    }

    /// The welcome line of the game's message.
    pub fn welcome_line(&self) -> (res: String)
        ensures
            res@ == telephone_welcome_text(),
    {
        String::from_str("Welcome to Narrative Telephone!")
    }

    /// The host line of the game's message.
    pub fn host(&self) -> (res: String)
        ensures
            res@ == "Host: "@ + mention(self.host),
    {
        let mut res = String::from_str("Host: ");
        let m = mention_text(self.host);
        res.append(m.as_str());
        res
    }

    /// The players part of the game's message.
    pub fn players(&self) -> (res: String)
        ensures
            res@ == players_text(self.players@, self.finished_players@),
    {
        let mut res = String::from_str("Players:\n");
        if self.players.len() == 0 {
            res.append("No one yet 😥");
        } else {
            let mut lines = String::new();
            let mut i: usize = 0;
            while i < self.players.len()
                invariant
                    i <= self.players@.len(),
                    lines@ == player_lines(self.players@.take(i as int), self.finished_players@),
                decreases self.players@.len() - i,
            {
                assert(self.players@.take(i + 1).drop_last() =~= self.players@.take(i as int));
                if i > 0 {
                    lines.append("\n");
                } else {
                    assert(self.players@.take(1)[0] == self.players@[0]);
                }
                let id = self.players[i];
                let m = mention_text(id);
                lines.append(m.as_str());
                lines.append(" ");
                if contains_user(&self.finished_players, id) {
                    lines.append(FINISHED);
                } else {
                    proof {
                        reveal_strlit("");
                    }
                    lines.append("");
                }
                i = i + 1;
            }
            assert(self.players@.take(self.players@.len() as int) =~= self.players@);
            res.append(lines.as_str());
        }
        res.append("\n\nClick ");
        res.append(STORY_TELLER);
        res.append(" to signup as a player");
        res
    }

    /// The shared-folder line of the game's message.
    pub fn folder(&self) -> (res: String)
        ensures
            res@ == folder_text(self.folder_url@),
    {
        let mut res = String::from_str("[Shared folder](");
        res.append(self.folder_url.as_str());
        res.append(")");
        res
    }

    /// The game's thread message, whose saved state is `json`.
    pub fn to_message(&self, json: &str) -> (res: String)
        requires
            encode_utf8(json@).len() <= usize::MAX / 4,
        ensures
            res@ == framed(telephone_body(*self), json@),
    {
        let mut res = self.welcome_line();
        res.append("\n\n");
        let p = self.players();
        res.append(p.as_str());
        res.append("\n\n");
        let f = self.folder();
        res.append(f.as_str());
        res.append("\n\n");
        res.append("Orpehus Magic String (feel free to ignore):");
        res.append("\n");
        proof {
            reveal_strlit("\n");
        }
        let magic = frame_payload(json);
        res.append(magic.as_str());
        res
    }

    /// What the thread says after a turn: the next player's call, or that all are done.
    pub fn turn_message(&self) -> (res: String)
        ensures
            match first_unfinished(self.players@, self.finished_players@) {
                Some(i) => res@ == next_turn_text(self.players@[i], i as nat),
                None => res@ == all_done_text(),
            },
    {
        let pos = self.next_player_position();
        proof {
            if let Some(k) = first_unfinished(self.players@, self.finished_players@) {
                assert(pos->0 as int == k);
            }
        }
        match pos {
            Some(i) => {
                let mut res = mention_text(self.players[i]);
                res.append(
                    " you're up! Watch the latest video, then immediately record your version. Upload it to the link in the thread message and name the file `",
                );
                let d = decimal_text(i as u64);
                res.append(d.as_str());
                res.append("[Your name]`.\n\nOnce you're done, react to the thread message with ");
                res.append(FINISHED);
                res.append(".");
                res
            },
            None => String::from_str(
                "We're all done! Go ahead and use `\\orpheus save_me` in the main channel to schedule a watch party!",
            ),
        }
    }

    /// Starts the game on a reaction by `reactor`: only the host may; with no lead set,
    /// the first player becomes the lead.
    pub fn start_story(&mut self, reactor: u64) -> (res: StartOutcome)
        requires
            reactor == old(self).host && old(self).lead is None ==> old(self).players@.len() > 0,
        ensures
            reactor != old(self).host ==> (res matches StartOutcome::NotHost(m) && m@
                == not_host_start_text(reactor)) && final(self).players == old(self).players
                && final(self).lead == old(self).lead,
            reactor == old(self).host ==> {
                let lead = match old(self).lead {
                    Some(l) => l,
                    None => old(self).players@[0],
                };
                &&& final(self).lead == Some(lead)
                &&& res matches StartOutcome::Started(m) && m@ == first_turn_text(lead)
                &&& old(self).lead is None ==> final(self).players@ == lead_first(
                    old(self).players@,
                    Some(lead),
                )
                &&& old(self).lead is Some ==> final(self).players == old(self).players
            },
            final(self).host == old(self).host,
            final(self).folder_url == old(self).folder_url,
            final(self).finished_players == old(self).finished_players,
            final(self).nag_interval == old(self).nag_interval,
            final(self).nagged_at == old(self).nagged_at,
    {
        if reactor != self.host {
            let mut m = String::from_str("Sorry ");
            let who = mention_text(reactor);
            m.append(who.as_str());
            m.append(", only the host can start the story time");
            return StartOutcome::NotHost(m);
        }
        if self.lead.is_none() {
            self.lead = Some(self.players[0]);
            self.set_lead();
        }
        let lead = match self.lead {
            Some(l) => l,
            None => {
                assert(false);
                0
            },
        };
        let mut m = mention_text(lead);
        m.append(
            " you're up! Record your story (it should be about two minutes), then upload it to the link in the thread message. You should name the file `0[Your name]`.\n\nOnce you're done, react to the thread message with ",
        );
        m.append(FINISHED);
        m.append(".");
        StartOutcome::Started(m)
    }
}

/// With a lead, the players start with the lead, hold it once, and hold exactly the lead
/// and the players that were there.
pub proof fn lemma_lead_first_members(players: Seq<u64>, lead: u64)
    ensures
        lead_first(players, Some(lead))[0] == lead,
        forall|i: int| 0 < i < lead_first(players, Some(lead)).len() ==> lead_first(players, Some(lead))[i] != lead,
        forall|u: u64| lead_first(players, Some(lead)).contains(u) <==> u == lead || players.contains(u),
{
    let rest = players.filter(other_than(lead));
    let out = lead_first(players, Some(lead));
    assert(out == seq![lead] + rest);
    assert forall|i: int| 0 < i < out.len() implies out[i] != lead by {
        assert(out[i] == rest[i - 1]);
        players.lemma_filter_pred(other_than(lead), i - 1);
    }
    assert forall|u: u64| out.contains(u) <==> u == lead || players.contains(u) by {
        if out.contains(u) && u != lead {
            let i = choose|i: int| 0 <= i < out.len() && out[i] == u;
            assert(out[i] == rest[i - 1]);
            players.lemma_filter_contains_rev(other_than(lead), u);
        }
        if players.contains(u) && u != lead {
            let j = choose|j: int| 0 <= j < players.len() && players[j] == u;
            players.lemma_filter_contains(other_than(lead), j);
            let k = choose|k: int| 0 <= k < rest.len() && rest[k] == u;
            assert(out[k + 1] == u);
        }
        if u == lead {
            assert(out[0] == u);
        }
    }
}

/// The next player is the first one who has not taken a turn: every player before has,
/// and when there is none, every player has.
pub proof fn lemma_first_unfinished_is_first(players: Seq<u64>, finished: Seq<u64>)
    ensures
        match first_unfinished(players, finished) {
            Some(i) => 0 <= i < players.len() && !finished.contains(players[i]) && forall|j: int|
                0 <= j < i ==> finished.contains(#[trigger] players[j]),
            None => forall|j: int| 0 <= j < players.len() ==> finished.contains(#[trigger] players[j]),
        },
    decreases players.len(),
{
    if players.len() > 0 {
        let rest = players.drop_last();
        lemma_first_unfinished_is_first(rest, finished);
        assert forall|j: int| 0 <= j < rest.len() implies rest[j] == players[j] by {}
    }
}

proof fn lemma_first_unfinished_prefix(players: Seq<u64>, finished: Seq<u64>, k: int)
    requires
        0 < k <= players.len(),
        first_unfinished(players.take(k - 1), finished) is None,
        !finished.contains(players[k - 1]),
    ensures
        first_unfinished(players, finished) == Some(k - 1),
    decreases players.len(),
{
    assert(players.take(k).drop_last() =~= players.take(k - 1));
    if players.len() > k {
        assert(players.drop_last().take(k - 1) =~= players.take(k - 1));
        lemma_first_unfinished_prefix(players.drop_last(), finished, k);
    } else {
        assert(players.take(k) =~= players);
        assert(players.drop_last() =~= players.take(k - 1));
    }
}

/// Moving the lead to the front twice is the same as once.
pub proof fn lemma_lead_first_idempotent(players: Seq<u64>, lead: Option<u64>)
    ensures
        lead_first(lead_first(players, lead), lead) == lead_first(players, lead),
{
    match lead {
        Some(l) => {
            reveal(Seq::filter);
            let rest = players.filter(other_than(l));
            let once = seq![l] + rest;
            assert(once.filter(other_than(l)) =~= rest) by {
                assert(once =~= seq![l] + rest);
                Seq::filter_distributes_over_add(seq![l], rest, other_than(l));
                assert(seq![l].filter(other_than(l)) =~= Seq::<u64>::empty()) by {
                    reveal(Seq::filter);
                    assert(seq![l].drop_last() =~= Seq::<u64>::empty());
                    assert(Seq::<u64>::empty().filter(other_than(l)) =~= Seq::<u64>::empty());
                    assert(!other_than(l)(l));
                }
                lemma_filter_keeps_all(rest, l);
            }
        },
        None => {},
    }
}

proof fn lemma_filter_keeps_all(s: Seq<u64>, l: u64)
    requires
        forall|i: int| 0 <= i < s.len() ==> s[i] != l,
    ensures
        s.filter(other_than(l)) == s,
    decreases s.len(),
{
    reveal(Seq::filter);
    if s.len() > 0 {
        lemma_filter_keeps_all(s.drop_last(), l);
        assert(s.drop_last().push(s.last()) =~= s);
    }
}

} // verus!
