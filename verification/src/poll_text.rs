//! The thread message of a poll: who hosts it, who must attend, the week's days with
//! the ruled-out ones struck through, and the saved state at the end.

use vstd::prelude::*;
use vstd::utf8::encode_utf8;
use crate::codec::{frame_payload, framed, lemma_framed_payload, payload_of};
use crate::date::{
    am_pm, calendar_of, date_time_text, hour12, month_abbrev, short_date_text, two_digits,
    weekday_abbrev, weekday_of, Date, MAX_DAY,
};
use crate::emoji::{day_at, keycap, numbers, NumberEmojis};
use crate::pattern::{is_ascii_text, strip_zero_padding, zero_stripped};
use crate::poll::{contains_day, Poll};
use crate::text::{channel_mention, channel_mention_text, decimal, decimal_text, mention, mention_text};

verus! {

/// The closing lines of a poll message, up to the line of its saved state.
pub const POLL_FOOTER: &'static str = "\nTo lock in your availability, hit ✅. If you need to change your answers after, please uncheck then recheck ✅.\n\nIf you're sure you can't make any days, just hit ✅.\n\nOrpehus Magic String (feel free to ignore):";

/// `Welcome to the scheduling thread for **name**!`
pub open spec fn welcome_text(name: Seq<char>) -> Seq<char> {
    "Welcome to the scheduling thread for **"@ + name + "**!"@
}

/// `Host: <@host>`
pub open spec fn host_text(host: u64) -> Seq<char> {
    "Host: "@ + mention(host)
}

/// Each user's mention, after a space.
pub open spec fn mentions_text(users: Seq<u64>) -> Seq<char>
    decreases users.len(),
{
    if users.len() == 0 {
        seq![]
    } else {
        mentions_text(users.drop_last()) + " "@ + mention(users.last())
    }
}

/// `Required attendees:` and each required user's mention.
pub open spec fn required_text(users: Seq<u64>) -> Seq<char> {
    "Required attendees:"@ + mentions_text(users)
}

/// `Allowed truancy: n`
pub open spec fn truants_text(n: nat) -> Seq<char> {
    "Allowed truancy: "@ + decimal(n)
}

/// A day at a whole hour in the poll-line layout, with zero padding dropped.
pub open spec fn clean_date_text(day: int, hour: int) -> Seq<char> {
    zero_stripped(date_time_text(day, hour))
}

proof fn lemma_ascii_concat(a: Seq<char>, b: Seq<char>)
    requires
        is_ascii_text(a),
        is_ascii_text(b),
    ensures
        is_ascii_text(a + b),
{
    assert forall|i: int| 0 <= i < (a + b).len() implies ((#[trigger] (a + b)[i]) as int) < 128 by {
        if i < a.len() {
            assert((a + b)[i] == a[i]);
        } else {
            assert((a + b)[i] == b[i - a.len()]);
        }
    }
}

proof fn lemma_two_digits_ascii(v: int)
    ensures
        is_ascii_text(two_digits(v)),
{
    let t = two_digits(v);
    assert(t[0] as int <= '9' as int);
    assert(t[1] as int <= '9' as int);
}

/// The poll-line layout of a day is plain ASCII.
proof fn lemma_date_time_text_ascii(day: int, hour: int)
    ensures
        is_ascii_text(date_time_text(day, hour)),
{
    let (y, m, d) = calendar_of(day);
    let w = weekday_abbrev(weekday_of(day));
    let mo = month_abbrev(m);
    let ap = am_pm(hour);
    assert(is_ascii_text(w)) by {
        assert(w[0] as int <= 'z' as int && w[1] as int <= 'z' as int && w[2] as int <= 'z' as int);
    }
    assert(is_ascii_text(mo)) by {
        assert(mo[0] as int <= 'z' as int && mo[1] as int <= 'z' as int && mo[2] as int <= 'z' as int);
    }
    assert(is_ascii_text(ap)) by {
        assert(ap[0] as int <= 'z' as int && ap[1] as int <= 'z' as int);
    }
    assert(is_ascii_text(seq![',', ' ']));
    assert(is_ascii_text(seq![' ']));
    assert(is_ascii_text(seq![' ', 'a', 't', ' ']));
    lemma_two_digits_ascii(d);
    lemma_two_digits_ascii(hour12(hour));
    lemma_ascii_concat(w, seq![',', ' ']);
    lemma_ascii_concat(w + seq![',', ' '], mo);
    lemma_ascii_concat(w + seq![',', ' '] + mo, seq![' ']);
    lemma_ascii_concat(w + seq![',', ' '] + mo + seq![' '], two_digits(d));
    lemma_ascii_concat(w + seq![',', ' '] + mo + seq![' '] + two_digits(d), seq![' ', 'a', 't', ' ']);
    lemma_ascii_concat(
        w + seq![',', ' '] + mo + seq![' '] + two_digits(d) + seq![' ', 'a', 't', ' '],
        two_digits(hour12(hour)),
    );
    lemma_ascii_concat(
        w + seq![',', ' '] + mo + seq![' '] + two_digits(d) + seq![' ', 'a', 't', ' ']
            + two_digits(hour12(hour)),
        ap,
    );
}

/// `Event voting will be open until` the end day at 10pm.
pub open spec fn ends_at_text(end_day: int) -> Seq<char> {
    "Event voting will be open until "@ + clean_date_text(end_day, 22)
}

/// The hour a poll proposes on a day: 3pm on weekends, 7pm otherwise.
pub open spec fn poll_hour(day: int) -> int {
    if weekday_of(day) >= 5 {
        15
    } else {
        19
    }
}

/// The line of the `i`-th day of a poll that starts on `start`: its emoji and date,
/// struck through with `~~` when ruled out.
pub open spec fn day_line_text(start: int, i: int, eliminated: Seq<NumberEmojis>) -> Seq<char> {
    let mark = if eliminated.contains(day_at(i)) {
        "~~"@
    } else {
        seq![]
    };
    mark + keycap(day_at(i)) + " "@ + clean_date_text(start + i, poll_hour(start + i)) + mark
        + "\n"@
}

/// Each day of a poll is proposed at 3pm when it is a Saturday or a Sunday and at 7pm on
/// Monday to Friday; its line is the day's keycap and that date and hour, struck through
/// when the day is ruled out.
pub proof fn lemma_day_line_hour(start: int, i: int, eliminated: Seq<NumberEmojis>)
    ensures
        ({
            let day = start + i;
            let hour = if weekday_of(day) == 5 || weekday_of(day) == 6 {
                15int
            } else {
                19int
            };
            let mark = if eliminated.contains(day_at(i)) {
                "~~"@
            } else {
                seq![]
            };
            day_line_text(start, i, eliminated) == mark + keycap(day_at(i)) + " "@
                + zero_stripped(date_time_text(day, hour)) + mark + "\n"@
        }),
{
}

/// The lines of the first `k` days of a poll.
pub open spec fn day_lines_text(start: int, k: int, eliminated: Seq<NumberEmojis>) -> Seq<char>
    decreases k,
{
    if k <= 0 {
        seq![]
    } else {
        day_lines_text(start, k - 1, eliminated) + day_line_text(start, k - 1, eliminated)
    }
}

/// The lines of a poll message before its dates.
pub open spec fn poll_header(p: Poll) -> Seq<char> {
    let base = welcome_text(p.event_name@) + "\n\n"@ + host_text(p.host) + "\n\n"@ + required_text(
        p.required_users@,
    ) + "\n\n"@;
    if p.allowed_truants > 0 {
        base + truants_text(p.allowed_truants as nat) + "\n\n"@
    } else {
        base
    }
}

/// A poll message up to the line of its saved state.
pub open spec fn poll_body(p: Poll) -> Seq<char> {
    poll_header(p) + ends_at_text(p.end_date.day()) + "\n\n"@ + day_lines_text(
        p.start_date.day(),
        7,
        p.eliminated_days@,
    ) + POLL_FOOTER@
}

/// The thread message of a poll whose saved state is `json`.
pub open spec fn poll_message(p: Poll, json: Seq<char>) -> Seq<char> {
    framed(poll_body(p), json)
}

/// The saved state that a poll's message carries reads back as the state it was written
/// with.
pub proof fn lemma_poll_message_carries_state(p: Poll, json: Seq<char>)
    ensures
        payload_of(poll_message(p, json)) == Some(json),
{
    lemma_framed_payload(poll_body(p), json);
}

/// The name of a poll's thread: `(first-last) event`, with the first and last day as month/day.
pub open spec fn thread_name_text(p: Poll) -> Seq<char> {
    "("@ + short_date_text(p.start_date.day()) + "-"@ + short_date_text(p.start_date.day() + 6)
        + ") "@ + p.event_name@
}

/// What a poll's thread says when every day is ruled out and the next week's thread is open.
pub open spec fn next_dates_notice_text(channel: u64) -> Seq<char> {
    "All dates eliminated! Created a new thread "@ + channel_mention(channel)
        + " with next set of dates. This thread is locked and will be archived in one day."@
}

/// The mentions of `users`, each after a space.
pub fn mentions(users: &Vec<u64>) -> (res: String)
    ensures
        res@ == mentions_text(users@),
{
    let mut res = String::new();
    let mut i: usize = 0;
    while i < users.len()
        invariant
            i <= users@.len(),
            res@ == mentions_text(users@.take(i as int)),
        decreases users@.len() - i,
    {
        assert(users@.take(i + 1).drop_last() =~= users@.take(i as int));
        res.append(" ");
        let m = mention_text(users[i]);
        res.append(m.as_str());
        i = i + 1;
    }
    assert(users@.take(users@.len() as int) =~= users@);
    res
}

/// A day at a whole hour in the poll-line layout, with zero padding dropped.
pub fn clean_date(date: &Date, hour: u32) -> (res: String)
    requires
        hour < 24,
    ensures
        res@ == clean_date_text(date.day(), hour as int),
{
    let text = date.format_at_hour(hour);
    proof {
        lemma_date_time_text_ascii(date.day(), hour as int);
    }
    strip_zero_padding(text.as_str())
}

impl Poll {
    /// The welcome line of the poll's message.
    pub fn welcome_line(&self) -> (res: String)
        ensures
            res@ == welcome_text(self.event_name@),
    {
        let mut res = String::from_str("Welcome to the scheduling thread for **");
        res.append(self.event_name.as_str());
        res.append("**!");
        res
    }

    /// The host line of the poll's message.
    pub fn host_line(&self) -> (res: String)
        ensures
            res@ == host_text(self.host),
    {
        let mut res = String::from_str("Host: ");
        let m = mention_text(self.host);
        res.append(m.as_str());
        res
    }

    /// The line that lists the poll's required users.
    pub fn required_users_line(&self) -> (res: String)
        ensures
            res@ == required_text(self.required_users@),
    {
        let mut res = String::from_str("Required attendees:");
        let m = mentions(&self.required_users);
        res.append(m.as_str());
        res
    }

    /// The line that gives the poll's allowed truancy.
    pub fn allowed_truants_line(&self) -> (res: String)
        ensures
            res@ == truants_text(self.allowed_truants as nat),
    {
        let mut res = String::from_str("Allowed truancy: ");
        let d = decimal_text(self.allowed_truants as u64);
        res.append(d.as_str());
        res
    }

    /// The line that says when voting closes: the end day at 10pm.
    pub fn ends_at_line(&self) -> (res: String)
        ensures
            res@ == ends_at_text(self.end_date.day()),
    {
        let clean = clean_date(&self.end_date, 22);
        let mut res = String::from_str("Event voting will be open until ");
        res.append(clean.as_str());
        res
    }

    /// The line of the `i`-th day of the poll.
    pub fn day_line(&self, i: usize) -> (res: String)
        requires
            i < 7,
            self.start_date.day() + 6 <= MAX_DAY,
        ensures
            res@ == day_line_text(self.start_date.day(), i as int, self.eliminated_days@),
    {
        let days = numbers();
        let n = days[i];
        let _ = self.start_date.day_number();
        let date = match self.start_date.checked_add_days(i as u64) {
            Some(d) => d,
            None => {
                assert(false);
                return String::new();
            },
        };
        let hour: u32 = if date.weekday() >= 5 {
            15
        } else {
            19
        };
        let clean = clean_date(&date, hour);
        let mark = if contains_day(&self.eliminated_days, n) {
            "~~"
        } else {
            ""
        };
        proof {
            reveal_strlit("");
        }
        let mut res = String::from_str(mark);
        res.append(n.as_str());
        res.append(" ");
        res.append(clean.as_str());
        res.append(mark);
        res.append("\n");
        res
    }

    /// The poll's message up to the line of its saved state.
    pub fn message_body(&self) -> (res: String)
        requires
            self.start_date.day() + 6 <= MAX_DAY,
        ensures
            res@ == poll_body(*self),
    {
        let mut res = self.welcome_line();
        res.append("\n\n");
        let h = self.host_line();
        res.append(h.as_str());
        res.append("\n\n");
        let r = self.required_users_line();
        res.append(r.as_str());
        res.append("\n\n");
        if self.allowed_truants > 0 {
            let t = self.allowed_truants_line();
            res.append(t.as_str());
            res.append("\n\n");
        }
        let ends = self.ends_at_line();
        let mut lines = String::new();
        let mut i: usize = 0;
        while i < 7
            invariant
                i <= 7,
                self.start_date.day() + 6 <= MAX_DAY,
                day_lines_text(self.start_date.day(), i as int, self.eliminated_days@) == lines@,
            decreases 7 - i,
        {
            let line = self.day_line(i);
            lines.append(line.as_str());
            i = i + 1;
        }
        res.append(ends.as_str());
        res.append("\n\n");
        res.append(lines.as_str());
        res.append(POLL_FOOTER);
        res
    }

    /// The poll's thread message, whose saved state is `json`.
    pub fn to_message(&self, json: &str) -> (res: String)
        requires
            self.start_date.day() + 6 <= MAX_DAY,
            encode_utf8(json@).len() <= usize::MAX / 4,
        ensures
            res@ == poll_message(*self, json@),
    {
        let mut res = self.message_body();
        res.append("\n");
        proof {
            reveal_strlit("\n");
        }
        let magic = frame_payload(json);
        res.append(magic.as_str());
        res
    }

    /// The name of the poll's thread.
    pub fn thread_name(&self) -> (res: String)
        requires
            self.start_date.day() + 6 <= MAX_DAY,
        ensures
            res@ == thread_name_text(*self),
    {
        let _ = self.start_date.day_number();
        let last = self.start_date.checked_add_days(6);
        let last = match last {
            Some(d) => d,
            None => {
                assert(false);
                return String::new();
            },
        };
        let mut res = String::from_str("(");
        let a = self.start_date.format_short();
        res.append(a.as_str());
        res.append("-");
        let b = last.format_short();
        res.append(b.as_str());
        res.append(") ");
        res.append(self.event_name.as_str());
        res
    }
}

/// What a poll's thread says when every day is ruled out and the next week's thread is open.
pub fn next_dates_notice(channel: u64) -> (res: String)
    ensures
        res@ == next_dates_notice_text(channel),
{
    let mut res = String::from_str("All dates eliminated! Created a new thread ");
    let m = channel_mention_text(channel);
    res.append(m.as_str());
    res.append(" with next set of dates. This thread is locked and will be archived in one day.");
    res
}

} // verus!
