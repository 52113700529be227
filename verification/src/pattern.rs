//! The two regular-expression steps of the bot: dropping the zero padding from dates,
//! and finding the user mentions in a command's text.

use vstd::prelude::*;
use crate::text::{
    decimal, is_digit, lemma_decimal_digits, lemma_decimal_round_trip, mention, parse_u64,
    unsigned_value,
};

verus! {

/// The pattern of a zero that pads a digit.
pub const ZERO_PADDING_PATTERN: &'static str = r"0(\d)";

/// What takes a zero-padded digit's place: the digit alone.
pub const ZERO_PADDING_REPLACEMENT: &'static str = "$1";

/// The pattern of a user mention, with the user's number as its first group.
pub const MENTION_PATTERN: &'static str = r"<@(\d+)>";

/// What the regex crate's `replace_all` gives for `pattern` on `text` with `replacement`.
pub uninterp spec fn regex_replace_all_result(
    pattern: Seq<char>,
    text: Seq<char>,
    replacement: Seq<char>,
) -> Seq<char>;

/// Whether every character of `s` is ASCII.
pub open spec fn is_ascii_text(s: Seq<char>) -> bool {
    forall|i: int| 0 <= i < s.len() ==> (#[trigger] s[i] as int) < 128
}

/// `s` with each `0` that is followed by a digit dropped, reading from the left and going on
/// after that digit: the replacement of `0(\d)` by `$1` in ASCII text.
pub open spec fn zero_stripped(s: Seq<char>) -> Seq<char>
    decreases s.len(),
{
    if s.len() < 2 {
        s
    } else if s[0] == '0' && is_digit(s[1]) {
        seq![s[1]] + zero_stripped(s.skip(2))
    } else {
        seq![s[0]] + zero_stripped(s.skip(1))
    }
}

/// What the regex crate's `captures_iter` gives for `pattern` over `text`: for each match
/// in order, the text of its first group if that group took part.
pub uninterp spec fn regex_first_groups(pattern: Seq<char>, text: Seq<char>) -> Seq<
    Option<Seq<char>>,
>;

/// How many ASCII digits `s` starts with.
pub open spec fn digit_run(s: Seq<char>) -> nat
    decreases s.len(),
{
    if s.len() > 0 && is_digit(s[0]) {
        1 + digit_run(s.skip(1))
    } else {
        0
    }
}

/// The first groups of the matches of `<@(\d+)>` in ASCII text, scanning from the left
/// and going on after each match: at each place a match starts exactly where `<@`, one or
/// more digits and `>` follow; its group is the digits.
pub open spec fn mention_groups(s: Seq<char>) -> Seq<Option<Seq<char>>>
    decreases s.len(),
{
    if s.len() == 0 {
        seq![]
    } else {
        let k: int = digit_run(s.skip(2)) as int;
        if s.len() >= 2 && s[0] == '<' && s[1] == '@' && k >= 1 && s.len() > 2 + k && s[2 + k]
            == '>' {
            seq![Some(s.subrange(2, 2 + k))] + mention_groups(s.skip(3 + k))
        } else {
            mention_groups(s.skip(1))
        }
    }
}

/// The text of a matched group, if it took part.
pub open spec fn group_view(g: Option<String>) -> Option<Seq<char>> {
    match g {
        Some(s) => Some(s@),
        None => None,
    }
}

/// Calls regex's `Regex::new` and then `Regex::replace_all`. The pattern is the zero-padding
/// pattern, which is valid regex syntax well within the default size limits, so
/// `Regex::new` does not fail. Claims that the result is the named
/// `regex_replace_all_result` of its arguments and, for ASCII text, where `\d` matches
/// exactly the ASCII digits, that each leftmost `0` before a digit gives way to the
/// digit, matches not overlapping. For other text, where `\d` also matches other
/// Unicode digits, only the name is claimed.
#[verifier::external_body]
fn regex_replace_all(pattern: &str, text: &str, replacement: &str) -> (res: String)
    requires
        pattern@ == ZERO_PADDING_PATTERN@,
        replacement@ == ZERO_PADDING_REPLACEMENT@,
    ensures
        res@ == regex_replace_all_result(pattern@, text@, replacement@),
        is_ascii_text(text@) ==> res@ == zero_stripped(text@),
{
    regex::Regex::new(pattern).unwrap().replace_all(text, replacement).to_string()
}

/// Calls regex's `Regex::new` and then `Regex::captures_iter`, picking each match's first
/// group. The pattern is the mention pattern, which is valid regex syntax well within the
/// default size limits, so `Regex::new` does not fail. Claims that the result is the
/// named `regex_first_groups` of its arguments and, for ASCII text, where `\d` matches
/// exactly the ASCII digits, the groups of the leftmost, non-overlapping matches. For
/// other text, where `\d` also matches other Unicode digits, only the name is claimed.
#[verifier::external_body]
fn regex_captures(pattern: &str, text: &str) -> (res: Vec<Option<String>>)
    requires
        pattern@ == MENTION_PATTERN@,
    ensures
        regex_first_groups(pattern@, text@) == res@.map_values(|g: Option<String>| group_view(g)),
        is_ascii_text(text@) ==> mention_groups(text@) == res@.map_values(
            |g: Option<String>| group_view(g),
        ),
{
    regex::Regex::new(pattern)
        .unwrap()
        .captures_iter(text)
        .map(|c| c.get(1).map(|m| m.as_str().to_string()))
        .collect()
}

/// `text` with the zero padding taken off its numbers: stated for ASCII text, named for
/// other text.
pub open spec fn without_zero_padding(text: Seq<char>) -> Seq<char> {
    if is_ascii_text(text) {
        zero_stripped(text)
    } else {
        regex_replace_all_result(ZERO_PADDING_PATTERN@, text, ZERO_PADDING_REPLACEMENT@)
    }
}

/// `text` with the zero padding taken off its numbers (`Mar 04 at 07pm` becomes
/// `Mar 4 at 7pm`), as the regex crate replaces `0(\d)` by the digit.
pub fn strip_zero_padding(text: &str) -> (res: String)
    ensures
        res@ == without_zero_padding(text@),
{
    regex_replace_all(ZERO_PADDING_PATTERN, text, ZERO_PADDING_REPLACEMENT)
}

/// The user numbers that a list of matched groups names: each group that took part and
/// reads as a `u64`, in order.
pub open spec fn mentioned_ids(groups: Seq<Option<Seq<char>>>) -> Seq<u64>
    decreases groups.len(),
{
    if groups.len() == 0 {
        seq![]
    } else {
        let rest = mentioned_ids(groups.drop_last());
        match groups.last() {
            Some(g) => match unsigned_value(g) {
                Some(v) => if v <= u64::MAX {
                    rest.push(v as u64)
                } else {
                    rest
                },
                None => rest,
            },
            None => rest,
        }
    }
}

/// The users that `text` mentions as `<@number>`, in order: stated for ASCII text, through
/// the named groups for other text.
pub open spec fn mentions_of(text: Seq<char>) -> Seq<u64> {
    if is_ascii_text(text) {
        mentioned_ids(mention_groups(text))
    } else {
        mentioned_ids(regex_first_groups(MENTION_PATTERN@, text))
    }
}

/// The users that `text` mentions as `<@number>`, in order.
pub fn mentioned_user_ids(text: &str) -> (res: Vec<u64>)
    ensures
        res@ == mentions_of(text@),
{
    let groups = regex_captures(MENTION_PATTERN, text);
    let ghost view = groups@.map_values(|g: Option<String>| group_view(g));
    let mut ids: Vec<u64> = Vec::new();
    let mut i: usize = 0;
    while i < groups.len()
        invariant
            i <= groups@.len(),
            view == groups@.map_values(|g: Option<String>| group_view(g)),
            ids@ == mentioned_ids(view.take(i as int)),
        decreases groups@.len() - i,
    {
        assert(view.take(i + 1).drop_last() =~= view.take(i as int));
        match &groups[i] {
            Some(g) => {
                match parse_u64(g.as_str()) {
                    Some(v) => {
                        ids.push(v);
                    },
                    None => {},
                }
            },
            None => {},
        }
        i = i + 1;
    }
    assert(view.take(groups@.len() as int) =~= view);
    ids
}

proof fn lemma_digit_run_then(t: Seq<char>, rest: Seq<char>)
    requires
        forall|i: int| 0 <= i < t.len() ==> is_digit(#[trigger] t[i]),
    ensures
        digit_run(t + (seq!['>'] + rest)) == t.len(),
    decreases t.len(),
{
    let s = t + (seq!['>'] + rest);
    if t.len() == 0 {
        assert(s[0] == '>');
        assert(!is_digit(s[0]));
    } else {
        assert(s.skip(1) =~= t.skip(1) + (seq!['>'] + rest));
        lemma_digit_run_then(t.skip(1), rest);
    }
}

proof fn lemma_mentioned_ids_concat(a: Seq<Option<Seq<char>>>, b: Seq<Option<Seq<char>>>)
    ensures
        mentioned_ids(a + b) == mentioned_ids(a) + mentioned_ids(b),
    decreases b.len(),
{
    if b.len() == 0 {
        assert(a + b =~= a);
        assert(mentioned_ids(a) + mentioned_ids(b) =~= mentioned_ids(a));
    } else {
        assert((a + b).drop_last() =~= a + b.drop_last());
        assert((a + b).last() == b.last());
        lemma_mentioned_ids_concat(a, b.drop_last());
        let ma = mentioned_ids(a);
        let mb = mentioned_ids(b.drop_last());
        assert forall|v: u64| (ma + mb).push(v) =~= ma + mb.push(v) by {}
    }
}

/// A user mention as the bot writes it, `<@id>`, reads back as that user, ahead of the
/// mentions in whatever ASCII text follows it.
pub proof fn lemma_mention_then_text(id: u64, rest: Seq<char>)
    requires
        is_ascii_text(rest),
    ensures
        mentions_of(mention(id) + rest) == seq![id] + mentions_of(rest),
{
    reveal_strlit("<@");
    reveal_strlit(">");
    let d = decimal(id as nat);
    lemma_decimal_digits(id as nat);
    lemma_decimal_round_trip(id as nat);
    let s = mention(id) + rest;
    assert(s =~= seq!['<', '@'] + (d + (seq!['>'] + rest)));
    assert(is_ascii_text(s)) by {
        assert forall|i: int| 0 <= i < s.len() implies (#[trigger] s[i] as int) < 128 by {
            if 2 <= i < 2 + d.len() {
                assert(s[i] == d[i - 2]);
                assert(is_digit(d[i - 2]));
            } else if i >= 3 + d.len() {
                assert(s[i] == rest[i - 3 - d.len()]);
            }
        }
    }
    lemma_digit_run_then(d, rest);
    let k: int = d.len() as int;
    assert(s.skip(2) =~= d + (seq!['>'] + rest));
    assert(s.subrange(2, 2 + k) =~= d);
    assert(s.skip(3 + k) =~= rest);
    assert(mention_groups(s) == seq![Some(d)] + mention_groups(rest));
    let g = seq![Some(d)];
    assert(g.drop_last() =~= Seq::<Option<Seq<char>>>::empty());
    assert(mentioned_ids(g.drop_last()) == Seq::<u64>::empty());
    assert(g.last() == Some(d));
    assert(unsigned_value(d) == Some(id as nat));
    assert(((id as nat) as u64) == id);
    assert(mentioned_ids(g) =~= seq![id]);
    lemma_mentioned_ids_concat(g, mention_groups(rest));
}

/// A user mention as the bot writes it, `<@id>`, reads back as that one user, whatever the
/// user's number.
pub proof fn lemma_mention_reads_back(id: u64)
    ensures
        mentions_of(mention(id)) == seq![id],
{
    assert(mention(id) + Seq::<char>::empty() =~= mention(id));
    lemma_mention_then_text(id, Seq::<char>::empty());
    assert(mention_groups(Seq::<char>::empty()) == Seq::<Option<Seq<char>>>::empty());
    assert(seq![id] + Seq::<u64>::empty() =~= seq![id]);
}

} // verus!
