//! Text building blocks: characters, decimal numbers, mentions, trimming and lines.

use vstd::prelude::*;

verus! {

/// The characters of `s`, in order.
pub fn chars_of(s: &str) -> (res: Vec<char>)
    ensures
        res@ == s@,
{
    let n = s.unicode_len();
    let mut res: Vec<char> = Vec::new();
    let mut i: usize = 0;
    while i < n
        invariant
            n == s@.len(),
            i <= n,
            res@ == s@.take(i as int),
        decreases n - i,
    {
        let c = s.get_char(i);
        res.push(c);
        i = i + 1;
        assert(res@ =~= s@.take(i as int));
    }
    assert(s@.take(n as int) =~= s@);
    res
}

/// Calls std's `String::push`. Claims what its documentation says: the character is
/// appended to the end.
#[verifier::external_body]
fn push_char(s: &mut String, c: char)
    ensures
        final(s)@ == old(s)@.push(c),
{
    s.push(c)
}

/// The text of the characters `v`.
pub fn string_from_chars(v: &[char]) -> (res: String)
    ensures
        res@ == v@,
{
    let mut res = String::new();
    let mut i: usize = 0;
    while i < v.len()
        invariant
            i <= v@.len(),
            res@ == v@.take(i as int),
        decreases v@.len() - i,
    {
        push_char(&mut res, v[i]);
        i = i + 1;
        assert(res@ =~= v@.take(i as int));
    }
    assert(v@.take(v@.len() as int) =~= v@);
    res
}

/// The character of a decimal digit.
pub open spec fn digit_char(d: nat) -> char {
    if d == 0 {
        '0'
    } else if d == 1 {
        '1'
    } else if d == 2 {
        '2'
    } else if d == 3 {
        '3'
    } else if d == 4 {
        '4'
    } else if d == 5 {
        '5'
    } else if d == 6 {
        '6'
    } else if d == 7 {
        '7'
    } else if d == 8 {
        '8'
    } else {
        '9'
    }
}

/// Whether `c` is an ASCII decimal digit.
pub open spec fn is_digit(c: char) -> bool {
    '0' <= c <= '9'
}

/// The decimal text of `n`, without sign or leading zeros.
pub open spec fn decimal(n: nat) -> Seq<char>
    decreases n,
{
    if n < 10 {
        seq![digit_char(n)]
    } else {
        decimal(n / 10).push(digit_char(n % 10))
    }
}

fn digit(d: u64) -> (c: char)
    requires
        d < 10,
    ensures
        c == digit_char(d as nat),
{
    if d == 0 {
        '0'
    } else if d == 1 {
        '1'
    } else if d == 2 {
        '2'
    } else if d == 3 {
        '3'
    } else if d == 4 {
        '4'
    } else if d == 5 {
        '5'
    } else if d == 6 {
        '6'
    } else if d == 7 {
        '7'
    } else if d == 8 {
        '8'
    } else {
        '9'
    }
}

fn decimal_chars(n: u64) -> (res: Vec<char>)
    ensures
        res@ == decimal(n as nat),
    decreases n,
{
    if n < 10 {
        let res = vec![digit(n)];
        assert(res@ =~= decimal(n as nat));
        res
    } else {
        let mut res = decimal_chars(n / 10);
        res.push(digit(n % 10));
        res
    }
}

/// The decimal text of `n`, as `{}` formats an integer.
pub fn decimal_text(n: u64) -> (res: String)
    ensures
        res@ == decimal(n as nat),
{
    let v = decimal_chars(n);
    string_from_chars(v.as_slice())
}

/// How a user is mentioned in a message: `<@id>`.
pub open spec fn mention(id: u64) -> Seq<char> {
    "<@"@ + decimal(id as nat) + ">"@
}

/// How a channel is mentioned in a message: `<#id>`.
pub open spec fn channel_mention(id: u64) -> Seq<char> {
    "<#"@ + decimal(id as nat) + ">"@
}

/// The mention text of user `id`.
pub fn mention_text(id: u64) -> (res: String)
    ensures
        res@ == mention(id),
{
    let mut res = String::from_str("<@");
    let d = decimal_text(id);
    res.append(d.as_str());
    res.append(">");
    res
}

/// The mention text of channel `id`.
pub fn channel_mention_text(id: u64) -> (res: String)
    ensures
        res@ == channel_mention(id),
{
    let mut res = String::from_str("<#");
    let d = decimal_text(id);
    res.append(d.as_str());
    res.append(">");
    res
}

/// Unicode `White_Space`, the characters that `char::is_whitespace` accepts.
pub open spec fn is_whitespace(c: char) -> bool {
    ||| ('\u{9}' <= c <= '\u{D}')
    ||| c == ' '
    ||| c == '\u{85}'
    ||| c == '\u{A0}'
    ||| c == '\u{1680}'
    ||| ('\u{2000}' <= c <= '\u{200A}')
    ||| c == '\u{2028}'
    ||| c == '\u{2029}'
    ||| c == '\u{202F}'
    ||| c == '\u{205F}'
    ||| c == '\u{3000}'
}

fn whitespace(c: char) -> (res: bool)
    ensures
        res == is_whitespace(c),
{
    ('\u{9}' <= c && c <= '\u{D}') || c == ' ' || c == '\u{85}' || c == '\u{A0}' || c
        == '\u{1680}' || ('\u{2000}' <= c && c <= '\u{200A}') || c == '\u{2028}' || c
        == '\u{2029}' || c == '\u{202F}' || c == '\u{205F}' || c == '\u{3000}'
}

/// `s` without its leading whitespace.
pub open spec fn trim_start(s: Seq<char>) -> Seq<char>
    decreases s.len(),
{
    if s.len() > 0 && is_whitespace(s[0]) {
        trim_start(s.drop_first())
    } else {
        s
    }
}

/// `s` without its trailing whitespace.
pub open spec fn trim_end(s: Seq<char>) -> Seq<char>
    decreases s.len(),
{
    if s.len() > 0 && is_whitespace(s.last()) {
        trim_end(s.drop_last())
    } else {
        s
    }
}

/// `s` without leading and trailing whitespace, as `str::trim` gives it.
pub open spec fn trimmed(s: Seq<char>) -> Seq<char> {
    trim_end(trim_start(s))
}

/// A text with no whitespace at either end is its own trim.
pub proof fn lemma_trimmed_unchanged(s: Seq<char>)
    requires
        s.len() > 0 ==> !is_whitespace(s[0]) && !is_whitespace(s.last()),
    ensures
        trimmed(s) == s,
{
}

proof fn lemma_trim_start_skip(s: Seq<char>, i: int)
    requires
        0 <= i <= s.len(),
        forall|j: int| 0 <= j < i ==> is_whitespace(#[trigger] s[j]),
    ensures
        trim_start(s) == trim_start(s.skip(i)),
    decreases i,
{
    if i > 0 {
        assert(s.drop_first().skip(i - 1) =~= s.skip(i));
        assert(is_whitespace(s[0]));
        assert forall|j: int| 0 <= j < i - 1 implies is_whitespace(#[trigger] s.drop_first()[j]) by {
            assert(s.drop_first()[j] == s[j + 1]);
        }
        lemma_trim_start_skip(s.drop_first(), i - 1);
    } else {
        assert(s.skip(0) =~= s);
    }
}

proof fn lemma_trim_end_take(s: Seq<char>, i: int)
    requires
        0 <= i <= s.len(),
        forall|j: int| i <= j < s.len() ==> is_whitespace(#[trigger] s[j]),
    ensures
        trim_end(s) == trim_end(s.take(i)),
    decreases s.len() - i,
{
    if i < s.len() {
        assert(s.drop_last().take(i) =~= s.take(i));
        lemma_trim_end_take(s.drop_last(), i);
    } else {
        assert(s.take(i) =~= s);
    }
}

/// `s` without leading and trailing whitespace.
pub fn trim_chars(s: &Vec<char>) -> (res: Vec<char>)
    ensures
        res@ == trimmed(s@),
{
    let n = s.len();
    let mut start: usize = 0;
    while start < n && whitespace(s[start])
        invariant
            n == s@.len(),
            start <= n,
            forall|j: int| 0 <= j < start ==> is_whitespace(#[trigger] s@[j]),
        decreases n - start,
    {
        start = start + 1;
    }
    proof {
        lemma_trim_start_skip(s@, start as int);
    }
    let ghost rest = s@.skip(start as int);
    assert(trim_start(rest) == rest);
    let mut end: usize = n;
    while end > start && whitespace(s[end - 1])
        invariant
            n == s@.len(),
            start <= end <= n,
            forall|j: int| end <= j < n ==> is_whitespace(#[trigger] s@[j]),
        decreases end,
    {
        end = end - 1;
    }
    proof {
        lemma_trim_end_take(rest, end - start);
        assert(rest.take(end - start) =~= s@.subrange(start as int, end as int));
    }
    let mut res: Vec<char> = Vec::new();
    let mut i: usize = start;
    while i < end
        invariant
            n == s@.len(),
            start <= i <= end <= n,
            res@ == s@.subrange(start as int, i as int),
        decreases end - i,
    {
        res.push(s[i]);
        i = i + 1;
        assert(res@ =~= s@.subrange(start as int, i as int));
    }
    res
}

/// `s` with every `c` taken out.
pub open spec fn without_char(s: Seq<char>, c: char) -> Seq<char> {
    s.filter(|x: char| x != c)
}

/// `s` with every `c` taken out, as `str::replace(c, "")` gives it.
pub fn remove_char(s: &Vec<char>, c: char) -> (res: Vec<char>)
    ensures
        res@ == without_char(s@, c),
{
    let mut res: Vec<char> = Vec::new();
    let mut i: usize = 0;
    while i < s.len()
        invariant
            i <= s@.len(),
            res@ == without_char(s@.take(i as int), c),
        decreases s@.len() - i,
    {
        proof {
            reveal(Seq::filter);
            assert(s@.take(i + 1).drop_last() =~= s@.take(i as int));
        }
        if s[i] != c {
            res.push(s[i]);
        }
        i = i + 1;
    }
    assert(s@.take(s@.len() as int) =~= s@);
    res
}

/// The last line of `s`, as `str::lines().last()` gives it: lines end at `\n` or
/// `\r\n`, the final line ending is optional, and an empty text has no line.
pub open spec fn last_line(s: Seq<char>) -> Option<Seq<char>> {
    if s.len() == 0 {
        None
    } else {
        let terminated = s.last() == '\n';
        let body = if terminated { s.drop_last() } else { s };
        let line = last_segment(body);
        if terminated && line.len() > 0 && line.last() == '\r' {
            Some(line.drop_last())
        } else {
            Some(line)
        }
    }
}

/// What follows the last `\n` of `s` (all of `s` if it has none).
pub open spec fn last_segment(s: Seq<char>) -> Seq<char>
    decreases s.len(),
{
    if s.len() == 0 {
        s
    } else if s.last() == '\n' {
        seq![]
    } else {
        last_segment(s.drop_last()).push(s.last())
    }
}

proof fn lemma_last_segment_from(s: Seq<char>, k: int)
    requires
        0 <= k <= s.len(),
        k == 0 || s[k - 1] == '\n',
        forall|j: int| k <= j < s.len() ==> #[trigger] s[j] != '\n',
    ensures
        last_segment(s) == s.skip(k),
    decreases s.len(),
{
    if s.len() > k {
        lemma_last_segment_from(s.drop_last(), k);
        assert(s.drop_last().skip(k).push(s.last()) =~= s.skip(k));
    } else if s.len() > 0 {
        assert(s.skip(k) =~= Seq::<char>::empty());
    }
}

/// The text after the last `\n` of `s` is the last segment of any text that ends with it.
pub proof fn lemma_last_segment_suffix(prefix: Seq<char>, tail: Seq<char>)
    requires
        forall|j: int| 0 <= j < tail.len() ==> #[trigger] tail[j] != '\n',
    ensures
        last_segment(prefix.push('\n') + tail) == tail,
{
    let s = prefix.push('\n') + tail;
    let k: int = prefix.len() as int + 1;
    assert forall|j: int| k <= j < s.len() implies #[trigger] s[j] != '\n' by {
        assert(s[j] == tail[j - k]);
    }
    assert(s[k - 1] == '\n');
    lemma_last_segment_from(s, k);
    assert(s.skip(k) =~= tail);
}

/// The last line of `s`.
pub fn last_line_chars(s: &Vec<char>) -> (res: Option<Vec<char>>)
    ensures
        match last_line(s@) {
            Some(l) => res is Some && res->0@ == l,
            None => res is None,
        },
{
    let n = s.len();
    if n == 0 {
        return None;
    }
    let terminated = s[n - 1] == '\n';
    let body_len = if terminated { n - 1 } else { n };
    let ghost body = s@.take(body_len as int);
    let mut k: usize = body_len;
    while k > 0 && s[k - 1] != '\n'
        invariant
            body_len <= n == s@.len(),
            k <= body_len,
            forall|j: int| k <= j < body_len ==> #[trigger] s@[j] != '\n',
        decreases k,
    {
        k = k - 1;
    }
    proof {
        assert forall|j: int| k <= j < body.len() implies #[trigger] body[j] != '\n' by {
            assert(body[j] == s@[j]);
        }
        lemma_last_segment_from(body, k as int);
        assert(terminated ==> s@.drop_last() =~= body);
        assert(!terminated ==> s@ =~= body);
    }
    let mut end = body_len;
    if terminated && end > k && s[end - 1] == '\r' {
        end = end - 1;
    }
    let mut line: Vec<char> = Vec::new();
    let mut i: usize = k;
    while i < end
        invariant
            k <= i <= end <= body_len <= n == s@.len(),
            line@ == s@.subrange(k as int, i as int),
        decreases end - i,
    {
        line.push(s[i]);
        i = i + 1;
        assert(line@ =~= s@.subrange(k as int, i as int));
    }
    proof {
        let seg = body.skip(k as int);
        if end < body_len {
            assert(seg.drop_last() =~= s@.subrange(k as int, end as int));
        } else {
            assert(seg =~= s@.subrange(k as int, end as int));
        }
    }
    Some(line)
}

/// The value of an ASCII digit.
pub open spec fn digit_value(c: char) -> nat {
    (c as int - '0' as int) as nat
}

/// The value of a text of ASCII digits.
pub open spec fn digits_value(s: Seq<char>) -> nat
    decreases s.len(),
{
    if s.len() == 0 {
        0
    } else {
        digits_value(s.drop_last()) * 10 + digit_value(s.last())
    }
}

/// Whether `s` is one or more ASCII digits.
pub open spec fn all_digits(s: Seq<char>) -> bool {
    s.len() > 0 && forall|i: int| 0 <= i < s.len() ==> is_digit(#[trigger] s[i])
}

/// The number that std's `FromStr` for unsigned integers reads: an optional `+`
/// followed by one or more ASCII digits, and nothing else.
pub open spec fn unsigned_value(s: Seq<char>) -> Option<nat> {
    let body = if s.len() > 0 && s[0] == '+' {
        s.drop_first()
    } else {
        s
    };
    if all_digits(body) {
        Some(digits_value(body))
    } else {
        None
    }
}

/// The value that std's `FromStr` reads for an unsigned integer type whose largest value is
/// `max`: nothing for any other text or a value above `max`.
fn parse_unsigned(s: &str, max: u64) -> (res: Option<u64>)
    requires
        max >= 9,
    ensures
        match unsigned_value(s@) {
            Some(v) => if v <= max {
                res == Some(v as u64)
            } else {
                res is None
            },
            None => res is None,
        },
{
    let chars = chars_of(s);
    let start: usize = if chars.len() > 0 && chars[0] == '+' {
        1
    } else {
        0
    };
    let ghost body = s@.skip(start as int);
    assert(body =~= (if s@.len() > 0 && s@[0] == '+' {
        s@.drop_first()
    } else {
        s@
    }));
    if chars.len() == start {
        return None;
    }
    let mut value: u64 = 0;
    let mut over = false;
    let mut i: usize = start;
    while i < chars.len()
        invariant
            start <= i <= chars@.len(),
            chars@ == s@,
            body == s@.skip(start as int),
            body == (if s@.len() > 0 && s@[0] == '+' {
                s@.drop_first()
            } else {
                s@
            }),
            forall|j: int| 0 <= j < i - start ==> is_digit(#[trigger] body[j]),
            !over ==> value == digits_value(body.take(i - start)),
            !over ==> value <= max,
            over ==> digits_value(body.take(i - start)) > max,
            max >= 9,
        decreases chars@.len() - i,
    {
        let c = chars[i];
        if c < '0' || c > '9' {
            assert(!is_digit(body[i - start]));
            assert(!all_digits(body));
            return None;
        }
        let ghost k = i - start;
        assert(body.take(k + 1).drop_last() =~= body.take(k));
        assert(body.take(k + 1).last() == c);
        let d: u64 = (c as u32 - '0' as u32) as u64;
        assert(d == digit_value(c));
        if over {
            assert(digits_value(body.take(k + 1)) == digits_value(body.take(k)) * 10 + d);
        } else {
            if value > (max - d) / 10 {
                over = true;
                assert(value * 10 + d > max) by (nonlinear_arith)
                    requires
                        value > (max - d) / 10,
                        d <= 9,
                        d <= max,
                ;
            } else {
                assert(value * 10 + d <= max) by (nonlinear_arith)
                    requires
                        value <= (max - d) / 10,
                        d <= max,
                ;
                value = value * 10 + d;
            }
        }
        i = i + 1;
    }
    assert(body.take(body.len() as int) =~= body);
    assert(all_digits(body));
    if over {
        None
    } else {
        Some(value)
    }
}

/// What std's `str::parse::<u64>` gives: the value of an optional `+` and ASCII digits, and
/// an error for any other text or a value too large.
pub(crate) fn parse_u64(s: &str) -> (res: Option<u64>)
    ensures
        match unsigned_value(s@) {
            Some(v) => if v <= u64::MAX {
                res == Some(v as u64)
            } else {
                res is None
            },
            None => res is None,
        },
{
    parse_unsigned(s, u64::MAX)
}

/// What std's `str::parse::<usize>` gives: the value of an optional `+` and ASCII digits,
/// and an error for any other text or a value too large.
pub(crate) fn parse_usize(s: &str) -> (res: Option<usize>)
    ensures
        match unsigned_value(s@) {
            Some(v) => if v <= usize::MAX {
                res == Some(v as usize)
            } else {
                res is None
            },
            None => res is None,
        },
{
    match parse_unsigned(s, usize::MAX as u64) {
        Some(v) => Some(v as usize),
        None => None,
    }
}

proof fn lemma_digit_char(k: nat)
    requires
        k < 10,
    ensures
        digit_value(digit_char(k)) == k,
        is_digit(digit_char(k)),
{
}

/// The decimal text of a number is all digits, and their value is the number.
pub proof fn lemma_decimal_digits(n: nat)
    ensures
        all_digits(decimal(n)),
        digits_value(decimal(n)) == n,
    decreases n,
{
    if n < 10 {
        lemma_digit_char(n);
        assert(decimal(n).drop_last() =~= Seq::<char>::empty());
        assert(digits_value(decimal(n).drop_last()) == 0);
        assert(decimal(n).last() == digit_char(n));
    } else {
        lemma_digit_char(n % 10);
        lemma_decimal_digits(n / 10);
        let d = decimal(n / 10);
        assert(decimal(n).drop_last() =~= d);
        assert forall|i: int| 0 <= i < decimal(n).len() implies is_digit(#[trigger] decimal(n)[i]) by {
            if i < d.len() {
                assert(decimal(n)[i] == d[i]);
            }
        }
        assert(decimal(n).last() == digit_char(n % 10));
        assert(digits_value(decimal(n)) == digits_value(d) * 10 + digit_value(digit_char(n % 10)));
        assert(n == (n / 10) * 10 + n % 10);
    }
}

/// Reading the decimal text of a number gives the number back.
pub proof fn lemma_decimal_round_trip(n: nat)
    ensures
        unsigned_value(decimal(n)) == Some(n),
{
    lemma_decimal_digits(n);
    assert(decimal(n)[0] != '+');
}

} // verus!
