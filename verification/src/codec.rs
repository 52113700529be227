//! The "magic string" that carries a poll's or a game's saved state at the end of
//! its thread message: the state's JSON text, UTF-8 encoded, in standard base64,
//! between `||` and `||`.

use vstd::prelude::*;
use vstd::utf8::*;
use base64::Engine;
use crate::text::{
    chars_of, last_line, last_line_chars, lemma_last_segment_suffix, lemma_trimmed_unchanged,
    remove_char, string_from_chars, trim_chars, trimmed, without_char,
};

verus! {

broadcast use {encode_utf8_valid_utf8, encode_utf8_decode_utf8};

/// The character of a base64 digit in the standard alphabet (`A-Z`, `a-z`, `0-9`, `+`, `/`).
pub open spec fn base64_digit(v: int) -> char {
    if v < 26 {
        (65 + v) as char
    } else if v < 52 {
        (97 + (v - 26)) as char
    } else if v < 62 {
        (48 + (v - 52)) as char
    } else if v == 62 {
        '+'
    } else {
        '/'
    }
}

/// Standard base64 with `=` padding: every three bytes become four digits.
pub open spec fn base64_text(b: Seq<u8>) -> Seq<char>
    decreases b.len(),
{
    if b.len() == 0 {
        seq![]
    } else {
        let x: int = b[0] as int;
        let y: int = if b.len() > 1 { b[1] as int } else { 0 };
        let z: int = if b.len() > 2 { b[2] as int } else { 0 };
        let first = base64_digit(x / 4);
        let second = base64_digit((x % 4) * 16 + y / 16);
        let third = if b.len() > 1 { base64_digit((y % 16) * 4 + z / 64) } else { '=' };
        let fourth = if b.len() > 2 { base64_digit(z % 64) } else { '=' };
        if b.len() <= 3 {
            seq![first, second, third, fourth]
        } else {
            seq![first, second, third, fourth] + base64_text(b.skip(3))
        }
    }
}

/// Whether `c` can stand in standard base64 text.
pub open spec fn is_base64_char(c: char) -> bool {
    ||| ('A' <= c <= 'Z')
    ||| ('a' <= c <= 'z')
    ||| ('0' <= c <= '9')
    ||| c == '+'
    ||| c == '/'
    ||| c == '='
}

/// What base64's `STANDARD.decode` gives for a text: the bytes whose standard padded
/// encoding the text is, or nothing where the text is no such encoding.
pub open spec fn base64_decoded(text: Seq<char>) -> Option<Seq<u8>> {
    if exists|b: Seq<u8>| #[trigger] base64_text(b) == text {
        Some(choose|b: Seq<u8>| #[trigger] base64_text(b) == text)
    } else {
        None
    }
}

/// Calls base64's `STANDARD.encode`. Claims that the result is the standard padded
/// base64 text of the bytes. The call panics only where the encoded length would not
/// fit in `usize`, which `requires` rules out.
#[verifier::external_body]
fn base64_encode(bytes: &[u8]) -> (res: String)
    requires
        bytes@.len() <= usize::MAX / 4,
    ensures
        res@ == base64_text(bytes@),
{
    base64::prelude::BASE64_STANDARD.encode(bytes)
}

/// Calls base64's `STANDARD.decode`. The `STANDARD` engine requires canonical padding and
/// no trailing bits, so it accepts exactly the texts that are the standard encoding of
/// some bytes; the claim is that it then gives those bytes, and fails on any other text.
#[verifier::external_body]
fn base64_decode(text: &str) -> (res: Option<Vec<u8>>)
    ensures
        match res {
            Some(v) => base64_decoded(text@) == Some(v@),
            None => base64_decoded(text@) is None,
        },
{
    base64::prelude::BASE64_STANDARD.decode(text).ok()
}

/// Calls std's `String::from_utf8`. Claims that it succeeds exactly on valid UTF-8 and
/// then holds the decoded characters, as its documentation says.
#[verifier::external_body]
fn utf8_text(bytes: Vec<u8>) -> (res: Option<String>)
    ensures
        res is Some <==> valid_utf8(bytes@),
        res matches Some(s) ==> s@ == decode_utf8(bytes@),
{
    String::from_utf8(bytes).ok()
}

proof fn lemma_base64_chars(b: Seq<u8>)
    ensures
        forall|i: int| 0 <= i < base64_text(b).len() ==> is_base64_char(#[trigger] base64_text(b)[i]),
    decreases b.len(),
{
    if b.len() > 3 {
        lemma_base64_chars(b.skip(3));
        assert forall|i: int| 0 <= i < base64_text(b).len() implies is_base64_char(
            #[trigger] base64_text(b)[i],
        ) by {
            if i >= 4 {
                assert(base64_text(b)[i] == base64_text(b.skip(3))[i - 4]);
            }
        }
    }
}

proof fn lemma_base64_digit_injective(v: int, w: int)
    requires
        0 <= v < 64,
        0 <= w < 64,
        base64_digit(v) == base64_digit(w),
    ensures
        v == w,
{
    if v < 26 {
        assert((65 + v) as char as int == 65 + v);
    } else if v < 52 {
        assert((97 + (v - 26)) as char as int == 97 + (v - 26));
    } else if v < 62 {
        assert((48 + (v - 52)) as char as int == 48 + (v - 52));
    }
    if w < 26 {
        assert((65 + w) as char as int == 65 + w);
    } else if w < 52 {
        assert((97 + (w - 26)) as char as int == 97 + (w - 26));
    } else if w < 62 {
        assert((48 + (w - 52)) as char as int == 48 + (w - 52));
    }
}

proof fn lemma_base64_group(x1: u8, y1: u8, z1: u8, x2: u8, y2: u8, z2: u8)
    requires
        x1 / 4 == x2 / 4,
        (x1 % 4) * 16 + y1 / 16 == (x2 % 4) * 16 + y2 / 16,
        (y1 % 16) * 4 + z1 / 64 == (y2 % 16) * 4 + z2 / 64,
        z1 % 64 == z2 % 64,
    ensures
        x1 == x2,
        y1 == y2,
        z1 == z2,
{
    assert(x1 == x2 && y1 == y2 && z1 == z2) by (bit_vector)
        requires
            x1 / 4 == x2 / 4,
            (x1 % 4) * 16 + y1 / 16 == (x2 % 4) * 16 + y2 / 16,
            (y1 % 16) * 4 + z1 / 64 == (y2 % 16) * 4 + z2 / 64,
            z1 % 64 == z2 % 64,
    ;
}

/// Different bytes have different standard base64 texts.
pub proof fn lemma_base64_text_injective(a: Seq<u8>, b: Seq<u8>)
    requires
        base64_text(a) == base64_text(b),
    ensures
        a == b,
    decreases a.len(),
{
    let ta = base64_text(a);
    if a.len() == 0 {
        if b.len() > 0 {
            assert(base64_text(b).len() >= 4);
        }
        assert(a =~= b);
    } else {
        assert(ta.len() >= 4);
        assert(b.len() > 0);
        let xa: int = a[0] as int;
        let ya: int = if a.len() > 1 { a[1] as int } else { 0 };
        let za: int = if a.len() > 2 { a[2] as int } else { 0 };
        let xb: int = b[0] as int;
        let yb: int = if b.len() > 1 { b[1] as int } else { 0 };
        let zb: int = if b.len() > 2 { b[2] as int } else { 0 };
        assert(ta[0] == base64_digit(xa / 4));
        assert(ta[0] == base64_digit(xb / 4));
        assert(ta[1] == base64_digit((xa % 4) * 16 + ya / 16));
        assert(ta[1] == base64_digit((xb % 4) * 16 + yb / 16));
        // A padding mark never stands where a digit does, so both texts pad alike.
        assert(a.len() > 1 <==> b.len() > 1) by {
            if a.len() > 1 {
                assert(ta[2] == base64_digit((ya % 16) * 4 + za / 64));
            }
            if b.len() > 1 {
                assert(ta[2] == base64_digit((yb % 16) * 4 + zb / 64));
            }
        }
        assert(a.len() > 2 <==> b.len() > 2) by {
            if a.len() > 2 {
                assert(ta[3] == base64_digit(za % 64));
            }
            if b.len() > 2 {
                assert(ta[3] == base64_digit(zb % 64));
            }
        }
        assert(a.len() > 3 <==> b.len() > 3) by {
            if a.len() > 3 {
                assert(base64_text(a.skip(3)).len() > 0) by {
                    assert(base64_text(a.skip(3)).len() >= 4);
                }
            }
            if b.len() > 3 {
                assert(base64_text(b.skip(3)).len() >= 4);
            }
        }
        lemma_base64_digit_injective(xa / 4, xb / 4);
        lemma_base64_digit_injective((xa % 4) * 16 + ya / 16, (xb % 4) * 16 + yb / 16);
        if a.len() > 1 {
            assert(ta[2] == base64_digit((ya % 16) * 4 + za / 64));
            assert(ta[2] == base64_digit((yb % 16) * 4 + zb / 64));
            lemma_base64_digit_injective((ya % 16) * 4 + za / 64, (yb % 16) * 4 + zb / 64);
        }
        if a.len() > 2 {
            assert(ta[3] == base64_digit(za % 64));
            assert(ta[3] == base64_digit(zb % 64));
            lemma_base64_digit_injective(za % 64, zb % 64);
        }
        lemma_base64_group(xa as u8, ya as u8, za as u8, xb as u8, yb as u8, zb as u8);
        if a.len() > 3 {
            let ra = base64_text(a.skip(3));
            let rb = base64_text(b.skip(3));
            assert(ta.skip(4) =~= ra);
            assert(base64_text(b).skip(4) =~= rb);
            lemma_base64_text_injective(a.skip(3), b.skip(3));
            assert(a =~= b) by {
                assert forall|i: int| 0 <= i < a.len() implies a[i] == b[i] by {
                    if i >= 3 {
                        assert(a[i] == a.skip(3)[i - 3]);
                        assert(b[i] == b.skip(3)[i - 3]);
                    }
                }
            }
        } else {
            assert(a =~= b);
        }
    }
}

/// Decoding the standard base64 text of some bytes gives those bytes back.
pub proof fn lemma_base64_round_trip(b: Seq<u8>)
    ensures
        base64_decoded(base64_text(b)) == Some(b),
{
    let t = base64_text(b);
    assert(exists|c: Seq<u8>| #[trigger] base64_text(c) == t);
    let c = choose|c: Seq<u8>| #[trigger] base64_text(c) == t;
    lemma_base64_text_injective(c, b);
}

/// The last line of a thread message that carries `json` as its saved state.
pub open spec fn magic_line(json: Seq<char>) -> Seq<char> {
    "||"@ + base64_text(encode_utf8(json)) + "||"@
}

/// A thread message whose lines `prefix` are followed by the magic line of `json`.
pub open spec fn framed(prefix: Seq<char>, json: Seq<char>) -> Seq<char> {
    prefix.push('\n') + magic_line(json)
}

/// The saved state that a thread message carries, read the way the bot reads it: the
/// last line, trimmed, without any `|`, base64-decoded, then UTF-8 decoded. Nothing
/// where any of these steps fails.
pub open spec fn payload_of(message: Seq<char>) -> Option<Seq<char>> {
    match last_line(message) {
        None => None,
        Some(line) => match base64_decoded(without_char(trimmed(line), '|')) {
            None => None,
            Some(bytes) => if valid_utf8(bytes) {
                Some(decode_utf8(bytes))
            } else {
                None
            },
        },
    }
}

/// Reading back the saved state of a message framed around `json` gives `json`, whatever
/// lines come before it.
pub proof fn lemma_framed_payload(prefix: Seq<char>, json: Seq<char>)
    ensures
        payload_of(framed(prefix, json)) == Some(json),
{
    lemma_magic_line_read(prefix, json);
    lemma_base64_round_trip(encode_utf8(json));
}

/// The magic line that carries `json`.
pub fn frame_payload(json: &str) -> (res: String)
    requires
        encode_utf8(json@).len() <= usize::MAX / 4,
    ensures
        res@ == magic_line(json@),
{
    let bytes = json.as_bytes();
    let encoded = base64_encode(bytes);
    let mut res = String::from_str("||");
    res.append(encoded.as_str());
    res.append("||");
    res
}

/// The saved state that `message` carries; nothing where the message has no line, or
/// its last line is not base64 of UTF-8 text.
pub fn message_payload(message: &str) -> (res: Option<String>)
    ensures
        match payload_of(message@) {
            Some(p) => res is Some && res->0@ == p,
            None => res is None,
        },
        // What a message framed around `json` carries is `json`.
        forall|prefix: Seq<char>, json: Seq<char>|
            message@ == #[trigger] framed(prefix, json) ==> res is Some
                && res->0@ == json,
{
    let chars = chars_of(message);
    let line = match last_line_chars(&chars) {
        Some(l) => l,
        None => return None,
    };
    let trimmed_line = trim_chars(&line);
    let digits = remove_char(&trimmed_line, '|');
    let text = string_from_chars(digits.as_slice());
    let decoded = base64_decode(text.as_str());
    proof {
        assert forall|prefix: Seq<char>, json: Seq<char>|
            message@ == #[trigger] framed(prefix, json) implies decoded is Some
                && decoded->0@ == encode_utf8(json) by {
            lemma_magic_line_read(prefix, json);
            lemma_base64_round_trip(encode_utf8(json));
        }
    }
    let bytes = match decoded {
        Some(b) => b,
        None => return None,
    };
    utf8_text(bytes)
}

proof fn lemma_filter_all(s: Seq<char>, c: char)
    requires
        forall|i: int| 0 <= i < s.len() ==> #[trigger] s[i] != c,
    ensures
        without_char(s, c) == s,
    decreases s.len(),
{
    reveal(Seq::filter);
    if s.len() > 0 {
        lemma_filter_all(s.drop_last(), c);
        assert(s.drop_last().push(s.last()) =~= s);
    }
}

proof fn lemma_filter_none(s: Seq<char>, c: char)
    requires
        forall|i: int| 0 <= i < s.len() ==> #[trigger] s[i] == c,
    ensures
        without_char(s, c) == Seq::<char>::empty(),
    decreases s.len(),
{
    reveal(Seq::filter);
    if s.len() > 0 {
        lemma_filter_none(s.drop_last(), c);
    }
}

/// The magic line of `json`, read back as the last line of a message, trims to
/// itself and loses its `|` to leave the base64 text of `json`.
pub proof fn lemma_magic_line_read(prefix: Seq<char>, json: Seq<char>)
    ensures
        last_line(prefix.push('\n') + magic_line(json)) == Some(magic_line(json)),
        without_char(trimmed(magic_line(json)), '|') == base64_text(encode_utf8(json)),
{
    let bytes = encode_utf8(json);
    let digits = base64_text(bytes);
    let line = magic_line(json);
    let message = prefix.push('\n') + line;
    lemma_base64_chars(bytes);
    reveal_strlit("||");
    assert(line.len() >= 4);
    assert(line[0] == '|');
    assert(line.last() == '|');
    assert forall|j: int| 0 <= j < line.len() implies #[trigger] line[j] != '\n' by {
        if 2 <= j < line.len() - 2 {
            assert(line[j] == digits[j - 2]);
            assert(is_base64_char(digits[j - 2]));
        }
    }
    lemma_last_segment_suffix(prefix, line);
    assert(message.last() == line.last());
    lemma_trimmed_unchanged(line);
    assert forall|i: int| 0 <= i < digits.len() implies #[trigger] digits[i] != '|' by {
        assert(is_base64_char(digits[i]));
    }
    lemma_filter_all(digits, '|');
    lemma_filter_none("||"@, '|');
    Seq::filter_distributes_over_add("||"@ + digits, "||"@, |x: char| x != '|');
    Seq::filter_distributes_over_add("||"@, digits, |x: char| x != '|');
    assert(without_char(line, '|') =~= digits);
}

} // verus!
