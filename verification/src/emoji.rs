//! The reaction emojis that the bot offers and reads back.

use vstd::prelude::*;

verus! {

/// The reaction that locks in an answer (and, in the story game, marks a turn as done).
pub const FINISHED: &'static str = "✅";

/// The reaction with which a poll's host asks for the thread to be archived.
pub const ARCHIVE: &'static str = "🗄️";

/// The reaction with which a player signs up for the story game.
pub const STORY_TELLER: &'static str = "🎙️";

/// The reaction with which the host starts the story game.
pub const START: &'static str = "▶️";

/// One keycap emoji per day of a poll's week.
#[derive(PartialEq, Eq, Structural, Debug, Clone, Copy, Hash)]
pub enum NumberEmojis {
    One,
    Two,
    Three,
    Four,
    Five,
    Six,
    Seven,
}

/// The error returned when a text is none of the seven keycaps.
#[derive(Debug)]
pub struct TryFromError;

/// The position of a day's emoji in the week, from 0 to 6.
pub open spec fn day_index(n: NumberEmojis) -> int {
    match n {
        NumberEmojis::One => 0,
        NumberEmojis::Two => 1,
        NumberEmojis::Three => 2,
        NumberEmojis::Four => 3,
        NumberEmojis::Five => 4,
        NumberEmojis::Six => 5,
        NumberEmojis::Seven => 6,
    }
}

/// The emoji of the day at position `i` of the week.
pub open spec fn day_at(i: int) -> NumberEmojis {
    if i == 0 {
        NumberEmojis::One
    } else if i == 1 {
        NumberEmojis::Two
    } else if i == 2 {
        NumberEmojis::Three
    } else if i == 3 {
        NumberEmojis::Four
    } else if i == 4 {
        NumberEmojis::Five
    } else if i == 5 {
        NumberEmojis::Six
    } else {
        NumberEmojis::Seven
    }
}

/// The keycap text of each day: a digit, U+FE0F and U+20E3.
pub open spec fn keycap(n: NumberEmojis) -> Seq<char> {
    let digit = match n {
        NumberEmojis::One => '1',
        NumberEmojis::Two => '2',
        NumberEmojis::Three => '3',
        NumberEmojis::Four => '4',
        NumberEmojis::Five => '5',
        NumberEmojis::Six => '6',
        NumberEmojis::Seven => '7',
    };
    seq![digit, '\u{FE0F}', '\u{20E3}']
}

/// The days of a poll's week, in order.
pub open spec fn numbers_seq() -> Seq<NumberEmojis> {
    seq![
        NumberEmojis::One,
        NumberEmojis::Two,
        NumberEmojis::Three,
        NumberEmojis::Four,
        NumberEmojis::Five,
        NumberEmojis::Six,
        NumberEmojis::Seven,
    ]
}

/// Each day's position and emoji agree.
pub proof fn lemma_day_index_day_at(n: NumberEmojis)
    ensures
        0 <= day_index(n) < 7,
        day_at(day_index(n)) == n,
        numbers_seq()[day_index(n)] == n,
{
}

/// The days of a poll's week, in order.
pub fn numbers() -> (res: Vec<NumberEmojis>)
    ensures
        res@ == numbers_seq(),
{
    let res = vec![
        NumberEmojis::One,
        NumberEmojis::Two,
        NumberEmojis::Three,
        NumberEmojis::Four,
        NumberEmojis::Five,
        NumberEmojis::Six,
        NumberEmojis::Seven,
    ];
    assert(res@ =~= numbers_seq());
    res
}

impl NumberEmojis {
    /// The keycap emoji of this day.
    pub fn as_str(&self) -> (res: &'static str)
        ensures
            res@ == keycap(*self),
    {
        proof {
            reveal_strlit("1️⃣");
            reveal_strlit("2️⃣");
            reveal_strlit("3️⃣");
            reveal_strlit("4️⃣");
            reveal_strlit("5️⃣");
            reveal_strlit("6️⃣");
            reveal_strlit("7️⃣");
        }
        match self {
            NumberEmojis::One => "1️⃣",
            NumberEmojis::Two => "2️⃣",
            NumberEmojis::Three => "3️⃣",
            NumberEmojis::Four => "4️⃣",
            NumberEmojis::Five => "5️⃣",
            NumberEmojis::Six => "6️⃣",
            NumberEmojis::Seven => "7️⃣",
        }
    }
}

/// Whether two texts are equal.
pub fn str_eq(a: &str, b: &str) -> (res: bool)
    ensures
        res == (a@ == b@),
{
    a.to_owned() == b.to_owned()
}

/// The day whose keycap is `text`, if any.
pub open spec fn day_of_keycap(text: Seq<char>) -> Option<NumberEmojis> {
    if text == keycap(NumberEmojis::One) {
        Some(NumberEmojis::One)
    } else if text == keycap(NumberEmojis::Two) {
        Some(NumberEmojis::Two)
    } else if text == keycap(NumberEmojis::Three) {
        Some(NumberEmojis::Three)
    } else if text == keycap(NumberEmojis::Four) {
        Some(NumberEmojis::Four)
    } else if text == keycap(NumberEmojis::Five) {
        Some(NumberEmojis::Five)
    } else if text == keycap(NumberEmojis::Six) {
        Some(NumberEmojis::Six)
    } else if text == keycap(NumberEmojis::Seven) {
        Some(NumberEmojis::Seven)
    } else {
        None
    }
}

/// What reading `text` as a day's keycap gives.
pub open spec fn keycap_result(text: Seq<char>) -> Result<NumberEmojis, TryFromError> {
    match day_of_keycap(text) {
        Some(n) => Ok(n),
        None => Err(TryFromError),
    }
}

impl<'a> vstd::std_specs::convert::TryFromSpecImpl<&'a str> for NumberEmojis {
    open spec fn obeys_try_from_spec() -> bool {
        true
    }

    open spec fn try_from_spec(v: &'a str) -> Result<NumberEmojis, TryFromError> {
        keycap_result(v@)
    }
}

impl<'a> TryFrom<&'a str> for NumberEmojis {
    type Error = TryFromError;

    /// The day whose keycap is `value`; an error for any other text.
    fn try_from(value: &'a str) -> (res: Result<NumberEmojis, TryFromError>)
        ensures
            res == keycap_result(value@),
    {
        let days = numbers();
        let mut i: usize = 0;
        while i < days.len()
            invariant
                days@ == numbers_seq(),
                0 <= i <= 7,
                forall|j: int| 0 <= j < i ==> keycap(#[trigger] numbers_seq()[j]) != value@,
            decreases 7 - i,
        {
            let n = days[i];
            if str_eq(value, n.as_str()) {
                proof {
                    assert(keycap(NumberEmojis::One) != keycap(NumberEmojis::Two));
                }
                return Ok(n);
            }
            i = i + 1;
        }
        proof {
            assert(keycap(numbers_seq()[0]) != value@);
            assert(keycap(numbers_seq()[1]) != value@);
            assert(keycap(numbers_seq()[2]) != value@);
            assert(keycap(numbers_seq()[3]) != value@);
            assert(keycap(numbers_seq()[4]) != value@);
            assert(keycap(numbers_seq()[5]) != value@);
            assert(keycap(numbers_seq()[6]) != value@);
        }
        Err(TryFromError)
    }
}

/// Reading a day's keycap back gives that day.
pub proof fn lemma_keycap_round_trip(n: NumberEmojis)
    ensures
        day_of_keycap(keycap(n)) == Some(n),
{
    assert(keycap(NumberEmojis::One)[0] == '1');
    assert(keycap(NumberEmojis::Two)[0] == '2');
    assert(keycap(NumberEmojis::Three)[0] == '3');
    assert(keycap(NumberEmojis::Four)[0] == '4');
    assert(keycap(NumberEmojis::Five)[0] == '5');
    assert(keycap(NumberEmojis::Six)[0] == '6');
    assert(keycap(NumberEmojis::Seven)[0] == '7');
}

} // verus!
