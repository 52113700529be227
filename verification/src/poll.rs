//! Scheduling polls: a week of candidate days, the users who must attend, and which
//! days the answers rule out.

use vstd::prelude::*;
use crate::date::{Date, MAX_DAY, MIN_DAY, chrono_parsed_day, INPUT_DATE_FORMAT};
use crate::emoji::keycap_result;
use crate::emoji::{day_index, lemma_day_index_day_at, numbers, numbers_seq, NumberEmojis};

verus! {

broadcast use vstd::seq_lib::group_seq_properties;

/// A scheduling poll, as the thread message saves it.
#[derive(Debug, Clone)]
pub struct Poll {
    pub event_name: String,
    pub host: u64,
    pub end_date: Date,
    pub start_date: Date,
    /// The users who must be able to attend, each once.
    pub required_users: Vec<u64>,
    pub allowed_truants: usize,
    /// The days that the answers rule out, each once.
    pub eliminated_days: Vec<NumberEmojis>,
}

/// The error returned when a message does not hold a poll.
#[derive(Debug)]
pub struct FromStringError;

/// The error of updating a poll's days.
pub struct UpdateDaysError;

/// The error of updating a poll's message.
pub struct UpdateError;

/// For each day of the week, the users who reacted with that day's emoji.
#[derive(Debug)]
pub struct DayReactions {
    by_day: Vec<Vec<u64>>,
}

impl DayReactions {
    #[verifier::type_invariant]
    spec fn seven_days(self) -> bool {
        self.by_day@.len() == 7
    }

    /// The users who reacted with `n`.
    pub closed spec fn voters(self, n: NumberEmojis) -> Seq<u64> {
        self.by_day@[day_index(n)]@
    }

    /// No reactions on any day.
    pub fn new() -> (res: DayReactions)
        ensures
            forall|n: NumberEmojis| res.voters(n) == Seq::<u64>::empty(),
    {
        let mut by_day: Vec<Vec<u64>> = Vec::new();
        let mut i: usize = 0;
        while i < 7
            invariant
                i <= 7,
                by_day@.len() == i,
                forall|j: int| 0 <= j < i ==> (#[trigger] by_day@[j])@ == Seq::<u64>::empty(),
            decreases 7 - i,
        {
            by_day.push(Vec::new());
            i = i + 1;
        }
        proof {
            assert forall|n: NumberEmojis| by_day@[day_index(n)]@ == Seq::<u64>::empty() by {
                lemma_day_index_day_at(n);
            }
        }
        DayReactions { by_day }
    }

    /// Records `users` as the reactions of day `n`, in place of any earlier ones.
    pub fn insert(&mut self, n: NumberEmojis, users: Vec<u64>)
        ensures
            final(self).voters(n) == users@,
            forall|m: NumberEmojis| m != n ==> final(self).voters(m) == old(self).voters(m),
    {
        proof {
            use_type_invariant(&*self);
            lemma_day_index_day_at(n);
        }
        let i = day_position(n);
        let mut by_day: Vec<Vec<u64>> = vec![
            Vec::new(),
            Vec::new(),
            Vec::new(),
            Vec::new(),
            Vec::new(),
            Vec::new(),
            Vec::new(),
        ];
        std::mem::swap(&mut by_day, &mut self.by_day);
        by_day.set(i, users);
        self.by_day = by_day;
        proof {
            assert forall|m: NumberEmojis| m != n implies self.voters(m) == old(self).voters(m) by {
                lemma_day_index_day_at(m);
                lemma_day_index_day_at(n);
            }
        }
    }

    /// The users who reacted with `n`.
    pub fn get(&self, n: NumberEmojis) -> (res: &Vec<u64>)
        ensures
            res@ == self.voters(n),
    {
        proof {
            use_type_invariant(self);
            lemma_day_index_day_at(n);
        }
        &self.by_day[day_position(n)]
    }
}

/// The position of a day in the week.
pub fn day_position(n: NumberEmojis) -> (res: usize)
    ensures
        res == day_index(n),
        res < 7,
{
    match n {
        NumberEmojis::One => 0,
        NumberEmojis::Two => 1,
        NumberEmojis::Three => 2,
        NumberEmojis::Four => 3,
        NumberEmojis::Five => 4,
        NumberEmojis::Six => 5,
        NumberEmojis::Seven => 6,
    }
}

/// Whether `x` occurs in `v`.
pub fn contains_user(v: &Vec<u64>, x: u64) -> (res: bool)
    ensures
        res == v@.contains(x),
{
    let mut i: usize = 0;
    while i < v.len()
        invariant
            i <= v@.len(),
            forall|j: int| 0 <= j < i ==> v@[j] != x,
        decreases v@.len() - i,
    {
        if v[i] == x {
            return true;
        }
        i = i + 1;
    }
    false
}

/// Whether day `n` occurs in `v`.
pub fn contains_day(v: &Vec<NumberEmojis>, n: NumberEmojis) -> (res: bool)
    ensures
        res == v@.contains(n),
{
    let mut i: usize = 0;
    while i < v.len()
        invariant
            i <= v@.len(),
            forall|j: int| 0 <= j < i ==> v@[j] != n,
        decreases v@.len() - i,
    {
        if v[i] == n {
            return true;
        }
        i = i + 1;
    }
    false
}

/// The days of the week do not repeat.
pub proof fn lemma_numbers_no_duplicates()
    ensures
        numbers_seq().no_duplicates(),
{
    assert forall|i: int, j: int| 0 <= i < 7 && 0 <= j < 7 && i != j implies numbers_seq()[i]
        != numbers_seq()[j] by {
        assert(day_index(numbers_seq()[i]) == i);
        assert(day_index(numbers_seq()[j]) == j);
    }
}

/// The test "is not `host`".
pub open spec fn other_than(host: u64) -> spec_fn(u64) -> bool {
    |u: u64| u != host
}

/// The test "occurs in `set`".
pub open spec fn member_of(set: Seq<u64>) -> spec_fn(u64) -> bool {
    |u: u64| set.contains(u)
}

/// The test "the answers rule this day out of `poll`".
pub open spec fn ruled_out_by(poll: Poll, complete: Seq<u64>, reactions: DayReactions) -> spec_fn(
    NumberEmojis,
) -> bool {
    |n: NumberEmojis| poll.rules_out(complete, reactions, n)
}

/// The users whose availability counts: the host first, then the other required users.
pub open spec fn attendees(host: u64, required: Seq<u64>) -> Seq<u64> {
    seq![host] + required.filter(other_than(host))
}

/// How many of the attendees have locked in their answers.
pub open spec fn completed_count(attendees: Seq<u64>, complete: Seq<u64>) -> nat {
    attendees.filter(member_of(complete)).len()
}

/// How many of a day's reactions come from attendees.
pub open spec fn attendee_votes(attendees: Seq<u64>, voters: Seq<u64>) -> nat {
    voters.filter(member_of(attendees)).len()
}

/// Whether the answers rule out a day: fewer attendees chose it than have answered,
/// less the allowed truants, or the host has answered without choosing it.
pub open spec fn day_ruled_out(
    host: u64,
    required: Seq<u64>,
    allowed_truants: nat,
    complete: Seq<u64>,
    voters: Seq<u64>,
) -> bool {
    let att = attendees(host, required);
    let needed = if completed_count(att, complete) >= allowed_truants {
        completed_count(att, complete) - allowed_truants
    } else {
        0
    };
    ||| attendee_votes(att, voters) < needed
    ||| (complete.contains(host) && !voters.contains(host))
}

impl Poll {
    /// The poll's own invariant: no user is required twice and no day is ruled out twice.
    pub open spec fn well_formed(self) -> bool {
        &&& self.required_users@.no_duplicates()
        &&& self.eliminated_days@.no_duplicates()
    }

    /// Whether the answers rule out day `n` of this poll.
    pub open spec fn rules_out(self, complete: Seq<u64>, reactions: DayReactions, n: NumberEmojis) -> bool {
        day_ruled_out(
            self.host,
            self.required_users@,
            self.allowed_truants as nat,
            complete,
            reactions.voters(n),
        )
    }

    /// Whether no user is required twice.
    pub fn required_users_unique(&self) -> (res: bool)
        ensures
            res == self.required_users@.no_duplicates(),
    {
        let users = &self.required_users;
        let n = users.len();
        let mut i: usize = 0;
        while i < n
            invariant
                i <= n,
                n == users@.len(),
                users@ == self.required_users@,
                forall|a: int, b: int| 0 <= a < i && a < b < n ==> users@[a] != users@[b],
            decreases n - i,
        {
            let mut j: usize = i + 1;
            while j < n
                invariant
                    i < n,
                    i < j <= n,
                    n == users@.len(),
                    users@ == self.required_users@,
                    forall|b: int| i < b < j ==> users@[i as int] != users@[b],
                decreases n - j,
            {
                if users[i] == users[j] {
                    assert(!users@.no_duplicates()) by {
                        assert(users@[i as int] == users@[j as int]);
                    }
                    return false;
                }
                j = j + 1;
            }
            i = i + 1;
        }
        true
    }

    /// The attendees of this poll.
    pub fn attendee_list(&self) -> (res: Vec<u64>)
        ensures
            res@ == attendees(self.host, self.required_users@),
    {
        let mut res: Vec<u64> = Vec::new();
        res.push(self.host);
        let mut i: usize = 0;
        while i < self.required_users.len()
            invariant
                i <= self.required_users@.len(),
                res@ == seq![self.host] + self.required_users@.take(i as int).filter(
                    other_than(self.host),
                ),
            decreases self.required_users@.len() - i,
        {
            proof {
                reveal(Seq::filter);
                assert(self.required_users@.take(i + 1).drop_last() =~= self.required_users@.take(
                    i as int,
                ));
            }
            let u = self.required_users[i];
            if u != self.host {
                res.push(u);
            }
            i = i + 1;
        }
        assert(self.required_users@.take(self.required_users@.len() as int)
            =~= self.required_users@);
        res
    }

    /// Rules out the days that the answers rule out: with no answers yet, none; else each
    /// day on which fewer attendees voted than have answered less the allowed truants,
    /// or which the host has answered without choosing. The ruled-out days come in week
    /// order.
    pub fn update_days_with_users(
        &mut self,
        complete_users: &Vec<u64>,
        user_reactions: DayReactions,
    ) -> (res: Result<(), UpdateDaysError>)
        requires
            old(self).required_users@.no_duplicates(),
        ensures
            res is Ok,
            complete_users@.len() == 0 ==> final(self).eliminated_days@ == Seq::<NumberEmojis>::empty(),
            complete_users@.len() > 0 ==> final(self).eliminated_days@ == numbers_seq().filter(
                ruled_out_by(*old(self), complete_users@, user_reactions),
            ),
            final(self).event_name == old(self).event_name,
            final(self).host == old(self).host,
            final(self).end_date == old(self).end_date,
            final(self).start_date == old(self).start_date,
            final(self).required_users == old(self).required_users,
            final(self).allowed_truants == old(self).allowed_truants,
            final(self).well_formed(),
    {
        if complete_users.len() == 0 {
            self.eliminated_days.clear();
            return Ok(());
        }
        let att = self.attendee_list();
        let completed = count_members(&att, complete_users);
        let needed = completed.saturating_sub(self.allowed_truants);
        let host_complete = contains_user(complete_users, self.host);
        let days = numbers();
        let mut eliminated: Vec<NumberEmojis> = Vec::new();
        let mut i: usize = 0;
        while i < 7
            invariant
                i <= 7,
                days@ == numbers_seq(),
                att@ == attendees(self.host, self.required_users@),
                completed == completed_count(att@, complete_users@),
                needed == (if completed >= self.allowed_truants {
                    completed - self.allowed_truants
                } else {
                    0
                }),
                host_complete == complete_users@.contains(self.host),
                eliminated@ == numbers_seq().take(i as int).filter(
                    ruled_out_by(*self, complete_users@, user_reactions),
                ),
            decreases 7 - i,
        {
            let n = days[i];
            proof {
                reveal(Seq::filter);
                assert(numbers_seq().take(i + 1).drop_last() =~= numbers_seq().take(i as int));
            }
            let voters = user_reactions.get(n);
            let votes = count_members(voters, &att);
            if votes < needed || (host_complete && !contains_user(voters, self.host)) {
                eliminated.push(n);
            }
            i = i + 1;
        }
        assert(numbers_seq().take(7) =~= numbers_seq());
        proof {
            lemma_numbers_no_duplicates();
            lemma_filter_no_duplicates(numbers_seq(), ruled_out_by(*self, complete_users@, user_reactions));
        }
        self.eliminated_days = eliminated;
        Ok(())
    }
}

/// Keeping only some entries of a sequence keeps it free of repeats.
pub proof fn lemma_filter_no_duplicates<A>(s: Seq<A>, p: spec_fn(A) -> bool)
    requires
        s.no_duplicates(),
    ensures
        s.filter(p).no_duplicates(),
    decreases s.len(),
{
    reveal(Seq::filter);
    if s.len() > 0 {
        let rest = s.drop_last();
        assert(rest.no_duplicates());
        lemma_filter_no_duplicates(rest, p);
        if p(s.last()) {
            if rest.filter(p).contains(s.last()) {
                rest.lemma_filter_contains_rev(p, s.last());
            }
        }
    }
}

/// The attendees of a poll whose required users do not repeat do not repeat.
pub proof fn lemma_attendees_no_duplicates(host: u64, required: Seq<u64>)
    requires
        required.no_duplicates(),
    ensures
        attendees(host, required).no_duplicates(),
        attendees(host, required).contains(host),
{
    let rest = required.filter(other_than(host));
    lemma_filter_no_duplicates(required, other_than(host));
    let att = attendees(host, required);
    assert(att[0] == host);
    assert forall|i: int, j: int| 0 <= i < att.len() && 0 <= j < att.len() && i != j implies att[i]
        != att[j] by {
        if i > 0 && j > 0 {
            assert(att[i] == rest[i - 1]);
            assert(att[j] == rest[j - 1]);
        } else if i == 0 {
            assert(att[j] == rest[j - 1]);
            required.lemma_filter_pred(other_than(host), j - 1);
        } else {
            assert(att[i] == rest[i - 1]);
            required.lemma_filter_pred(other_than(host), i - 1);
        }
    }
}

/// Allowing more truants never rules out a day that fewer truants would keep open.
pub proof fn lemma_more_truants_rule_out_fewer_days(
    host: u64,
    required: Seq<u64>,
    fewer: nat,
    more: nat,
    complete: Seq<u64>,
    voters: Seq<u64>,
)
    requires
        fewer <= more,
    ensures
        day_ruled_out(host, required, more, complete, voters) ==> day_ruled_out(
            host,
            required,
            fewer,
            complete,
            voters,
        ),
{
}

/// A day that every attendee who has answered chose is never ruled out, whatever the
/// allowed truancy.
pub proof fn lemma_day_chosen_by_all_kept(
    host: u64,
    required: Seq<u64>,
    allowed_truants: nat,
    complete: Seq<u64>,
    voters: Seq<u64>,
)
    requires
        required.no_duplicates(),
        forall|u: u64|
            attendees(host, required).contains(u) && complete.contains(u) ==> voters.contains(u),
    ensures
        !day_ruled_out(host, required, allowed_truants, complete, voters),
{
    broadcast use vstd::set::group_set_axioms;
    broadcast use vstd::seq_lib::seq_to_set_is_finite;

    let att = attendees(host, required);
    lemma_attendees_no_duplicates(host, required);
    let answered = att.filter(member_of(complete));
    let votes = voters.filter(member_of(att));
    lemma_filter_no_duplicates(att, member_of(complete));
    assert forall|x: u64| answered.to_set().contains(x) implies votes.to_set().contains(x) by {
        att.lemma_filter_contains_rev(member_of(complete), x);
        assert(voters.contains(x));
        let i = choose|i: int| 0 <= i < voters.len() && voters[i] == x;
        voters.lemma_filter_contains(member_of(att), i);
    }
    answered.unique_seq_to_set();
    vstd::set_lib::lemma_len_subset(answered.to_set(), votes.to_set());
    votes.lemma_cardinality_of_set();
    if complete.contains(host) {
        assert(att.contains(host));
    }
}

/// A vote from a user who is neither the host nor a required user never changes whether a
/// day is ruled out.
pub proof fn lemma_outside_votes_ignored(
    host: u64,
    required: Seq<u64>,
    allowed_truants: nat,
    complete: Seq<u64>,
    voters: Seq<u64>,
    outsider: u64,
)
    requires
        outsider != host,
        !required.contains(outsider),
    ensures
        day_ruled_out(host, required, allowed_truants, complete, voters.push(outsider))
            == day_ruled_out(host, required, allowed_truants, complete, voters),
{
    let att = attendees(host, required);
    assert(!att.contains(outsider)) by {
        if att.contains(outsider) {
            let i = choose|i: int| 0 <= i < att.len() && att[i] == outsider;
            if i > 0 {
                assert(att[i] == required.filter(other_than(host))[i - 1]);
                required.lemma_filter_contains_rev(other_than(host), outsider);
            }
        }
    }
    reveal(Seq::filter);
    assert(voters.push(outsider).drop_last() =~= voters);
    assert(voters.push(outsider).filter(member_of(att)) == voters.filter(member_of(att)));
    assert(voters.push(outsider).contains(host) == voters.contains(host)) by {
        if voters.push(outsider).contains(host) {
            let i = choose|i: int| 0 <= i < voters.len() + 1 && voters.push(outsider)[i] == host;
            assert(i < voters.len());
            assert(voters[i] == host);
        }
    }
}

/// For a day's voters who each answered once, the day is ruled out exactly when more of the
/// attendees who answered did not choose it than truants are allowed, or when the host
/// answered without choosing it.
pub proof fn lemma_ruled_out_by_missing_attendees(
    host: u64,
    required: Seq<u64>,
    allowed_truants: nat,
    complete: Seq<u64>,
    voters: Seq<u64>,
)
    requires
        required.no_duplicates(),
        voters.no_duplicates(),
        forall|v: u64| voters.contains(v) ==> complete.contains(v),
    ensures
        day_ruled_out(host, required, allowed_truants, complete, voters) <==> (attendees(
            host,
            required,
        ).filter(|u: u64| complete.contains(u) && !voters.contains(u)).len() > allowed_truants
            || (complete.contains(host) && !voters.contains(host))),
{
    broadcast use vstd::set::group_set_axioms;
    broadcast use vstd::seq_lib::seq_to_set_is_finite;

    let att = attendees(host, required);
    let missing = |u: u64| complete.contains(u) && !voters.contains(u);
    lemma_attendees_no_duplicates(host, required);
    let answered = att.filter(member_of(complete));
    let votes = voters.filter(member_of(att));
    let absent = att.filter(missing);
    lemma_filter_no_duplicates(att, member_of(complete));
    lemma_filter_no_duplicates(voters, member_of(att));
    lemma_filter_no_duplicates(att, missing);
    answered.unique_seq_to_set();
    votes.unique_seq_to_set();
    absent.unique_seq_to_set();
    assert forall|x: u64| answered.to_set().contains(x) <==> votes.to_set().contains(x)
        || absent.to_set().contains(x) by {
        if answered.contains(x) {
            att.lemma_filter_contains_rev(member_of(complete), x);
            let i = choose|i: int| 0 <= i < att.len() && att[i] == x;
            if voters.contains(x) {
                let j = choose|j: int| 0 <= j < voters.len() && voters[j] == x;
                voters.lemma_filter_contains(member_of(att), j);
            } else {
                att.lemma_filter_contains(missing, i);
            }
        }
        if votes.contains(x) {
            voters.lemma_filter_contains_rev(member_of(att), x);
            let i = choose|i: int| 0 <= i < att.len() && att[i] == x;
            att.lemma_filter_contains(member_of(complete), i);
        }
        if absent.contains(x) {
            att.lemma_filter_contains_rev(missing, x);
            let i = choose|i: int| 0 <= i < att.len() && att[i] == x;
            att.lemma_filter_contains(member_of(complete), i);
        }
    }
    assert(answered.to_set() =~= votes.to_set() + absent.to_set());
    assert(votes.to_set().disjoint(absent.to_set())) by {
        assert forall|x: u64| votes.to_set().contains(x) implies !absent.to_set().contains(x) by {
            voters.lemma_filter_contains_rev(member_of(att), x);
            if absent.contains(x) {
                att.lemma_filter_contains_rev(missing, x);
            }
        }
    }
    vstd::set_lib::lemma_set_disjoint_lens(votes.to_set(), absent.to_set());
    assert(completed_count(att, complete) == answered.len());
    assert(attendee_votes(att, voters) == votes.len());
    assert(answered.len() == votes.len() + absent.len());
}

/// The users that a list of reactors names, less the bot, each once.
pub fn finished_user_ids(reactors: &Vec<u64>, bot_id: u64) -> (res: Vec<u64>)
    ensures
        res@.no_duplicates(),
        forall|u: u64| res@.contains(u) <==> reactors@.contains(u) && u != bot_id,
{
    let mut res: Vec<u64> = Vec::new();
    let mut i: usize = 0;
    while i < reactors.len()
        invariant
            i <= reactors@.len(),
            res@.no_duplicates(),
            forall|u: u64| res@.contains(u) <==> reactors@.take(i as int).contains(u) && u != bot_id,
        decreases reactors@.len() - i,
    {
        let u = reactors[i];
        assert(reactors@.take(i + 1) =~= reactors@.take(i as int).push(u));
        if u != bot_id && !contains_user(&res, u) {
            res.push(u);
        }
        i = i + 1;
    }
    assert(reactors@.take(reactors@.len() as int) =~= reactors@);
    res
}

/// The reactions of each day, read from the (emoji, reactors) pairs that the thread
/// gives, keeping only the users who locked in their answers. Later pairs for the same
/// day replace earlier ones. Nothing if an emoji is not a day's keycap.
pub open spec fn reactions_from(
    lists: Seq<(Seq<char>, Seq<u64>)>,
    complete: Seq<u64>,
    n: NumberEmojis,
) -> Option<Seq<u64>>
    decreases lists.len(),
{
    if lists.len() == 0 {
        Some(seq![])
    } else {
        let (emoji, users) = lists.last();
        match (reactions_from(lists.drop_last(), complete, n), keycap_result(emoji)) {
            (Some(before), Ok(m)) => if m == n {
                Some(users.filter(member_of(complete)))
            } else {
                Some(before)
            },
            _ => None,
        }
    }
}

/// Whether every emoji of the pairs is a day's keycap.
pub open spec fn all_keycaps(lists: Seq<(Seq<char>, Seq<u64>)>) -> bool {
    forall|i: int| 0 <= i < lists.len() ==> (#[trigger] keycap_result(lists[i].0)) is Ok
}

/// The view of an (emoji, reactors) pair.
pub open spec fn pair_view(p: (String, Vec<u64>)) -> (Seq<char>, Seq<u64>) {
    (p.0@, p.1@)
}

proof fn lemma_reactions_from_some(lists: Seq<(Seq<char>, Seq<u64>)>, complete: Seq<u64>, n: NumberEmojis)
    ensures
        reactions_from(lists, complete, n) is Some <==> all_keycaps(lists),
    decreases lists.len(),
{
    if lists.len() > 0 {
        lemma_reactions_from_some(lists.drop_last(), complete, n);
        assert forall|i: int| 0 <= i < lists.len() - 1 implies lists.drop_last()[i] == lists[i] by {}
        if all_keycaps(lists) {
            assert(keycap_result(lists[lists.len() - 1].0) is Ok);
            assert forall|i: int| 0 <= i < lists.drop_last().len() implies (#[trigger] keycap_result(
                lists.drop_last()[i].0,
            )) is Ok by {
                assert(keycap_result(lists[i].0) is Ok);
            }
        } else {
            let i = choose|i: int| 0 <= i < lists.len() && !(keycap_result(lists[i].0) is Ok);
            if i < lists.len() - 1 {
                assert(!(keycap_result(lists.drop_last()[i].0) is Ok));
            }
        }
    }
}

impl DayReactions {
    /// The reactions of each day, from the (emoji, reactors) pairs of a thread, keeping
    /// only the users in `complete_users`; nothing if an emoji is not a day's keycap.
    pub fn from_reaction_lists(lists: &Vec<(String, Vec<u64>)>, complete_users: &Vec<u64>) -> (res:
        Option<DayReactions>)
        ensures
            all_keycaps(lists@.map_values(|p: (String, Vec<u64>)| pair_view(p))) <==> res is Some,
            res matches Some(r) ==> forall|n: NumberEmojis|
                reactions_from(lists@.map_values(|p: (String, Vec<u64>)| pair_view(p)), complete_users@, n)
                    == Some(#[trigger] r.voters(n)),
    {
        let ghost view = lists@.map_values(|p: (String, Vec<u64>)| pair_view(p));
        let mut res = DayReactions::new();
        let mut i: usize = 0;
        while i < lists.len()
            invariant
                i <= lists@.len(),
                view == lists@.map_values(|p: (String, Vec<u64>)| pair_view(p)),
                forall|n: NumberEmojis|
                    reactions_from(view.take(i as int), complete_users@, n) == Some(
                        #[trigger] res.voters(n),
                    ),
            decreases lists@.len() - i,
        {
            assert(view.take(i + 1).drop_last() =~= view.take(i as int));
            assert(view.take(i + 1).last() == view[i as int]);
            assert(view[i as int] == pair_view(lists@[i as int]));
            let n = match NumberEmojis::try_from(lists[i].0.as_str()) {
                Ok(n) => n,
                Err(_) => {
                    proof {
                        lemma_reactions_from_some(view, complete_users@, NumberEmojis::One);
                        assert(!(keycap_result(view[i as int].0) is Ok));
                    }
                    return None;
                },
            };
            let kept = keep_members(&lists[i].1, complete_users);
            let ghost before = res;
            res.insert(n, kept);
            proof {
                assert forall|m: NumberEmojis|
                    reactions_from(view.take(i + 1), complete_users@, m) == Some(
                        #[trigger] res.voters(m),
                    ) by {
                    assert(reactions_from(view.take(i as int), complete_users@, m) == Some(
                        before.voters(m),
                    ));
                }
            }
            i = i + 1;
        }
        assert(view.take(lists@.len() as int) =~= view);
        proof {
            lemma_reactions_from_some(view, complete_users@, NumberEmojis::One);
            assert(reactions_from(view, complete_users@, NumberEmojis::One) == Some(
                res.voters(NumberEmojis::One),
            ));
        }
        Some(res)
    }
}

/// The entries of `v` that occur in `set`, in order.
pub fn keep_members(v: &Vec<u64>, set: &Vec<u64>) -> (res: Vec<u64>)
    ensures
        res@ == v@.filter(member_of(set@)),
{
    let mut res: Vec<u64> = Vec::new();
    let mut i: usize = 0;
    while i < v.len()
        invariant
            i <= v@.len(),
            res@ == v@.take(i as int).filter(member_of(set@)),
        decreases v@.len() - i,
    {
        proof {
            reveal(Seq::filter);
            assert(v@.take(i + 1).drop_last() =~= v@.take(i as int));
        }
        if contains_user(set, v[i]) {
            res.push(v[i]);
        }
        i = i + 1;
    }
    assert(v@.take(v@.len() as int) =~= v@);
    res
}

impl Poll {
    /// A new poll of an event from `start_date`, closing the day before; nothing where that
    /// day is before chrono's range.
    pub fn new(event_name: String, host: u64, start_date: Date) -> (res: Option<Poll>)
        ensures
            start_date.day() > MIN_DAY ==> res is Some,
            start_date.day() == MIN_DAY ==> res is None,
            res matches Some(p) ==> {
                &&& p.event_name == event_name
                &&& p.host == host
                &&& p.start_date == start_date
                &&& p.end_date.day() == start_date.day() - 1
                &&& p.required_users@ == Seq::<u64>::empty()
                &&& p.allowed_truants == 0
                &&& p.eliminated_days@ == Seq::<NumberEmojis>::empty()
                &&& p.well_formed()
            },
    {
        let _ = start_date.day_number();
        let end_date = match start_date.checked_sub_days(1) {
            Some(d) => d,
            None => return None,
        };
        Some(
            Poll {
                event_name,
                host,
                end_date,
                start_date,
                required_users: Vec::new(),
                allowed_truants: 0,
                eliminated_days: Vec::new(),
            },
        )
    }

    /// A new poll of an event from `start_date` that stays open for `open_days` days (one
    /// when not given); nothing where the closing day is past chrono's range.
    pub fn with_open_days(event_name: String, host: u64, start_date: Date, open_days: Option<u64>) -> (res:
        Option<Poll>)
        ensures
            ({
                let n = match open_days {
                    Some(d) => d as int,
                    None => 1,
                };
                match crate::date::day_plus(start_date.day(), n) {
                    Some(end) => res matches Some(p) && p.end_date.day() == end && p.event_name
                        == event_name && p.host == host && p.start_date == start_date
                        && p.required_users@ == Seq::<u64>::empty() && p.allowed_truants == 0
                        && p.eliminated_days@ == Seq::<NumberEmojis>::empty(),
                    None => res is None,
                }
            }),
    {
        let n: u64 = match open_days {
            Some(d) => d,
            None => 1,
        };
        let end_date = match start_date.checked_add_days(n) {
            Some(d) => d,
            None => return None,
        };
        Some(
            Poll {
                event_name,
                host,
                end_date,
                start_date,
                required_users: Vec::new(),
                allowed_truants: 0,
                eliminated_days: Vec::new(),
            },
        )
    }

    /// Whether every day of the poll has been ruled out.
    pub fn all_days_eliminated(&self) -> (res: bool)
        ensures
            res == (self.eliminated_days@.len() == 7),
    {
        self.eliminated_days.len() == 7
    }

    /// The poll for the following week: the same event, host, required users and truancy,
    /// starting seven days later, closing the day before it starts, with no day ruled out.
    pub fn next_poll(&self) -> (res: Poll)
        requires
            self.start_date.day() + 7 <= MAX_DAY,
        ensures
            res.event_name == self.event_name,
            res.host == self.host,
            res.required_users@ == self.required_users@,
            res.allowed_truants == self.allowed_truants,
            res.start_date.day() == self.start_date.day() + 7,
            res.end_date.day() == self.start_date.day() + 6,
            res.eliminated_days@ == Seq::<NumberEmojis>::empty(),
    {
        let _ = self.start_date.day_number();
        let start_date = self.start_date.checked_add_days(7).unwrap();
        let _ = start_date.day_number();
        let end_date = start_date.checked_sub_days(1).unwrap();
        let mut required_users: Vec<u64> = Vec::new();
        let mut i: usize = 0;
        while i < self.required_users.len()
            invariant
                i <= self.required_users@.len(),
                required_users@ == self.required_users@.take(i as int),
            decreases self.required_users@.len() - i,
        {
            required_users.push(self.required_users[i]);
            i = i + 1;
            assert(required_users@ =~= self.required_users@.take(i as int));
        }
        assert(self.required_users@.take(self.required_users@.len() as int) =~= self.required_users@);
        Poll {
            event_name: self.event_name.clone(),
            host: self.host,
            end_date,
            start_date,
            required_users,
            allowed_truants: self.allowed_truants,
            eliminated_days: Vec::new(),
        }
    }

    /// Adds each of `ids` to the required users, keeping them free of repeats.
    pub fn add_required_users(&mut self, ids: &Vec<u64>)
        ensures
            final(self).required_users@.to_set() == old(self).required_users@.to_set() + ids@.to_set(),
            old(self).required_users@.no_duplicates() ==> final(self).required_users@.no_duplicates(),
            final(self).required_users@.take(old(self).required_users@.len() as int) == old(self).required_users@,
            final(self).event_name == old(self).event_name,
            final(self).host == old(self).host,
            final(self).end_date == old(self).end_date,
            final(self).start_date == old(self).start_date,
            final(self).allowed_truants == old(self).allowed_truants,
            final(self).eliminated_days == old(self).eliminated_days,
    {
        let ghost start = self.required_users@;
        let mut i: usize = 0;
        while i < ids.len()
            invariant
                i <= ids@.len(),
                self.required_users@.to_set() == start.to_set() + ids@.take(i as int).to_set(),
                start.no_duplicates() ==> self.required_users@.no_duplicates(),
                self.required_users@.take(start.len() as int) == start,
                self.required_users@.len() >= start.len(),
                self.event_name == old(self).event_name,
                self.host == old(self).host,
                self.end_date == old(self).end_date,
                self.start_date == old(self).start_date,
                self.allowed_truants == old(self).allowed_truants,
                self.eliminated_days == old(self).eliminated_days,
            decreases ids@.len() - i,
        {
            let u = ids[i];
            assert(ids@.take(i + 1) =~= ids@.take(i as int).push(u));
            let ghost before = self.required_users@;
            if !contains_user(&self.required_users, u) {
                self.required_users.push(u);
                assert(self.required_users@.take(start.len() as int) =~= before.take(start.len() as int));
            }
            proof {
                assert(self.required_users@.to_set() =~= start.to_set() + ids@.take(i + 1).to_set())
                    by {
                    assert(ids@.take(i + 1).to_set() =~= ids@.take(i as int).to_set().insert(u));
                    assert(self.required_users@.to_set() =~= before.to_set().insert(u));
                }
            }
            i = i + 1;
        }
        assert(ids@.take(ids@.len() as int) =~= ids@);
    }
}

/// The day the user typed as `mm/dd/yy` if chrono reads one, else `fallback`.
pub fn typed_day_or(input: Option<&str>, fallback: Date) -> (res: Date)
    ensures
        match input {
            Some(text) => match chrono_parsed_day(text@, INPUT_DATE_FORMAT@) {
                Some(n) => res.day() == n,
                None => res == fallback,
            },
            None => res == fallback,
        },
{
    match input {
        Some(text) => match Date::parse_input(text) {
            Some(d) => d,
            None => fallback,
        },
        None => fallback,
    }
}

/// The first day of a new poll: the day the user typed as `mm/dd/yy` if chrono reads
/// one, else the day after `today`.
pub fn first_poll_day(input: Option<&str>, today: Date) -> (res: Date)
    requires
        today.day() < MAX_DAY,
    ensures
        match input {
            Some(text) => match chrono_parsed_day(text@, INPUT_DATE_FORMAT@) {
                Some(n) => res.day() == n,
                None => res.day() == today.day() + 1,
            },
            None => res.day() == today.day() + 1,
        },
{
    let _ = today.day_number();
    let tomorrow = match today.checked_add_days(1) {
        Some(d) => d,
        None => {
            assert(false);
            today
        },
    };
    typed_day_or(input, tomorrow)
}

/// How many entries of `v` occur in `set`.
pub fn count_members(v: &Vec<u64>, set: &Vec<u64>) -> (res: usize)
    ensures
        res == v@.filter(member_of(set@)).len(),
{
    let mut count: usize = 0;
    let mut i: usize = 0;
    while i < v.len()
        invariant
            i <= v@.len(),
            count == v@.take(i as int).filter(member_of(set@)).len(),
            count <= i,
        decreases v@.len() - i,
    {
        proof {
            reveal(Seq::filter);
            assert(v@.take(i + 1).drop_last() =~= v@.take(i as int));
        }
        if contains_user(set, v[i]) {
            count = count + 1;
        }
        i = i + 1;
    }
    assert(v@.take(v@.len() as int) =~= v@);
    count
}

} // verus!
