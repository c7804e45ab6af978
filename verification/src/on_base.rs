//! How often a batter reached base.
//!
//! The on-base percentage of a collection of plate appearances is the number
//! of hits and walks over the number of at-bats. The library keeps it as the
//! three counts, so that nothing is rounded.

use vstd::prelude::*;
use crate::appearance::PlateAppearance;
use crate::taxonomy::{is_decimal_digit, outcome_of_token, FIELD_OUT, STRIKEOUT, UNKNOWN_OUTCOME, WALK};
use crate::text::chars_of;

verus! {

/// The counts that make an on-base percentage: `(hits + walks) / at_bats`.
#[derive(Clone, Copy, Debug, PartialEq, Eq, Structural)]
pub struct OnBaseTally {
    pub hits: usize,
    pub walks: usize,
    pub at_bats: usize,
}

/// Why no on-base percentage can be given.
#[derive(Clone, Copy, Debug, PartialEq, Eq, Structural)]
pub enum RateError {
    /// No plate appearance in the collection counts as an at-bat.
    NoAtBats,
}

/// Three counts as numbers without bound.
pub struct Tally {
    pub hits: nat,
    pub walks: nat,
    pub at_bats: nat,
}

/// Singles, doubles, triples and home runs.
pub open spec fn is_hit(outcome: char) -> bool {
    outcome == 'S' || outcome == 'D' || outcome == 'T' || outcome == 'H'
}

/// Walks and intentional walks.
pub open spec fn is_walk(outcome: char) -> bool {
    outcome == 'W' || outcome == 'I'
}

/// The outcomes that count as an at-bat: hits and walks, outs in the field,
/// strikeouts and errors. An error counts as an at-bat and not as a time on
/// base.
pub open spec fn is_at_bat(outcome: char) -> bool {
    is_hit(outcome) || is_walk(outcome) || outcome == 'O' || outcome == 'K' || outcome == 'E'
}

impl Tally {
    /// The tally with one more outcome counted.
    pub open spec fn with(self, outcome: char) -> Tally {
        Tally {
            hits: if is_hit(outcome) {
                self.hits + 1
            } else {
                self.hits
            },
            walks: if is_walk(outcome) {
                self.walks + 1
            } else {
                self.walks
            },
            at_bats: if is_at_bat(outcome) {
                self.at_bats + 1
            } else {
                self.at_bats
            },
        }
    }
}

/// The tally of a sequence of canonical outcomes: how many are hits, how many
/// walks, how many at-bats.
pub open spec fn tally_of(outcomes: Seq<char>) -> Tally
    decreases outcomes.len(),
{
    if outcomes.len() == 0 {
        Tally { hits: 0, walks: 0, at_bats: 0 }
    } else {
        tally_of(outcomes.drop_last()).with(outcomes.last())
    }
}

/// How many of `outcomes` are `wanted`.
pub open spec fn count_outcome(outcomes: Seq<char>, wanted: char) -> nat
    decreases outcomes.len(),
{
    if outcomes.len() == 0 {
        0
    } else if outcomes.last() == wanted {
        count_outcome(outcomes.drop_last(), wanted) + 1
    } else {
        count_outcome(outcomes.drop_last(), wanted)
    }
}

/// The canonical outcomes of a collection, in order.
pub open spec fn outcomes_of(appearances: Seq<PlateAppearance>) -> Seq<char> {
    Seq::new(appearances.len(), |i: int| appearances[i]@.outcome)
}

/// Whether an event token holds an error code: the letter `E` with a digit
/// right behind it. An `E` that stands for something else has no digit there.
pub open spec fn has_error_code(token: Seq<char>) -> bool {
    exists|i: int|
        0 <= i && i + 1 < token.len() && #[trigger] token[i] == 'E' && is_decimal_digit(
            token[i + 1],
        )
}

/// The canonical outcome read off an event token itself. The first character
/// decides for hits, walks, strikeouts and outs in the field, which start
/// with the number of a fielder. Of the other tokens, those that hold an
/// error code are errors. An empty token is unknown.
pub open spec fn outcome_of_event(token: Seq<char>) -> char {
    if token.len() == 0 {
        UNKNOWN_OUTCOME
    } else if is_hit(token[0]) || is_walk(token[0]) || token[0] == STRIKEOUT {
        token[0]
    } else if is_decimal_digit(token[0]) {
        FIELD_OUT
    } else if has_error_code(token) {
        'E'
    } else {
        UNKNOWN_OUTCOME
    }
}

/// The outcomes read off the event tokens of a collection, in order.
pub open spec fn event_outcomes_of(appearances: Seq<PlateAppearance>) -> Seq<char> {
    Seq::new(appearances.len(), |i: int| outcome_of_event(appearances[i]@.raw_outcome))
}

/// In every tally the hits and walks together are no more than the at-bats,
/// and the at-bats no more than the outcomes counted: the on-base percentage
/// lies between zero and one.
pub proof fn lemma_tally_bounds(outcomes: Seq<char>)
    ensures
        tally_of(outcomes).hits + tally_of(outcomes).walks <= tally_of(outcomes).at_bats,
        tally_of(outcomes).at_bats <= outcomes.len(),
    decreases outcomes.len(),
{
    if outcomes.len() > 0 {
        lemma_tally_bounds(outcomes.drop_last());
    }
}

/// A collection of strikeouts only has an on-base percentage of zero: every
/// outcome is an at-bat and none is a hit or a walk.
pub proof fn lemma_all_strikeouts(outcomes: Seq<char>)
    requires
        forall|i: int| 0 <= i < outcomes.len() ==> outcomes[i] == STRIKEOUT,
    ensures
        tally_of(outcomes).hits + tally_of(outcomes).walks == 0,
        tally_of(outcomes).at_bats == outcomes.len(),
    decreases outcomes.len(),
{
    if outcomes.len() > 0 {
        lemma_all_strikeouts(outcomes.drop_last());
    }
}

/// A collection of walks only has an on-base percentage of one: every outcome
/// is an at-bat and a walk.
pub proof fn lemma_all_walks(outcomes: Seq<char>)
    requires
        forall|i: int| 0 <= i < outcomes.len() ==> outcomes[i] == WALK,
    ensures
        tally_of(outcomes).hits + tally_of(outcomes).walks == tally_of(outcomes).at_bats,
        tally_of(outcomes).at_bats == outcomes.len(),
    decreases outcomes.len(),
{
    if outcomes.len() > 0 {
        lemma_all_walks(outcomes.drop_last());
    }
}

/// Reading the outcome off the event token agrees with the table of outcomes
/// on every token that starts with a hit, a walk, a strikeout or a fielder's
/// number, and on every token that starts with an error code.
pub proof fn lemma_event_outcome_agrees(token: Seq<char>)
    requires
        token.len() > 0,
        token[0] == 'E' ==> token.len() > 1 && is_decimal_digit(token[1]),
        token[0] != 'E' ==> is_hit(token[0]) || is_walk(token[0]) || token[0] == STRIKEOUT
            || is_decimal_digit(token[0]),
    ensures
        outcome_of_event(token) == outcome_of_token(token[0]),
{
    if token[0] == 'E' {
        assert(token[0int] == 'E' && is_decimal_digit(token[0int + 1]));
    }
}

/// Where the event token of every appearance reads as the appearance's
/// outcome, tallying by token and tallying by outcome give the same counts.
pub proof fn lemma_tallies_agree(appearances: Seq<PlateAppearance>)
    requires
        forall|i: int|
            0 <= i < appearances.len() ==> outcome_of_event(
                (#[trigger] appearances[i])@.raw_outcome,
            ) == appearances[i]@.outcome,
    ensures
        tally_of(event_outcomes_of(appearances)) == tally_of(outcomes_of(appearances)),
{
    assert(event_outcomes_of(appearances) =~= outcomes_of(appearances));
}

/// Counts the plate appearances that ended in a walk.
pub fn sum_walks(plate_appearances: &Vec<PlateAppearance>) -> (walks: i32)
    requires
        plate_appearances.len() <= i32::MAX,
    ensures
        walks == count_outcome(outcomes_of(plate_appearances@), WALK),
{
    count_with_outcome(plate_appearances, WALK)
}

/// Counts the plate appearances that ended in a strikeout.
pub fn sum_strikeouts(plate_appearances: &Vec<PlateAppearance>) -> (strikeouts: i32)
    requires
        plate_appearances.len() <= i32::MAX,
    ensures
        strikeouts == count_outcome(outcomes_of(plate_appearances@), STRIKEOUT),
{
    count_with_outcome(plate_appearances, STRIKEOUT)
}

fn count_with_outcome(plate_appearances: &Vec<PlateAppearance>, wanted: char) -> (count: i32)
    requires
        plate_appearances.len() <= i32::MAX,
    ensures
        count == count_outcome(outcomes_of(plate_appearances@), wanted),
{
    let ghost outcomes = outcomes_of(plate_appearances@);
    let mut count: i32 = 0;
    let mut i: usize = 0;
    while i < plate_appearances.len()
        invariant
            i <= plate_appearances.len() <= i32::MAX,
            outcomes == outcomes_of(plate_appearances@),
            count == count_outcome(outcomes.take(i as int), wanted),
            0 <= count <= i,
        decreases plate_appearances.len() - i,
    {
        proof {
            assert(outcomes.take(i as int + 1).drop_last() == outcomes.take(i as int));
        }
        if *plate_appearances[i].get_outcome() == wanted {
            count += 1;
        }
        i += 1;
    }
    proof {
        assert(outcomes.take(i as int) == outcomes);
    }
    count
}

/// Whether an event token holds an error code.
pub fn is_error(outcome: &String) -> (error: bool)
    ensures
        error == has_error_code(outcome@),
{
    let token = chars_of(outcome.as_str());
    let n = token.len();
    if n < 2 {
        return false;
    }
    let mut i: usize = 0;
    while i < n - 1
        invariant
            token@ == outcome@,
            2 <= n == token@.len(),
            i <= n - 1,
            forall|j: int|
                0 <= j < i ==> !(#[trigger] token@[j] == 'E' && is_decimal_digit(token@[j + 1])),
        decreases n - i,
    {
        if token[i] == 'E' && is_digit(token[i + 1]) {
            return true;
        }
        i += 1;
    }
    false
}

fn is_digit(c: char) -> (digit: bool)
    ensures
        digit == is_decimal_digit(c),
{
    '0' <= c && c <= '9'
}

/// Reads the outcome of a plate appearance off its event token.
pub fn classify_event(token: &String) -> (outcome: char)
    ensures
        outcome == outcome_of_event(token@),
{
    let text = token.as_str();
    if text.unicode_len() == 0 {
        return UNKNOWN_OUTCOME;
    }
    let first = text.get_char(0);
    if first == 'S' || first == 'D' || first == 'T' || first == 'H' || first == 'W' || first
        == 'I' || first == 'K' {
        first
    } else if is_digit(first) {
        FIELD_OUT
    } else if is_error(token) {
        'E'
    } else {
        UNKNOWN_OUTCOME
    }
}

fn count_in(tally: OnBaseTally, outcome: char) -> (counted: OnBaseTally)
    requires
        tally.at_bats < usize::MAX,
        tally.hits + tally.walks <= tally.at_bats,
    ensures
        counted.hits == tally.hits + if is_hit(outcome) { 1int } else { 0 },
        counted.walks == tally.walks + if is_walk(outcome) { 1int } else { 0 },
        counted.at_bats == tally.at_bats + if is_at_bat(outcome) { 1int } else { 0 },
{
    let mut counted = tally;
    if outcome == 'S' || outcome == 'D' || outcome == 'T' || outcome == 'H' {
        counted.hits += 1;
        counted.at_bats += 1;
    } else if outcome == 'W' || outcome == 'I' {
        counted.walks += 1;
        counted.at_bats += 1;
    } else if outcome == 'O' || outcome == 'K' || outcome == 'E' {
        counted.at_bats += 1;
    }
    counted
}

/// Whether the counts of `tally` are those of `counts`.
pub open spec fn tally_is(tally: OnBaseTally, counts: Tally) -> bool {
    tally.hits == counts.hits && tally.walks == counts.walks && tally.at_bats == counts.at_bats
}

/// The on-base percentage of a collection by the canonical outcomes of its
/// plate appearances, as its three counts. A collection without an at-bat has
/// no on-base percentage.
pub fn calculate_obp(plate_appearances: &Vec<PlateAppearance>) -> (rate: Result<
    OnBaseTally,
    RateError,
>)
    ensures
        rate is Err <==> tally_of(outcomes_of(plate_appearances@)).at_bats == 0,
        rate matches Ok(tally) ==> tally_is(tally, tally_of(outcomes_of(plate_appearances@)))
            && 0 < tally.at_bats && tally.hits + tally.walks <= tally.at_bats,
{
    let ghost outcomes = outcomes_of(plate_appearances@);
    let mut tally = OnBaseTally { hits: 0, walks: 0, at_bats: 0 };
    let mut i: usize = 0;
    while i < plate_appearances.len()
        invariant
            i <= plate_appearances.len(),
            outcomes == outcomes_of(plate_appearances@),
            tally_is(tally, tally_of(outcomes.take(i as int))),
        decreases plate_appearances.len() - i,
    {
        proof {
            assert(outcomes.take(i as int + 1).drop_last() == outcomes.take(i as int));
            lemma_tally_bounds(outcomes.take(i as int));
        }
        tally = count_in(tally, *plate_appearances[i].get_outcome());
        i += 1;
    }
    proof {
        assert(outcomes.take(i as int) == outcomes);
        lemma_tally_bounds(outcomes);
    }
    if tally.at_bats == 0 {
        Err(RateError::NoAtBats)
    } else {
        Ok(tally)
    }
}

/// The on-base percentage of a collection by the event tokens of its plate
/// appearances, as its three counts: a check on `calculate_obp` against the
/// play records themselves.
pub fn calculate_obp_from_raw_outcomes(plate_appearances: &Vec<PlateAppearance>) -> (rate: Result<
    OnBaseTally,
    RateError,
>)
    ensures
        rate is Err <==> tally_of(event_outcomes_of(plate_appearances@)).at_bats == 0,
        rate matches Ok(tally) ==> tally_is(
            tally,
            tally_of(event_outcomes_of(plate_appearances@)),
        ) && 0 < tally.at_bats && tally.hits + tally.walks <= tally.at_bats,
{
    let ghost outcomes = event_outcomes_of(plate_appearances@);
    let mut tally = OnBaseTally { hits: 0, walks: 0, at_bats: 0 };
    let mut i: usize = 0;
    while i < plate_appearances.len()
        invariant
            i <= plate_appearances.len(),
            outcomes == event_outcomes_of(plate_appearances@),
            tally_is(tally, tally_of(outcomes.take(i as int))),
        decreases plate_appearances.len() - i,
    {
        proof {
            assert(outcomes.take(i as int + 1).drop_last() == outcomes.take(i as int));
            lemma_tally_bounds(outcomes.take(i as int));
        }
        tally = count_in(tally, classify_event(plate_appearances[i].get_raw_outcome()));
        i += 1;
    }
    proof {
        assert(outcomes.take(i as int) == outcomes);
        lemma_tally_bounds(outcomes);
    }
    if tally.at_bats == 0 {
        Err(RateError::NoAtBats)
    } else {
        Ok(tally)
    }
}

} // verus!
