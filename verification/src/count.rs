//! The count state machine: from the raw pitches of a play record to a plate
//! appearance.

use vstd::prelude::*;
use vstd::string::*;
use crate::appearance::{
    count_after, is_over, PlateAppearance, PlateAppearanceView, BALLS_FOR_WALK, STRIKES_FOR_OUT,
};
use crate::date::Date;
use crate::taxonomy::{
    canonical_pitch, is_canonical_pitch, is_recognized_pitch_code, outcome_of_token,
    simplify_outcome_codes, simplify_pitch_codes, BALL, CALLED_STRIKE, HIT_BY_PITCH,
    INTENTIONAL_BALL, IN_PLAY, NO_PITCH, STRIKEOUT, SWING, UNKNOWN_OUTCOME, WALK,
};

verus! {

/// The canonical pitches that are kept of a raw pitch sequence. The raw codes
/// are read in order. Once the appearance is over, nothing more is read. Until
/// then each code is classified, and kept unless it is no pitch.
pub open spec fn kept_pitches(raw: Seq<char>) -> Seq<char>
    decreases raw.len(),
{
    if raw.len() == 0 {
        Seq::<char>::empty()
    } else {
        let before = kept_pitches(raw.drop_last());
        if is_over(before) || canonical_pitch(raw.last()) == NO_PITCH {
            before
        } else {
            before.push(canonical_pitch(raw.last()))
        }
    }
}

/// How a plate appearance with the canonical pitches `pitches` and the event
/// token `raw_outcome` ended. A hit-by-pitch is a walk. A ball in play ends as
/// the token's first character says. Otherwise four balls are a walk and
/// three strikes a strikeout. Anything else is unknown: the record does not
/// show a complete plate appearance.
pub open spec fn outcome_after(pitches: Seq<char>, raw_outcome: Seq<char>) -> char {
    if pitches.len() > 0 && pitches.last() == HIT_BY_PITCH {
        WALK
    } else if pitches.len() > 0 && pitches.last() == IN_PLAY {
        if raw_outcome.len() > 0 {
            outcome_of_token(raw_outcome[0])
        } else {
            UNKNOWN_OUTCOME
        }
    } else if count_after(pitches).balls >= BALLS_FOR_WALK {
        WALK
    } else if count_after(pitches).strikes >= STRIKES_FOR_OUT {
        STRIKEOUT
    } else {
        UNKNOWN_OUTCOME
    }
}

/// One more pitch moves the count by that pitch.
pub proof fn lemma_count_after_push(pitches: Seq<char>, pitch: char)
    ensures
        count_after(pitches.push(pitch)) == count_after(pitches).after(pitch),
{
    assert(pitches.push(pitch).drop_last() == pitches);
}

/// A swing that does not put the ball in play is never the third strike.
pub proof fn lemma_swing_is_never_the_third_strike(pitches: Seq<char>)
    requires
        count_after(pitches).strikes < STRIKES_FOR_OUT,
    ensures
        count_after(pitches.push(SWING)).strikes < STRIKES_FOR_OUT,
        count_after(pitches.push(SWING)).balls == count_after(pitches).balls,
{
    lemma_count_after_push(pitches, SWING);
}

/// Once the appearance is over, later raw codes change nothing.
pub proof fn lemma_kept_pitches_stop(raw: Seq<char>, read: int)
    requires
        0 <= read <= raw.len(),
        is_over(kept_pitches(raw.take(read))),
    ensures
        kept_pitches(raw) == kept_pitches(raw.take(read)),
    decreases raw.len(),
{
    if read == raw.len() {
        assert(raw.take(read) == raw);
    } else {
        assert(raw.drop_last().take(read) == raw.take(read));
        lemma_kept_pitches_stop(raw.drop_last(), read);
    }
}

/// What holds of the kept pitches of every raw sequence: each is a canonical
/// pitch and none is `NO_PITCH`; the appearance is not over before the last of
/// them; and the count never passes four balls or three strikes.
pub proof fn lemma_kept_pitches_well_formed(raw: Seq<char>)
    ensures
        forall|i: int|
            0 <= i < kept_pitches(raw).len() ==> is_canonical_pitch(
                #[trigger] kept_pitches(raw)[i],
            ) && kept_pitches(raw)[i] != NO_PITCH,
        forall|n: int|
            0 <= n < kept_pitches(raw).len() ==> !is_over(#[trigger] kept_pitches(raw).take(n)),
        0 <= count_after(kept_pitches(raw)).balls <= BALLS_FOR_WALK,
        0 <= count_after(kept_pitches(raw)).strikes <= STRIKES_FOR_OUT,
    decreases raw.len(),
{
    if raw.len() > 0 {
        let before = kept_pitches(raw.drop_last());
        let kept = kept_pitches(raw);
        lemma_kept_pitches_well_formed(raw.drop_last());
        if kept != before {
            let pitch = canonical_pitch(raw.last());
            lemma_count_after_push(before, pitch);
            assert forall|n: int| 0 <= n < kept.len() implies !is_over(#[trigger] kept.take(n)) by {
                if n < before.len() {
                    assert(kept.take(n) == before.take(n));
                } else {
                    assert(kept.take(n) == before);
                }
            }
        }
    }
}

/// A raw code outside the pitch alphabet is never kept: with or without it
/// the kept pitches are the same.
pub proof fn lemma_unrecognized_pitch_is_dropped(raw: Seq<char>, pitch: char)
    requires
        !is_recognized_pitch_code(pitch),
    ensures
        kept_pitches(raw.push(pitch)) == kept_pitches(raw),
{
    assert(raw.push(pitch).drop_last() == raw);
}

/// Counts balls and strikes over a sequence of canonical pitches.
pub fn count_pitches(pitches: &Vec<char>) -> (count: (usize, usize))
    ensures
        count.0 == count_after(pitches@).balls,
        count.1 == count_after(pitches@).strikes,
{
    let mut balls: usize = 0;
    let mut strikes: usize = 0;
    let mut i: usize = 0;
    while i < pitches.len()
        invariant
            i <= pitches.len(),
            balls == count_after(pitches@.take(i as int)).balls,
            strikes == count_after(pitches@.take(i as int)).strikes,
            balls <= i,
            strikes <= i,
        decreases pitches.len() - i,
    {
        let pitch = pitches[i];
        proof {
            assert(pitches@.take(i as int + 1).drop_last() == pitches@.take(i as int));
        }
        if pitch == BALL || pitch == INTENTIONAL_BALL {
            balls += 1;
        } else if pitch == CALLED_STRIKE || (pitch == SWING && strikes < 2) {
            strikes += 1;
        }
        i += 1;
    }
    proof {
        assert(pitches@.take(i as int) == pitches@);
    }
    (balls, strikes)
}

/// Builds the plate appearance that a play record describes: the raw pitch
/// codes in the order thrown and the record's event token.
///
/// Returns `None` when the record does not show a complete plate appearance:
/// the pitches run out before the count is full and no pitch hit the batter
/// or was put in play, or the ball was put in play and the event token does
/// not start with a known outcome.
pub fn build_plate_appearance(
    raw_pitches: &Vec<char>,
    raw_outcome: String,
    date: Date,
    batter: String,
) -> (built: Option<PlateAppearance>)
    ensures
        built is None <==> outcome_after(kept_pitches(raw_pitches@), raw_outcome@)
            == UNKNOWN_OUTCOME,
        built matches Some(appearance) ==> {
            &&& appearance@ == (PlateAppearanceView {
                date: date@,
                batter: batter@,
                outcome: outcome_after(kept_pitches(raw_pitches@), raw_outcome@),
                pitches: kept_pitches(raw_pitches@),
                raw_outcome: raw_outcome@,
            })
            &&& appearance@.is_complete()
            &&& count_after(appearance@.pitches).balls <= BALLS_FOR_WALK
            &&& count_after(appearance@.pitches).strikes <= STRIKES_FOR_OUT
        },
{
    let mut pitches: Vec<char> = Vec::new();
    let mut balls: u8 = 0;
    let mut strikes: u8 = 0;
    let mut outcome: char = UNKNOWN_OUTCOME;
    let mut over: bool = false;
    let mut i: usize = 0;
    while i < raw_pitches.len() && !over
        invariant
            i <= raw_pitches.len(),
            pitches@ == kept_pitches(raw_pitches@.take(i as int)),
            balls == count_after(pitches@).balls,
            strikes == count_after(pitches@).strikes,
            over == is_over(pitches@),
            outcome == outcome_after(pitches@, raw_outcome@),
        decreases raw_pitches.len() - i,
    {
        let pitch = simplify_pitch_codes(&raw_pitches[i]);
        proof {
            assert(raw_pitches@.take(i as int + 1).drop_last() == raw_pitches@.take(i as int));
            assert(raw_pitches@.take(i as int + 1).last() == raw_pitches@[i as int]);
            lemma_count_after_push(pitches@, pitch);
            lemma_kept_pitches_well_formed(raw_pitches@.take(i as int));
        }
        if pitch != NO_PITCH {
            pitches.push(pitch);
            if pitch == BALL || pitch == INTENTIONAL_BALL {
                balls += 1;
            } else if pitch == CALLED_STRIKE {
                strikes += 1;
            } else if pitch == SWING {
                if strikes < 2 {
                    strikes += 1;
                }
            } else if pitch == HIT_BY_PITCH {
                outcome = simplify_outcome_codes(&pitch, &UNKNOWN_OUTCOME);
                over = true;
            } else {
                let token = raw_outcome.as_str();
                if token.unicode_len() > 0 {
                    outcome = simplify_outcome_codes(&pitch, &token.get_char(0));
                }
                over = true;
            }
            if balls == BALLS_FOR_WALK {
                outcome = WALK;
                over = true;
            } else if strikes == STRIKES_FOR_OUT {
                outcome = STRIKEOUT;
                over = true;
            }
        }
        i += 1;
    }
    proof {
        if over {
            lemma_kept_pitches_stop(raw_pitches@, i as int);
        } else {
            assert(raw_pitches@.take(i as int) == raw_pitches@);
        }
        lemma_kept_pitches_well_formed(raw_pitches@);
    }
    if outcome == UNKNOWN_OUTCOME {
        None
    } else {
        Some(PlateAppearance::new(date, batter, outcome, pitches, raw_outcome))
    }
}

} // verus!
