//! Pitch and outcome taxonomy.
//!
//! Play records describe every pitch with one character and every plate
//! appearance with an event token. This module folds the raw pitch alphabet
//! into seven canonical categories and the leading character of an event
//! token into ten canonical outcomes.

use vstd::prelude::*;

verus! {

/// Canonical pitch: a ball.
pub const BALL: char = 'B';

/// Canonical pitch: a called strike.
pub const CALLED_STRIKE: char = 'C';

/// Canonical pitch: a swing that did not put the ball in play. Whether the
/// pitch itself was a ball or a strike is not recorded.
pub const SWING: char = 'F';

/// Canonical pitch: the batter was hit by the pitch.
pub const HIT_BY_PITCH: char = 'H';

/// Canonical pitch: an intentional ball.
pub const INTENTIONAL_BALL: char = 'I';

/// Canonical pitch: no pitch, or a code that is not recognised.
pub const NO_PITCH: char = 'N';

/// Canonical pitch: the ball was put in play.
pub const IN_PLAY: char = 'X';

/// Canonical outcome: walk.
pub const WALK: char = 'W';

/// Canonical outcome: strikeout.
pub const STRIKEOUT: char = 'K';

/// Canonical outcome: an out made in the field.
pub const FIELD_OUT: char = 'O';

/// Canonical outcome: not a recognised way for a plate appearance to end.
pub const UNKNOWN_OUTCOME: char = 'N';

/// The raw codes that count as a ball when the count is kept on raw codes.
pub open spec fn is_ball_code(pitch: char) -> bool {
    pitch == 'B' || pitch == 'I' || pitch == 'P' || pitch == 'V'
}

/// The raw codes that count as a full strike when the count is kept on raw
/// codes.
pub open spec fn is_strike_code(pitch: char) -> bool {
    pitch == 'A' || pitch == 'C' || pitch == 'M' || pitch == 'Q' || pitch == 'S' || pitch == 'T'
}

/// The raw codes for a foul ball of any kind.
pub open spec fn is_foul_code(pitch: char) -> bool {
    pitch == 'F' || pitch == 'L' || pitch == 'O' || pitch == 'R'
}

/// The raw codes on which the batter leaves the plate at once: hit by the
/// pitch, or ball put in play (also on a pitchout).
pub open spec fn is_contact_code(pitch: char) -> bool {
    pitch == 'H' || pitch == 'X' || pitch == 'Y'
}

/// The raw pitch alphabet: every code that the taxonomy knows.
pub open spec fn is_recognized_pitch_code(pitch: char) -> bool {
    pitch == 'A' || pitch == 'B' || pitch == 'C' || pitch == 'F' || pitch == 'H' || pitch == 'I'
        || pitch == 'L' || pitch == 'M' || pitch == 'N' || pitch == 'O' || pitch == 'P' || pitch
        == 'Q' || pitch == 'R' || pitch == 'S' || pitch == 'T' || pitch == 'U' || pitch == 'V'
        || pitch == 'X' || pitch == 'Y'
}

/// The seven canonical pitch categories.
pub open spec fn is_canonical_pitch(pitch: char) -> bool {
    pitch == BALL || pitch == CALLED_STRIKE || pitch == SWING || pitch == HIT_BY_PITCH || pitch
        == INTENTIONAL_BALL || pitch == NO_PITCH || pitch == IN_PLAY
}

/// The ten canonical outcomes.
pub open spec fn is_canonical_outcome(outcome: char) -> bool {
    outcome == 'S' || outcome == 'D' || outcome == 'T' || outcome == 'H' || outcome == 'W'
        || outcome == 'I' || outcome == 'E' || outcome == 'K' || outcome == 'O' || outcome == 'N'
}

/// The canonical category of a raw pitch code, stated by category.
///
/// Every swing that did not put the ball in play is the one category `SWING`:
/// fouls, foul tips, missed bunts and swinging strikes, on a pitchout as on
/// any other pitch. Later stages only need to know that the batter swung. A
/// pitchout that the batter let go, or put in play, is a ball.
pub open spec fn canonical_pitch(pitch: char) -> char {
    if pitch == 'B' || pitch == 'P' || pitch == 'V' || pitch == 'Y' {
        BALL
    } else if pitch == 'A' || pitch == 'C' {
        CALLED_STRIKE
    } else if pitch == 'F' || pitch == 'L' || pitch == 'M' || pitch == 'O' || pitch == 'Q'
        || pitch == 'R' || pitch == 'S' || pitch == 'T' {
        SWING
    } else if pitch == 'H' {
        HIT_BY_PITCH
    } else if pitch == 'I' {
        INTENTIONAL_BALL
    } else if pitch == 'X' {
        IN_PLAY
    } else {
        NO_PITCH
    }
}

/// Whether `c` is one of the ten decimal digits.
pub open spec fn is_decimal_digit(c: char) -> bool {
    '0' <= c <= '9'
}

/// The canonical outcome that the leading character of an event token stands
/// for, before the hit-by-pitch rule is applied.
pub open spec fn outcome_of_token(raw: char) -> char {
    if raw == 'S' || raw == 'D' || raw == 'T' || raw == 'H' || raw == 'W' || raw == 'I' || raw
        == 'E' || raw == 'K' {
        raw
    } else if raw == 'F' || is_decimal_digit(raw) {
        FIELD_OUT
    } else {
        UNKNOWN_OUTCOME
    }
}

/// The canonical outcome of a plate appearance whose last pitch was
/// `last_pitch` and whose event token starts with `raw`. A batter hit by the
/// pitch takes first base as on a walk, whatever the token says.
pub open spec fn canonical_outcome(last_pitch: char, raw: char) -> char {
    if last_pitch == HIT_BY_PITCH {
        WALK
    } else {
        outcome_of_token(raw)
    }
}

/// Whether the raw code is a ball, an intentional ball, a pitchout or a ball
/// called on the pitcher.
pub fn is_ball(pitch: &char) -> (ball: bool)
    ensures
        ball == is_ball_code(*pitch),
{
    match *pitch {
        'B' => true,
        'I' => true,
        'P' => true,
        'V' => true,
        _ => false,
    }
}

/// Whether the raw code is a strike that adds to the count without limit: an
/// automatic or called strike, a missed bunt, a swing on a pitchout, a
/// swinging strike or a foul tip.
pub fn is_strike(pitch: &char) -> (strike: bool)
    ensures
        strike == is_strike_code(*pitch),
{
    match *pitch {
        'A' => true,
        'C' => true,
        'M' => true,
        'Q' => true,
        'S' => true,
        'T' => true,
        _ => false,
    }
}

/// Whether the raw code is a foul: a foul ball, a foul bunt, a foul tip on a
/// bunt or a foul on a pitchout.
pub fn is_foul(pitch: &char) -> (foul: bool)
    ensures
        foul == is_foul_code(*pitch),
{
    match *pitch {
        'F' => true,
        'L' => true,
        'O' => true,
        'R' => true,
        _ => false,
    }
}

/// Whether the raw code ends the plate appearance on the spot: hit by the
/// pitch, or ball put in play.
pub fn is_ball_put_into_play_or_hit_by_pitch(pitch: &char) -> (contact: bool)
    ensures
        contact == is_contact_code(*pitch),
{
    match *pitch {
        'H' => true,
        'X' => true,
        'Y' => true,
        _ => false,
    }
}

/// Classifies one raw pitch code.
pub fn simplify_pitch_codes(pitch: &char) -> (simple: char)
    ensures
        simple == canonical_pitch(*pitch),
        is_canonical_pitch(simple),
        !is_recognized_pitch_code(*pitch) ==> simple == NO_PITCH,
{
    match *pitch {
        'A' => 'C',
        'B' => 'B',
        'C' => 'C',
        'F' => 'F',
        'H' => 'H',
        'I' => 'I',
        'L' => 'F',
        'M' => 'F',
        'N' => 'N',
        'O' => 'F',
        'P' => 'B',
        'Q' => 'F',
        'R' => 'F',
        'S' => 'F',
        'T' => 'F',
        'U' => 'N',
        'V' => 'B',
        'X' => 'X',
        'Y' => 'B',
        _ => 'N',
    }
}

/// Classifies the leading character of an event token, given the canonical
/// category of the last pitch of the plate appearance.
pub fn simplify_outcome_codes(last_pitch: &char, outcome: &char) -> (simple: char)
    ensures
        simple == canonical_outcome(*last_pitch, *outcome),
        is_canonical_outcome(simple),
        *last_pitch == HIT_BY_PITCH ==> simple == WALK,
{
    let new_outcome = match *outcome {
        'S' => 'S',
        'D' => 'D',
        'T' => 'T',
        'H' => 'H',
        'W' => 'W',
        'I' => 'I',
        'E' => 'E',
        'F' => 'O',
        'K' => 'K',
        '0' => 'O',
        '1' => 'O',
        '2' => 'O',
        '3' => 'O',
        '4' => 'O',
        '5' => 'O',
        '6' => 'O',
        '7' => 'O',
        '8' => 'O',
        '9' => 'O',
        _ => 'N',
    };
    if *last_pitch == 'H' {
        'W'
    } else {
        new_outcome
    }
}

/// A code outside the raw pitch alphabet is no pitch.
pub proof fn lemma_unrecognized_pitch_is_no_pitch(pitch: char)
    requires
        !is_recognized_pitch_code(pitch),
    ensures
        canonical_pitch(pitch) == NO_PITCH,
{
}

/// Classification lands in the seven canonical categories and leaves a
/// canonical code as it is.
pub proof fn lemma_canonical_pitch_is_canonical(pitch: char)
    ensures
        is_canonical_pitch(canonical_pitch(pitch)),
        is_canonical_pitch(pitch) ==> canonical_pitch(pitch) == pitch,
        canonical_pitch(canonical_pitch(pitch)) == canonical_pitch(pitch),
{
}

/// After a hit-by-pitch the outcome is a walk for every event token.
pub proof fn lemma_hit_by_pitch_is_walk(raw: char)
    ensures
        canonical_outcome(HIT_BY_PITCH, raw) == WALK,
{
}

} // verus!
