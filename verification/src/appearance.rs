//! The plate appearance: one batter's turn at the plate.

use vstd::prelude::*;
use crate::date::{Date, DateView};
use crate::taxonomy::{
    is_canonical_outcome, is_canonical_pitch, outcome_of_token, BALL, CALLED_STRIKE, HIT_BY_PITCH, INTENTIONAL_BALL,
    IN_PLAY, NO_PITCH, STRIKEOUT, SWING, UNKNOWN_OUTCOME, WALK,
};

verus! {

/// One plate appearance: when it took place, who batted, how it ended, the
/// canonical pitches in the order thrown, and the event token of the play
/// record, kept as it was read.
#[derive(Clone, Debug, PartialEq, Eq)]
pub struct PlateAppearance {
    date: Date,
    batter: String,
    outcome: char,
    pitches: Vec<char>,
    raw_outcome: String,
}

/// What a `PlateAppearance` holds.
pub struct PlateAppearanceView {
    pub date: DateView,
    pub batter: Seq<char>,
    pub outcome: char,
    pub pitches: Seq<char>,
    pub raw_outcome: Seq<char>,
}

impl View for PlateAppearance {
    type V = PlateAppearanceView;

    closed spec fn view(&self) -> PlateAppearanceView {
        PlateAppearanceView {
            date: self.date@,
            batter: self.batter@,
            outcome: self.outcome,
            pitches: self.pitches@,
            raw_outcome: self.raw_outcome@,
        }
    }
}

/// The count: balls and strikes against the batter.
pub struct Count {
    pub balls: int,
    pub strikes: int,
}

/// Four balls make a walk.
pub const BALLS_FOR_WALK: u8 = 4;

/// Three strikes make a strikeout.
pub const STRIKES_FOR_OUT: u8 = 3;

impl Count {
    /// The count before the first pitch.
    pub open spec fn start() -> Count {
        Count { balls: 0, strikes: 0 }
    }

    /// Whether the count alone ends the plate appearance.
    pub open spec fn is_full(self) -> bool {
        self.balls >= BALLS_FOR_WALK || self.strikes >= STRIKES_FOR_OUT
    }

    /// The count after one more canonical pitch. A ball or an intentional
    /// ball adds a ball and a called strike adds a strike. A swing adds a
    /// strike only while there are fewer than two: a foul is never the third
    /// strike. Nothing else changes the count.
    pub open spec fn after(self, pitch: char) -> Count {
        if pitch == BALL || pitch == INTENTIONAL_BALL {
            Count { balls: self.balls + 1, strikes: self.strikes }
        } else if pitch == CALLED_STRIKE {
            Count { balls: self.balls, strikes: self.strikes + 1 }
        } else if pitch == SWING && self.strikes < 2 {
            Count { balls: self.balls, strikes: self.strikes + 1 }
        } else {
            self
        }
    }
}

/// The count after a sequence of canonical pitches.
pub open spec fn count_after(pitches: Seq<char>) -> Count
    decreases pitches.len(),
{
    if pitches.len() == 0 {
        Count::start()
    } else {
        count_after(pitches.drop_last()).after(pitches.last())
    }
}

/// Whether a canonical pitch ends the plate appearance whatever the count:
/// the batter was hit, or put the ball in play.
pub open spec fn ends_appearance(pitch: char) -> bool {
    pitch == HIT_BY_PITCH || pitch == IN_PLAY
}

/// Whether a plate appearance is over after `pitches`: its last pitch hit the
/// batter or was put in play, or the count is full.
pub open spec fn is_over(pitches: Seq<char>) -> bool {
    (pitches.len() > 0 && ends_appearance(pitches.last())) || count_after(pitches).is_full()
}

impl PlateAppearanceView {
    /// Whether this is a complete plate appearance. Every pitch is a canonical
    /// pitch other than `NO_PITCH`. The appearance is over after the last
    /// pitch and was not over before it. The outcome is canonical and known,
    /// and it is the one that the end of the sequence calls for: a walk after
    /// a hit-by-pitch, otherwise a walk on four balls and a strikeout on three
    /// strikes. When the ball was put in play, the outcome is the one that the
    /// event token starts with.
    pub open spec fn is_complete(self) -> bool {
        &&& forall|i: int|
            0 <= i < self.pitches.len() ==> is_canonical_pitch(#[trigger] self.pitches[i])
                && self.pitches[i] != NO_PITCH
        &&& forall|n: int| 0 <= n < self.pitches.len() ==> !is_over(#[trigger] self.pitches.take(n))
        &&& is_over(self.pitches)
        &&& is_canonical_outcome(self.outcome)
        &&& self.outcome != UNKNOWN_OUTCOME
        &&& self.pitches.last() == HIT_BY_PITCH ==> self.outcome == WALK
        &&& self.pitches.last() == IN_PLAY ==> self.raw_outcome.len() > 0 && self.outcome
            == outcome_of_token(self.raw_outcome[0])
        &&& !ends_appearance(self.pitches.last()) && count_after(self.pitches).balls
            >= BALLS_FOR_WALK ==> self.outcome == WALK
        &&& !ends_appearance(self.pitches.last()) && count_after(self.pitches).balls
            < BALLS_FOR_WALK ==> self.outcome == STRIKEOUT
    }
}

impl PlateAppearance {
    /// Puts the five parts together as they are. Nothing is checked:
    /// `is_complete` says whether the parts make a complete plate appearance.
    pub fn new(
        date: Date,
        batter: String,
        outcome: char,
        pitches: Vec<char>,
        raw_outcome: String,
    ) -> (appearance: Self)
        ensures
            appearance@ == (PlateAppearanceView {
                date: date@,
                batter: batter@,
                outcome: outcome,
                pitches: pitches@,
                raw_outcome: raw_outcome@,
            }),
    {
        Self { date, batter, outcome, pitches, raw_outcome }
    }

    pub fn get_date(&self) -> (date: &Date)
        ensures
            date@ == self@.date,
    {
        &self.date
    }

    pub fn get_batter(&self) -> (batter: &String)
        ensures
            batter@ == self@.batter,
    {
        &self.batter
    }

    pub fn get_outcome(&self) -> (outcome: &char)
        ensures
            *outcome == self@.outcome,
    {
        &self.outcome
    }

    pub fn get_pitches(&self) -> (pitches: &Vec<char>)
        ensures
            pitches@ == self@.pitches,
    {
        &self.pitches
    }

    pub fn get_raw_outcome(&self) -> (raw_outcome: &String)
        ensures
            raw_outcome@ == self@.raw_outcome,
    {
        &self.raw_outcome
    }
}

} // verus!
