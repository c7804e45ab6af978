//! The plate appearance replayed without the bat.
//!
//! Every pitch that the batter took stays as it was. Every pitch that the
//! batter swung at is thrown again to a batter who does not swing, and is a
//! ball with the probability that a swung-at pitch was outside the strike
//! zone. If the recorded pitches run out before the count is full, further
//! pitches are thrown, each a strike with the probability that a pitch is in
//! the zone.
//!
//! Percentages are whole numbers of hundredths of a percent, and so are the
//! random draws: a draw is a whole number from 0 up to, not including,
//! `FULL_SCALE`. A draw at the threshold counts as below it, so of the
//! `FULL_SCALE` draws there are, one more than the threshold make a swung-at
//! pitch a ball.

use vstd::prelude::*;
use rand::Rng;
use crate::appearance::{
    count_after, ends_appearance, is_over, PlateAppearance, PlateAppearanceView, BALLS_FOR_WALK,
    STRIKES_FOR_OUT,
};
use crate::count::{lemma_count_after_push, outcome_after};
use crate::taxonomy::{
    is_canonical_pitch, BALL, CALLED_STRIKE, HIT_BY_PITCH, INTENTIONAL_BALL, IN_PLAY, NO_PITCH,
    STRIKEOUT, SWING, WALK,
};

verus! {

/// One hundred percent, in hundredths of a percent.
pub const FULL_SCALE: u32 = 10_000;

/// The number of draws that replaying one plate appearance can use up: three
/// balls and two strikes, and the pitch that decides.
pub const MAX_DRAWS: usize = 6;

/// The share of swung-at pitches that were outside the strike zone, as a
/// threshold for draws: by Bayes' rule the share is
/// `oswing * (100% - zone) / swing`, and a draw is at or below it exactly when
/// the draw is at or below the whole number stated here.
///
/// The threshold is kept between -1, which no draw reaches, and `FULL_SCALE`,
/// which every draw stays under. Where `swing` is zero the share is not
/// defined: it counts as beyond every draw if the numerator is positive, and
/// as below every draw if not.
pub open spec fn ball_threshold_of(oswing: int, swing: int, zone: int) -> int {
    let outside_swings = oswing * (FULL_SCALE - zone);
    if swing <= 0 {
        if outside_swings > 0 {
            FULL_SCALE as int
        } else {
            -1
        }
    } else if outside_swings < 0 {
        -1
    } else if outside_swings / swing > FULL_SCALE {
        FULL_SCALE as int
    } else {
        outside_swings / swing
    }
}

/// What a swung-at pitch becomes without the bat: a ball if the draw is at or
/// below the threshold, a called strike if not.
pub open spec fn swing_without_bat(draw: int, ball_threshold: int) -> char {
    if draw <= ball_threshold {
        BALL
    } else {
        CALLED_STRIKE
    }
}

/// A pitch thrown after the recorded ones: a called strike if the draw is at
/// or below the share of pitches in the zone, a ball if not.
pub open spec fn unrecorded_pitch(draw: int, zone: int) -> char {
    if draw <= zone {
        CALLED_STRIKE
    } else {
        BALL
    }
}

/// The pitches that need no bat: balls, called strikes, intentional balls and
/// pitches that hit the batter.
pub open spec fn is_taken(pitch: char) -> bool {
    pitch == BALL || pitch == CALLED_STRIKE || pitch == INTENTIONAL_BALL || pitch == HIT_BY_PITCH
}

/// The pitches that the batter swung at.
pub open spec fn is_swung_at(pitch: char) -> bool {
    pitch == SWING || pitch == IN_PLAY
}

/// Whether `draws` are the draws for one plate appearance: `MAX_DRAWS` of
/// them, each below `FULL_SCALE`.
pub open spec fn are_draws(draws: Seq<u32>) -> bool {
    draws.len() == MAX_DRAWS && forall|k: int|
        0 <= k < draws.len() ==> #[trigger] draws[k] < FULL_SCALE
}

/// A replay under way: the pitches so far and the number of draws used up.
pub struct Replay {
    pub pitches: Seq<char>,
    pub used: int,
}

/// The replay that has thrown `pitches` and used up `used` draws.
pub open spec fn replay_at(pitches: Seq<char>, used: int) -> Replay {
    Replay { pitches: pitches, used: used }
}

/// The replay of the recorded pitches. They are read in order, and nothing is
/// read once the replayed appearance is over. A taken pitch is kept. A
/// swung-at pitch uses the next draw and becomes a ball or a called strike.
/// Any other character is passed over.
pub open spec fn replay_recorded(recorded: Seq<char>, ball_threshold: int, draws: Seq<u32>) -> Replay
    decreases recorded.len(),
{
    if recorded.len() == 0 {
        Replay { pitches: Seq::<char>::empty(), used: 0 }
    } else {
        let before = replay_recorded(recorded.drop_last(), ball_threshold, draws);
        let pitch = recorded.last();
        if is_over(before.pitches) {
            before
        } else if is_taken(pitch) {
            Replay { pitches: before.pitches.push(pitch), used: before.used }
        } else if is_swung_at(pitch) {
            Replay {
                pitches: before.pitches.push(
                    swing_without_bat(draws[before.used] as int, ball_threshold),
                ),
                used: before.used + 1,
            }
        } else {
            before
        }
    }
}

/// The replay carried on past the recorded pitches until the appearance is
/// over: each further pitch uses the next draw.
pub open spec fn tail_walk(replay: Replay, zone: int, draws: Seq<u32>) -> Replay
    decreases draws.len() - replay.used,
{
    if is_over(replay.pitches) || replay.used < 0 || replay.used >= draws.len() {
        replay
    } else {
        tail_walk(
            Replay {
                pitches: replay.pitches.push(unrecorded_pitch(draws[replay.used] as int, zone)),
                used: replay.used + 1,
            },
            zone,
            draws,
        )
    }
}

/// The pitches of the appearance replayed without the bat.
pub open spec fn pitches_without_bat(
    recorded: Seq<char>,
    ball_threshold: int,
    zone: int,
    draws: Seq<u32>,
) -> Seq<char> {
    tail_walk(replay_recorded(recorded, ball_threshold, draws), zone, draws).pitches
}

/// The appearance replayed without the bat: date, batter and event token stay,
/// pitches and outcome are those of the replay.
pub open spec fn without_bat(
    appearance: PlateAppearanceView,
    ball_threshold: int,
    zone: int,
    draws: Seq<u32>,
) -> PlateAppearanceView {
    let pitches = pitches_without_bat(appearance.pitches, ball_threshold, zone, draws);
    PlateAppearanceView {
        date: appearance.date,
        batter: appearance.batter,
        outcome: outcome_after(pitches, appearance.raw_outcome),
        pitches: pitches,
        raw_outcome: appearance.raw_outcome,
    }
}

/// What holds at every point of a replay: every pitch so far was taken, the
/// appearance was not over before the last pitch, the count has not passed
/// four balls or three strikes, and each draw used has added a ball or a
/// strike to the count.
pub open spec fn replay_in_order(replay: Replay) -> bool {
    &&& forall|i: int| 0 <= i < replay.pitches.len() ==> is_taken(#[trigger] replay.pitches[i])
    &&& forall|n: int|
        0 <= n < replay.pitches.len() ==> !is_over(#[trigger] replay.pitches.take(n))
    &&& 0 <= count_after(replay.pitches).balls <= BALLS_FOR_WALK
    &&& 0 <= count_after(replay.pitches).strikes <= STRIKES_FOR_OUT
    &&& 0 <= replay.used <= count_after(replay.pitches).balls + count_after(
        replay.pitches,
    ).strikes
}

/// A replay that is in order and not over stays in order with one more taken
/// pitch.
pub proof fn lemma_replay_step(replay: Replay, pitch: char, draw_used: bool)
    requires
        replay_in_order(replay),
        !is_over(replay.pitches),
        is_taken(pitch),
        draw_used ==> pitch == BALL || pitch == CALLED_STRIKE,
    ensures
        draw_used ==> replay_in_order(replay_at(replay.pitches.push(pitch), replay.used + 1)),
        !draw_used ==> replay_in_order(replay_at(replay.pitches.push(pitch), replay.used)),
        replay.used < MAX_DRAWS,
{
    let next = replay.pitches.push(pitch);
    lemma_count_after_push(replay.pitches, pitch);
    assert forall|n: int| 0 <= n < next.len() implies !is_over(#[trigger] next.take(n)) by {
        if n < replay.pitches.len() {
            assert(next.take(n) == replay.pitches.take(n));
        } else {
            assert(next.take(n) == replay.pitches);
        }
    }
}

/// The replay of the recorded pitches is in order, whatever the draws.
pub proof fn lemma_replay_recorded_in_order(
    recorded: Seq<char>,
    ball_threshold: int,
    draws: Seq<u32>,
)
    ensures
        replay_in_order(replay_recorded(recorded, ball_threshold, draws)),
    decreases recorded.len(),
{
    if recorded.len() > 0 {
        let before = replay_recorded(recorded.drop_last(), ball_threshold, draws);
        lemma_replay_recorded_in_order(recorded.drop_last(), ball_threshold, draws);
        let pitch = recorded.last();
        if !is_over(before.pitches) {
            if is_taken(pitch) {
                lemma_replay_step(before, pitch, false);
            } else if is_swung_at(pitch) {
                lemma_replay_step(
                    before,
                    swing_without_bat(draws[before.used] as int, ball_threshold),
                    true,
                );
            }
        }
    }
}

/// Once the replayed appearance is over, later recorded pitches change
/// nothing.
pub proof fn lemma_replay_recorded_stop(
    recorded: Seq<char>,
    read: int,
    ball_threshold: int,
    draws: Seq<u32>,
)
    requires
        0 <= read <= recorded.len(),
        is_over(replay_recorded(recorded.take(read), ball_threshold, draws).pitches),
    ensures
        replay_recorded(recorded, ball_threshold, draws) == replay_recorded(
            recorded.take(read),
            ball_threshold,
            draws,
        ),
    decreases recorded.len(),
{
    if read == recorded.len() {
        assert(recorded.take(read) == recorded);
    } else {
        assert(recorded.drop_last().take(read) == recorded.take(read));
        lemma_replay_recorded_stop(recorded.drop_last(), read, ball_threshold, draws);
    }
}

/// With `MAX_DRAWS` draws at hand the tail walk never runs out of draws: it
/// ends with the appearance over, and in order.
pub proof fn lemma_tail_walk_ends(replay: Replay, zone: int, draws: Seq<u32>)
    requires
        replay_in_order(replay),
        draws.len() >= MAX_DRAWS,
    ensures
        replay_in_order(tail_walk(replay, zone, draws)),
        is_over(tail_walk(replay, zone, draws).pitches),
        tail_walk(replay, zone, draws).used <= MAX_DRAWS,
    decreases draws.len() - replay.used,
{
    if !is_over(replay.pitches) {
        let pitch = unrecorded_pitch(draws[replay.used] as int, zone);
        lemma_replay_step(replay, pitch, true);
        lemma_tail_walk_ends(
            Replay { pitches: replay.pitches.push(pitch), used: replay.used + 1 },
            zone,
            draws,
        );
    } else {
        if replay.pitches.len() > 0 && replay.pitches.last() != HIT_BY_PITCH {
            assert(replay.pitches.take(replay.pitches.len() - 1) == replay.pitches.drop_last());
            lemma_count_after_push(replay.pitches.drop_last(), replay.pitches.last());
            assert(replay.pitches.drop_last().push(replay.pitches.last()) == replay.pitches);
        }
    }
}

/// How a replay that is over has ended: in a strikeout on three strikes, and
/// in a walk otherwise, whatever the event token is.
pub proof fn lemma_replay_outcome(replay: Replay, raw_outcome: Seq<char>)
    requires
        replay_in_order(replay),
        is_over(replay.pitches),
    ensures
        count_after(replay.pitches).strikes >= STRIKES_FOR_OUT ==> outcome_after(
            replay.pitches,
            raw_outcome,
        ) == STRIKEOUT,
        count_after(replay.pitches).strikes < STRIKES_FOR_OUT ==> outcome_after(
            replay.pitches,
            raw_outcome,
        ) == WALK,
{
    let pitches = replay.pitches;
    if pitches.len() > 0 {
        assert(is_taken(pitches.last()));
        assert(!is_over(pitches.take(pitches.len() - 1)));
        assert(pitches.take(pitches.len() - 1) == pitches.drop_last());
        lemma_count_after_push(pitches.drop_last(), pitches.last());
        assert(pitches.drop_last().push(pitches.last()) == pitches);
    }
}

/// Replaying without the bat gives a complete plate appearance that ends in a
/// walk or a strikeout, holds taken pitches only, and never passes four balls
/// or three strikes, for every recorded sequence, every pair of thresholds
/// and every `MAX_DRAWS` draws.
pub proof fn lemma_without_bat_is_complete(
    appearance: PlateAppearanceView,
    ball_threshold: int,
    zone: int,
    draws: Seq<u32>,
)
    requires
        draws.len() >= MAX_DRAWS,
    ensures
        without_bat(appearance, ball_threshold, zone, draws).is_complete(),
        without_bat(appearance, ball_threshold, zone, draws).outcome == WALK || without_bat(
            appearance,
            ball_threshold,
            zone,
            draws,
        ).outcome == STRIKEOUT,
        forall|i: int|
            0 <= i < without_bat(appearance, ball_threshold, zone, draws).pitches.len()
                ==> is_taken(
                #[trigger] without_bat(appearance, ball_threshold, zone, draws).pitches[i],
            ),
        count_after(without_bat(appearance, ball_threshold, zone, draws).pitches).balls
            <= BALLS_FOR_WALK,
        count_after(without_bat(appearance, ball_threshold, zone, draws).pitches).strikes
            <= STRIKES_FOR_OUT,
{
    let recorded = replay_recorded(appearance.pitches, ball_threshold, draws);
    lemma_replay_recorded_in_order(appearance.pitches, ball_threshold, draws);
    lemma_tail_walk_ends(recorded, zone, draws);
    let replayed = without_bat(appearance, ball_threshold, zone, draws);
    assert(replayed.pitches == tail_walk(recorded, zone, draws).pitches);
    assert forall|i: int| 0 <= i < replayed.pitches.len() implies is_canonical_pitch(
        #[trigger] replayed.pitches[i],
    ) && replayed.pitches[i] != NO_PITCH by {
        assert(is_taken(replayed.pitches[i]));
    }
    if replayed.pitches.len() > 0 {
        assert(is_taken(replayed.pitches.last()));
    }
}

/// With the threshold at nothing, every swung-at pitch becomes a called
/// strike unless the draw is the lowest there is; with the threshold at
/// `FULL_SCALE`, every swung-at pitch becomes a ball.
pub proof fn lemma_threshold_extremes(draw: u32)
    ensures
        draw > 0 ==> swing_without_bat(draw as int, 0) == CALLED_STRIKE,
        draw < FULL_SCALE ==> swing_without_bat(draw as int, FULL_SCALE as int) == BALL,
{
}

/// The recorded pitches with `pitch` in place of every swung-at pitch.
pub open spec fn swings_taken_as(recorded: Seq<char>, pitch: char) -> Seq<char> {
    Seq::new(
        recorded.len(),
        |i: int|
            if is_swung_at(recorded[i]) {
                pitch
            } else {
                recorded[i]
            },
    )
}

/// Where every draw decides a swung-at pitch the same way, the replay of the
/// recorded pitches is the replay of the same pitches with that decision in
/// place of every swing.
pub proof fn lemma_swings_all_alike(
    recorded: Seq<char>,
    ball_threshold: int,
    draws: Seq<u32>,
    pitch: char,
)
    requires
        draws.len() >= MAX_DRAWS,
        pitch == BALL || pitch == CALLED_STRIKE,
        forall|k: int|
            0 <= k < MAX_DRAWS ==> swing_without_bat(#[trigger] draws[k] as int, ball_threshold)
                == pitch,
    ensures
        replay_recorded(recorded, ball_threshold, draws).pitches == replay_recorded(
            swings_taken_as(recorded, pitch),
            ball_threshold,
            draws,
        ).pitches,
    decreases recorded.len(),
{
    if recorded.len() > 0 {
        let taken = swings_taken_as(recorded, pitch);
        assert(taken.drop_last() == swings_taken_as(recorded.drop_last(), pitch));
        lemma_swings_all_alike(recorded.drop_last(), ball_threshold, draws, pitch);
        lemma_replay_recorded_in_order(recorded.drop_last(), ball_threshold, draws);
        let before = replay_recorded(recorded.drop_last(), ball_threshold, draws);
        if !is_over(before.pitches) && is_swung_at(recorded.last()) {
            assert(0 <= before.used < MAX_DRAWS);
            assert(swing_without_bat(draws[before.used] as int, ball_threshold) == pitch);
        }
    }
}

/// With the threshold at `FULL_SCALE`, every swung-at pitch that is replayed
/// becomes a ball.
pub proof fn lemma_threshold_of_everything(recorded: Seq<char>, draws: Seq<u32>)
    requires
        are_draws(draws),
    ensures
        replay_recorded(recorded, FULL_SCALE as int, draws).pitches == replay_recorded(
            swings_taken_as(recorded, BALL),
            FULL_SCALE as int,
            draws,
        ).pitches,
{
    lemma_swings_all_alike(recorded, FULL_SCALE as int, draws, BALL);
}

/// With the threshold at nothing, every swung-at pitch that is replayed
/// becomes a called strike, as long as no draw is the lowest there is.
pub proof fn lemma_threshold_of_nothing(recorded: Seq<char>, draws: Seq<u32>)
    requires
        draws.len() >= MAX_DRAWS,
        forall|k: int| 0 <= k < MAX_DRAWS ==> #[trigger] draws[k] > 0,
    ensures
        replay_recorded(recorded, 0, draws).pitches == replay_recorded(
            swings_taken_as(recorded, CALLED_STRIKE),
            0,
            draws,
        ).pitches,
{
    lemma_swings_all_alike(recorded, 0, draws, CALLED_STRIKE);
}

/// A higher threshold never turns a ball into a strike.
pub proof fn lemma_threshold_monotonic(draw: int, lower: int, higher: int)
    requires
        lower <= higher,
        swing_without_bat(draw, lower) == BALL,
    ensures
        swing_without_bat(draw, higher) == BALL,
{
}

/// The whole-number threshold decides as the exact share does: for a batter
/// who swings at all, a draw is at or below the threshold exactly when
/// `draw / 100%` is at or below `oswing * (100% - zone) / swing`, taken as
/// fractions.
pub proof fn lemma_threshold_is_exact(oswing: int, swing: int, zone: int, draw: int)
    requires
        0 <= oswing,
        0 < swing,
        0 <= draw < FULL_SCALE,
    ensures
        swing_without_bat(draw, ball_threshold_of(oswing, swing, zone)) == BALL <==> draw * swing
            <= oswing * (FULL_SCALE - zone),
{
    let outside_swings = oswing * (FULL_SCALE - zone);
    if outside_swings < 0 {
        assert(draw * swing >= 0) by (nonlinear_arith)
            requires
                draw >= 0,
                swing > 0,
        ;
    } else {
        let quotient = outside_swings / swing;
        assert(draw <= quotient <==> draw * swing <= outside_swings) by (nonlinear_arith)
            requires
                swing > 0,
                outside_swings >= 0,
                quotient == outside_swings / swing,
        ;
    }
}

/// Computes the threshold for a swung-at pitch from the batter's three rates:
/// the share of pitches outside the zone that the batter swings at, the share
/// of all pitches that the batter swings at, and the share of pitches in the
/// zone. It is computed once for a plate appearance.
pub fn ball_threshold(oswing_pct: u32, swing_pct: u32, zone_pct: u32) -> (threshold: i32)
    ensures
        threshold == ball_threshold_of(oswing_pct as int, swing_pct as int, zone_pct as int),
        -1 <= threshold <= FULL_SCALE,
{
    let ghost outside_swings = oswing_pct as int * (FULL_SCALE - zone_pct as int);
    if zone_pct > FULL_SCALE {
        proof {
            assert(oswing_pct > 0 ==> outside_swings < 0) by (nonlinear_arith)
                requires
                    outside_swings == oswing_pct as int * (FULL_SCALE - zone_pct as int),
                    zone_pct > FULL_SCALE,
            ;
            assert(oswing_pct == 0 ==> outside_swings == 0) by (nonlinear_arith)
                requires
                    outside_swings == oswing_pct as int * (FULL_SCALE - zone_pct as int),
            ;
        }
        if oswing_pct > 0 || swing_pct == 0 {
            -1
        } else {
            0
        }
    } else {
        let outside: u64 = FULL_SCALE as u64 - zone_pct as u64;
        proof {
            assert(0 <= oswing_pct as int * outside as int <= 0xffff_ffff * 10_000)
                by (nonlinear_arith)
                requires
                    0 <= oswing_pct <= 0xffff_ffff,
                    0 <= outside <= 10_000,
            ;
        }
        let product: u64 = oswing_pct as u64 * outside;
        if swing_pct == 0 {
            if product > 0 {
                FULL_SCALE as i32
            } else {
                -1
            }
        } else {
            let quotient: u64 = product / swing_pct as u64;
            if quotient > FULL_SCALE as u64 {
                FULL_SCALE as i32
            } else {
                quotient as i32
            }
        }
    }
}

/// Decides what a swung-at pitch becomes without the bat.
pub fn resolve_swing(draw: u32, ball_threshold: i32) -> (pitch: char)
    ensures
        pitch == swing_without_bat(draw as int, ball_threshold as int),
{
    if draw as i64 <= ball_threshold as i64 {
        BALL
    } else {
        CALLED_STRIKE
    }
}

/// Decides what a pitch thrown after the recorded ones is.
pub fn resolve_unrecorded(draw: u32, zone_pct: u32) -> (pitch: char)
    ensures
        pitch == unrecorded_pitch(draw as int, zone_pct as int),
{
    if draw <= zone_pct {
        CALLED_STRIKE
    } else {
        BALL
    }
}

/// One draw from `rand`'s generator of the current thread, by
/// `Rng::gen_range` on the range from zero up to, not including, `limit`.
/// The contract claims what `gen_range` documents of every outcome: the value
/// lies in the range. That the draws are uniform and independent is not
/// stated, and nothing here is proved from it.
#[verifier::external_body]
fn uniform_below(limit: u32) -> (draw: u32)
    requires
        limit > 0,
    ensures
        draw < limit,
{
    rand::thread_rng().gen_range(0..limit)
}

/// Throws further pitches until the count is full, and says how the
/// appearance ended. `balls` and `strikes` are the count after `pitches`.
fn simulate_until_outcome(
    zone_pct: u32,
    balls: u8,
    strikes: u8,
    pitches: &mut Vec<char>,
    draws: &[u32; MAX_DRAWS],
    used: usize,
) -> (outcome: char)
    requires
        replay_in_order(replay_at(old(pitches)@, used as int)),
        !is_over(old(pitches)@),
        balls == count_after(old(pitches)@).balls,
        strikes == count_after(old(pitches)@).strikes,
    ensures
        final(pitches)@ == tail_walk(
            replay_at(old(pitches)@, used as int),
            zone_pct as int,
            draws@,
        ).pitches,
        count_after(final(pitches)@).is_full(),
        count_after(final(pitches)@).balls >= BALLS_FOR_WALK ==> outcome == WALK,
        count_after(final(pitches)@).balls < BALLS_FOR_WALK ==> outcome == STRIKEOUT,
{
    let mut balls = balls;
    let mut strikes = strikes;
    let mut used = used;
    let ghost start = replay_at(pitches@, used as int);
    while balls < BALLS_FOR_WALK && strikes < STRIKES_FOR_OUT
        invariant
            draws@.len() == MAX_DRAWS,
            replay_in_order(replay_at(pitches@, used as int)),
            pitches@.len() > 0 ==> !ends_appearance(pitches@.last()),
            balls == count_after(pitches@).balls,
            strikes == count_after(pitches@).strikes,
            tail_walk(replay_at(pitches@, used as int), zone_pct as int, draws@) == tail_walk(
                start,
                zone_pct as int,
                draws@,
            ),
        decreases BALLS_FOR_WALK + STRIKES_FOR_OUT - balls - strikes,
    {
        proof {
            lemma_replay_step(
                replay_at(pitches@, used as int),
                unrecorded_pitch(draws@[used as int] as int, zone_pct as int),
                true,
            );
            lemma_count_after_push(
                pitches@,
                unrecorded_pitch(draws@[used as int] as int, zone_pct as int),
            );
        }
        let pitch = resolve_unrecorded(draws[used], zone_pct);
        used += 1;
        pitches.push(pitch);
        if pitch == BALL {
            balls += 1;
        } else {
            strikes += 1;
        }
    }
    if balls == BALLS_FOR_WALK {
        WALK
    } else {
        STRIKEOUT
    }
}

/// Replays a plate appearance without the bat, with the draws given. The
/// batter's three rates are in hundredths of a percent. The draws are used in
/// order, one for each swung-at pitch that is replayed and then one for each
/// pitch thrown after the recorded ones: never one draw twice, and never more
/// than `MAX_DRAWS`.
pub fn resimulate_with_draws(
    appearance: &PlateAppearance,
    oswing_pct: u32,
    swing_pct: u32,
    zone_pct: u32,
    draws: &[u32; MAX_DRAWS],
) -> (replayed: PlateAppearance)
    ensures
        replayed@ == without_bat(
            appearance@,
            ball_threshold_of(oswing_pct as int, swing_pct as int, zone_pct as int),
            zone_pct as int,
            draws@,
        ),
        replayed@.is_complete(),
        replayed@.outcome == WALK || replayed@.outcome == STRIKEOUT,
        forall|i: int| 0 <= i < replayed@.pitches.len() ==> is_taken(#[trigger] replayed@.pitches[i]),
        count_after(replayed@.pitches).balls <= BALLS_FOR_WALK,
        count_after(replayed@.pitches).strikes <= STRIKES_FOR_OUT,
{
    let threshold = ball_threshold(oswing_pct, swing_pct, zone_pct);
    let recorded = appearance.get_pitches();
    let mut pitches: Vec<char> = Vec::new();
    let mut balls: u8 = 0;
    let mut strikes: u8 = 0;
    let mut used: usize = 0;
    let mut over: bool = false;
    let mut i: usize = 0;
    while i < recorded.len() && !over
        invariant
            i <= recorded.len(),
            draws@.len() == MAX_DRAWS,
            replay_at(pitches@, used as int) == replay_recorded(
                recorded@.take(i as int),
                threshold as int,
                draws@,
            ),
            replay_in_order(replay_at(pitches@, used as int)),
            balls == count_after(pitches@).balls,
            strikes == count_after(pitches@).strikes,
            over == is_over(pitches@),
        decreases recorded.len() - i,
    {
        let pitch = recorded[i];
        proof {
            assert(recorded@.take(i as int + 1).drop_last() == recorded@.take(i as int));
            assert(recorded@.take(i as int + 1).last() == pitch);
            lemma_replay_recorded_in_order(recorded@.take(i as int + 1), threshold as int, draws@);
        }
        if pitch == BALL || pitch == INTENTIONAL_BALL {
            proof {
                lemma_count_after_push(pitches@, pitch);
            }
            pitches.push(pitch);
            balls += 1;
        } else if pitch == CALLED_STRIKE {
            proof {
                lemma_count_after_push(pitches@, pitch);
            }
            pitches.push(pitch);
            strikes += 1;
        } else if pitch == HIT_BY_PITCH {
            proof {
                lemma_count_after_push(pitches@, pitch);
            }
            pitches.push(pitch);
            over = true;
        } else if pitch == SWING || pitch == IN_PLAY {
            proof {
                let thrown = swing_without_bat(draws@[used as int] as int, threshold as int);
                lemma_replay_step(replay_at(pitches@, used as int), thrown, true);
                lemma_count_after_push(pitches@, thrown);
            }
            let thrown = resolve_swing(draws[used], threshold);
            used += 1;
            pitches.push(thrown);
            if thrown == BALL {
                balls += 1;
            } else {
                strikes += 1;
            }
        }
        if balls == BALLS_FOR_WALK || strikes == STRIKES_FOR_OUT {
            over = true;
        }
        i += 1;
    }
    proof {
        if over {
            lemma_replay_recorded_stop(recorded@, i as int, threshold as int, draws@);
        } else {
            assert(recorded@.take(i as int) == recorded@);
        }
        lemma_without_bat_is_complete(appearance@, threshold as int, zone_pct as int, draws@);
        assert(replay_at(pitches@, used as int) == replay_recorded(
            recorded@,
            threshold as int,
            draws@,
        ));
        if over {
            lemma_replay_outcome(replay_at(pitches@, used as int), appearance@.raw_outcome);
        }
    }
    let ghost after_recorded = replay_at(pitches@, used as int);
    let outcome = if over {
        if strikes == STRIKES_FOR_OUT {
            STRIKEOUT
        } else {
            WALK
        }
    } else {
        simulate_until_outcome(zone_pct, balls, strikes, &mut pitches, draws, used)
    };
    proof {
        let ended = tail_walk(after_recorded, zone_pct as int, draws@);
        assert(pitches@ == ended.pitches);
        lemma_tail_walk_ends(after_recorded, zone_pct as int, draws@);
        lemma_replay_outcome(ended, appearance@.raw_outcome);
    }
    PlateAppearance::new(
        appearance.get_date().clone(),
        appearance.get_batter().clone(),
        outcome,
        pitches,
        appearance.get_raw_outcome().clone(),
    )
}

/// Replays a plate appearance without the bat, with draws of its own from the
/// random generator of the current thread. The batter's three rates are in
/// hundredths of a percent.
///
/// Whatever is drawn, the result is the replay for some `MAX_DRAWS` draws
/// below `FULL_SCALE`, and so a complete plate appearance that ends in a walk
/// or a strikeout.
pub fn simulate_plate_appearance_no_bat(
    appearance: &PlateAppearance,
    oswing_pct: u32,
    swing_pct: u32,
    zone_pct: u32,
) -> (replayed: PlateAppearance)
    ensures
        exists|draws: Seq<u32>|
            are_draws(draws) && replayed@ == #[trigger] without_bat(
                appearance@,
                ball_threshold_of(oswing_pct as int, swing_pct as int, zone_pct as int),
                zone_pct as int,
                draws,
            ),
        replayed@.is_complete(),
        replayed@.outcome == WALK || replayed@.outcome == STRIKEOUT,
        forall|i: int| 0 <= i < replayed@.pitches.len() ==> is_taken(#[trigger] replayed@.pitches[i]),
        count_after(replayed@.pitches).balls <= BALLS_FOR_WALK,
        count_after(replayed@.pitches).strikes <= STRIKES_FOR_OUT,
        replayed@.date == appearance@.date,
        replayed@.batter == appearance@.batter,
        replayed@.raw_outcome == appearance@.raw_outcome,
{
    let draws: [u32; MAX_DRAWS] = [
        uniform_below(FULL_SCALE),
        uniform_below(FULL_SCALE),
        uniform_below(FULL_SCALE),
        uniform_below(FULL_SCALE),
        uniform_below(FULL_SCALE),
        uniform_below(FULL_SCALE),
    ];
    resimulate_with_draws(appearance, oswing_pct, swing_pct, zone_pct, &draws)
}

} // verus!
