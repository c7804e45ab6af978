//! Plate appearances with and without the bat.
//!
//! The library rebuilds a batter's plate appearances from pitch-by-pitch play
//! records, replays each of them as if the batter had never swung, and tallies
//! how often the batter reached base either way.

pub mod appearance;
pub mod count;
pub mod date;
pub mod no_bat;
pub mod on_base;
pub mod records;
pub mod taxonomy;
pub mod text;

pub use appearance::PlateAppearance;
pub use count::{build_plate_appearance, count_pitches};
pub use date::{convert_string_to_date, Date, DateError};
pub use on_base::{
    calculate_obp, calculate_obp_from_raw_outcomes, is_error, sum_strikeouts, sum_walks, OnBaseTally,
    RateError,
};
pub use no_bat::{resimulate_with_draws, simulate_plate_appearance_no_bat};
pub use records::{
    find_plate_discipline, find_player_id, plate_appearances_in, player_names_in, read_record,
    split_player_name_into_first_and_last, Record, RecordError,
};
pub use taxonomy::{
    is_ball, is_ball_put_into_play_or_hit_by_pitch, is_foul, is_strike, simplify_outcome_codes,
    simplify_pitch_codes,
};
