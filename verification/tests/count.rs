use no_bat_simulator::{build_plate_appearance, count_pitches, Date, PlateAppearance};

fn build(raw_pitches: &str, raw_outcome: &str) -> Option<PlateAppearance> {
    let pitches: Vec<char> = raw_pitches.chars().collect();
    build_plate_appearance(
        &pitches,
        raw_outcome.to_string(),
        Date::new(2023, 4, 1),
        "Juan Soto".to_string(),
    )
}

fn pitches_and_outcome(raw_pitches: &str, raw_outcome: &str) -> Option<(String, char)> {
    build(raw_pitches, raw_outcome)
        .map(|built| (built.get_pitches().iter().collect::<String>(), *built.get_outcome()))
}

#[test]
fn ball_in_play_ends_the_appearance_with_the_outcome_of_the_token() {
    let built = build("BCFX", "S").unwrap();
    assert_eq!(built.get_pitches(), &vec!['B', 'C', 'F', 'X']);
    assert_eq!(*built.get_outcome(), 'S');
    assert_eq!(built.get_raw_outcome(), "S");
    assert_eq!(built.get_batter(), "Juan Soto");
    assert_eq!(*built.get_date(), Date::new(2023, 4, 1));
}

#[test]
fn event_token_is_kept_whole() {
    let built = build("CX", "D7/L.1-3").unwrap();
    assert_eq!(*built.get_outcome(), 'D');
    assert_eq!(built.get_raw_outcome(), "D7/L.1-3");
    assert_eq!(pitches_and_outcome("X", "63/G"), Some(("X".to_string(), 'O')));
    assert_eq!(pitches_and_outcome("X", "E6"), Some(("X".to_string(), 'E')));
    assert_eq!(pitches_and_outcome("X", "HR/F"), Some(("X".to_string(), 'H')));
    assert_eq!(pitches_and_outcome("X", "FLE5"), Some(("X".to_string(), 'O')));
}

#[test]
fn four_balls_are_a_walk() {
    assert_eq!(pitches_and_outcome("BBBB", "W"), Some(("BBBB".to_string(), 'W')));
    assert_eq!(pitches_and_outcome("BCBIB", "W"), Some(("BCBIB".to_string(), 'W')));
    assert_eq!(pitches_and_outcome("PVBB", "anything"), Some(("BBBB".to_string(), 'W')));
}

#[test]
fn three_strikes_are_a_strikeout() {
    assert_eq!(pitches_and_outcome("CCC", "K"), Some(("CCC".to_string(), 'K')));
    assert_eq!(pitches_and_outcome("ASC", "K"), Some(("CFC".to_string(), 'K')));
    assert_eq!(pitches_and_outcome("BFFFFC", "K"), Some(("BFFFFC".to_string(), 'K')));
}

#[test]
fn foul_is_never_the_third_strike() {
    assert_eq!(pitches_and_outcome("FFF", "K"), None);
    assert_eq!(pitches_and_outcome("CCFFFF", "K"), None);
    assert_eq!(pitches_and_outcome("SST", "K"), None);
    assert_eq!(pitches_and_outcome("CFSX", "S"), Some(("CFFX".to_string(), 'S')));
}

#[test]
fn scanning_stops_when_the_appearance_is_over() {
    assert_eq!(pitches_and_outcome("BBBBCCC", "W"), Some(("BBBB".to_string(), 'W')));
    assert_eq!(pitches_and_outcome("CCCBBBB", "K"), Some(("CCC".to_string(), 'K')));
    assert_eq!(pitches_and_outcome("XBBBB", "S"), Some(("X".to_string(), 'S')));
    assert_eq!(pitches_and_outcome("HX", "S"), Some(("H".to_string(), 'W')));
    assert_eq!(pitches_and_outcome("BX", "?").is_none(), true);
    assert_eq!(pitches_and_outcome("XCCC", "?"), None);
}

#[test]
fn hit_by_pitch_ends_the_appearance_in_a_walk() {
    for token in ["HP", "S", "K", "", "?", "63"] {
        assert_eq!(pitches_and_outcome("CBH", token), Some(("CBH".to_string(), 'W')));
    }
}

#[test]
fn unknown_codes_are_dropped() {
    assert_eq!(pitches_and_outcome("*B.C>N+FU1X", "S"), Some(("BCFX".to_string(), 'S')));
    assert_eq!(pitches_and_outcome("zzBzzBzzBzzB", ""), Some(("BBBB".to_string(), 'W')));
    let built = build("N*U.B>C1X", "T").unwrap();
    assert!(built.get_pitches().iter().all(|pitch| *pitch != 'N'));
}

#[test]
fn incomplete_records_are_refused() {
    assert_eq!(pitches_and_outcome("", "S"), None);
    assert_eq!(pitches_and_outcome("BBB", "W"), None);
    assert_eq!(pitches_and_outcome("CC", "K"), None);
    assert_eq!(pitches_and_outcome("BCBCB", "S"), None);
    assert_eq!(pitches_and_outcome("NNNN", "W"), None);
}

#[test]
fn ball_in_play_with_an_unknown_token_is_refused() {
    assert_eq!(pitches_and_outcome("X", ""), None);
    assert_eq!(pitches_and_outcome("X", "NP"), None);
    assert_eq!(pitches_and_outcome("BBBX", "C/E2"), None);
    assert_eq!(pitches_and_outcome("X", "s"), None);
}

#[test]
fn count_never_passes_four_balls_or_three_strikes() {
    let alphabet = ['B', 'C', 'F', 'I', 'S', 'P', 'N', 'X', 'H', 'q'];
    let mut state: u32 = 12345;
    for _ in 0..2000 {
        let mut raw = String::new();
        for _ in 0..12 {
            state = state.wrapping_mul(1664525).wrapping_add(1013904223);
            raw.push(alphabet[(state >> 16) as usize % alphabet.len()]);
        }
        if let Some(built) = build(&raw, "S") {
            let pitches = built.get_pitches();
            let balls = pitches.iter().filter(|pitch| **pitch == 'B' || **pitch == 'I').count();
            let called = pitches.iter().filter(|pitch| **pitch == 'C').count();
            assert!(balls <= 4);
            assert!(called <= 3);
            assert!(pitches.iter().all(|pitch| matches!(pitch, 'B' | 'C' | 'F' | 'H' | 'I' | 'X')));
            let last = *pitches.last().unwrap();
            if last == 'H' {
                assert_eq!(*built.get_outcome(), 'W');
            }
            assert!(matches!(built.get_outcome(), 'S' | 'W' | 'K'));
        }
    }
}

fn count(pitches: &str) -> (usize, usize) {
    count_pitches(&pitches.chars().collect())
}

#[test]
fn count_when_the_ball_is_put_in_play() {
    let built = build("BCFX", "S").unwrap();
    assert_eq!(count_pitches(built.get_pitches()), (1, 2));
}

#[test]
fn count_of_balls_and_strikes() {
    assert_eq!(count(""), (0, 0));
    assert_eq!(count("B"), (1, 0));
    assert_eq!(count("I"), (1, 0));
    assert_eq!(count("C"), (0, 1));
    assert_eq!(count("F"), (0, 1));
    assert_eq!(count("BIBC"), (3, 1));
    assert_eq!(count("HXN?"), (0, 0));
}

#[test]
fn fouls_stop_counting_at_two_strikes() {
    assert_eq!(count("FF"), (0, 2));
    assert_eq!(count("FFFFFF"), (0, 2));
    assert_eq!(count("CFF"), (0, 2));
    assert_eq!(count("CCF"), (0, 2));
    assert_eq!(count("FFC"), (0, 3));
    assert_eq!(count("FCFBF"), (1, 2));
}

#[test]
fn swings_on_a_pitchout_count_as_swings() {
    assert_eq!(pitches_and_outcome("QQQ", "K"), None);
    assert_eq!(pitches_and_outcome("RQC", "K"), Some(("FFC".to_string(), 'K')));
    assert_eq!(pitches_and_outcome("PQPRPP", "W"), Some(("BFBFBB".to_string(), 'W')));
    assert_eq!(pitches_and_outcome("QRRQX", "S"), Some(("FFFFX".to_string(), 'S')));
}
