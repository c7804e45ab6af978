use no_bat_simulator::{
    find_plate_discipline, find_player_id, plate_appearances_in, player_names_in, read_record,
    split_player_name_into_first_and_last, Date, DateError, PlateAppearance, Record, RecordError,
};

fn names(player_name: &str) -> (String, String) {
    split_player_name_into_first_and_last(&player_name.to_string())
}

#[test]
fn name_is_split_at_its_first_space() {
    assert_eq!(names("Juan Soto"), ("Juan".to_string(), "Soto".to_string()));
    assert_eq!(names("Ronald Acuna Jr."), ("Ronald".to_string(), "Acuna Jr.".to_string()));
    assert_eq!(names("Elly De La Cruz"), ("Elly".to_string(), "De La Cruz".to_string()));
}

#[test]
fn name_without_a_space_has_no_last_name() {
    assert_eq!(names("Ichiro"), ("Ichiro".to_string(), "".to_string()));
    assert_eq!(names(""), ("".to_string(), "".to_string()));
}

#[test]
fn name_with_spaces_in_odd_places() {
    assert_eq!(names(" Soto"), ("".to_string(), "Soto".to_string()));
    assert_eq!(names("Juan "), ("Juan".to_string(), "".to_string()));
    assert_eq!(names("Juan  Soto"), ("Juan".to_string(), " Soto".to_string()));
    assert_eq!(names("   "), ("".to_string(), "  ".to_string()));
}

#[test]
fn name_split_agrees_with_split_and_join() {
    for name in ["Juan Soto", "A B C D", "x", "", " ", "  a  b  ", "Shohei Ohtani", "é ü ö"] {
        let parts: Vec<&str> = name.split(' ').collect();
        let expected = (parts[0].to_string(), parts[1..].join(" "));
        assert_eq!(names(name), expected);
    }
}

const ROSTER: &str = "abrac001,Abrams,CJ,L,R,WAS,SS\r\n\
garcl006,Garcia,Luis,L,R,WAS,2B\r\n\
sotoj001,Soto,Juan,L,L,WAS,OF\r\n\
short,line\r\n\
garcl099,Garcia,Luis,R,R,WAS,P\r\n\
delae003,De La Cruz,Elly,B,R,WAS,SS\r\n";

#[test]
fn player_is_found_in_the_roster() {
    assert_eq!(find_player_id(ROSTER, &"Juan Soto".to_string()), "sotoj001");
    assert_eq!(find_player_id(ROSTER, &"CJ Abrams".to_string()), "abrac001");
    assert_eq!(find_player_id(ROSTER, &"Elly De La Cruz".to_string()), "delae003");
}

#[test]
fn first_entry_of_the_player_decides() {
    assert_eq!(find_player_id(ROSTER, &"Luis Garcia".to_string()), "garcl006");
}

#[test]
fn player_not_in_the_roster_has_no_identifier() {
    assert_eq!(find_player_id(ROSTER, &"Bryce Harper".to_string()), "");
    assert_eq!(find_player_id(ROSTER, &"Soto Juan".to_string()), "");
    assert_eq!(find_player_id(ROSTER, &"juan soto".to_string()), "");
    assert_eq!(find_player_id("", &"Juan Soto".to_string()), "");
    assert_eq!(find_player_id(ROSTER, &"line".to_string()), "");
}

#[test]
fn roster_entry_of_three_fields_keeps_its_line_end() {
    // The first name is the whole third field.
    assert_eq!(find_player_id("sotoj001,Soto,Juan\r\n", &"Juan Soto".to_string()), "");
    assert_eq!(find_player_id("sotoj001,Soto,Juan\n", &"Juan Soto".to_string()), "sotoj001");
    assert_eq!(find_player_id("sotoj001,Soto,Juan", &"Juan Soto".to_string()), "sotoj001");
}

#[test]
fn players_of_a_roster() {
    assert_eq!(player_names_in(ROSTER), vec![
        "CJ Abrams".to_string(),
        "Luis Garcia".to_string(),
        "Juan Soto".to_string(),
        "Luis Garcia".to_string(),
        "Elly De La Cruz".to_string(),
    ]);
    assert_eq!(player_names_in(""), Vec::<String>::new());
    assert_eq!(player_names_in("a,b\nc\n\n"), Vec::<String>::new());
    assert_eq!(player_names_in("id,Last,First"), vec!["First Last".to_string()]);
}

fn chars(text: &str) -> Vec<char> {
    text.chars().collect()
}

fn read(line: &str) -> Result<Record, RecordError> {
    read_record(&chars(line), &Date::new(2023, 4, 1), &chars("sotoj001"), &"Juan Soto".to_string())
}

#[test]
fn record_of_a_game_date() {
    assert_eq!(read("info,date,2023/04/02\r"), Ok(Record::GameDate(Date::new(2023, 4, 2))));
    assert_eq!(read("info,date,1999/10/3,x\r"), Ok(Record::GameDate(Date::new(1999, 10, 3))));
}

#[test]
fn record_of_a_plate_appearance() {
    let expected = PlateAppearance::new(
        Date::new(2023, 4, 1),
        "Juan Soto".to_string(),
        'S',
        vec!['B', 'C', 'F', 'X'],
        "S7/G".to_string(),
    );
    assert_eq!(read("play,1,0,sotoj001,12,BCFX,S7/G\r"), Ok(Record::Appearance(expected)));
}

#[test]
fn last_character_of_a_line_is_dropped() {
    // Without a line end the event token loses its last character.
    let read = read("play,1,0,sotoj001,12,BCFX,S7/G").unwrap();
    match read {
        Record::Appearance(appearance) => assert_eq!(appearance.get_raw_outcome(), "S7/"),
        _ => panic!("no plate appearance"),
    }
}

#[test]
fn records_that_say_nothing_of_the_batter() {
    assert_eq!(read(""), Ok(Record::Other));
    assert_eq!(read("\r"), Ok(Record::Other));
    assert_eq!(read("id,WAS202304010\r"), Ok(Record::Other));
    assert_eq!(read("info,visteam,ATL\r"), Ok(Record::Other));
    assert_eq!(read("start,sotoj001,\"Juan Soto\",1,2,7\r"), Ok(Record::Other));
    assert_eq!(read("play,1,0,abrac001,12,BCFX,S7/G\r"), Ok(Record::Other));
    assert_eq!(read("play,1,0,abrac001\r"), Ok(Record::Other));
    assert_eq!(read("Play,1,0,sotoj001,12,BCFX,S7/G\r"), Ok(Record::Other));
}

#[test]
fn incomplete_plate_appearances_say_nothing() {
    assert_eq!(read("play,1,0,sotoj001,12,BCB,NP\r"), Ok(Record::Other));
    assert_eq!(read("play,1,0,sotoj001,??,,NP\r"), Ok(Record::Other));
    assert_eq!(read("play,1,0,sotoj001,12,BX,\r"), Ok(Record::Other));
}

#[test]
fn records_with_a_missing_field() {
    assert_eq!(read("info\r"), Err(RecordError::MissingField));
    assert_eq!(read("info,date\r"), Err(RecordError::MissingField));
    assert_eq!(read("play\r"), Err(RecordError::MissingField));
    assert_eq!(read("play,1,0\r"), Err(RecordError::MissingField));
    assert_eq!(read("play,1,0,sotoj001\r"), Err(RecordError::MissingField));
    assert_eq!(read("play,1,0,sotoj001,12,BCFX\r"), Err(RecordError::MissingField));
}

#[test]
fn records_with_a_bad_date() {
    assert_eq!(read("info,date,\r"), Err(RecordError::Date(DateError::InvalidYear)));
    assert_eq!(read("info,date,2023/04\r"), Err(RecordError::Date(DateError::MissingField)));
    assert_eq!(read("info,date,2023/xx/01\r"), Err(RecordError::Date(DateError::InvalidMonth)));
    assert_eq!(read("info,date,2023/04/0x\r"), Err(RecordError::Date(DateError::InvalidDay)));
}

const EVENTS: &str = "id,WAS202304010\r\n\
version,2\r\n\
info,visteam,ATL\r\n\
info,date,2023/04/01\r\n\
play,1,0,acunr001,22,BCBFX,63/G\r\n\
play,1,1,sotoj001,32,BCBFBX,S7/G\r\n\
play,3,1,sotoj001,30,BBBB,W\r\n\
play,5,1,sotoj001,00,,NP\r\n\
play,5,1,sotoj001,12,CBFS*FC,K\r\n\
id,WAS202304020\r\n\
info,date,2023/04/02\r\n\
play,2,1,sotoj001,01,CH,HP\r\n\
play,4,1,sotoj001,11,BCX,8/F\r\n\
play,6,1,garcl006,11,BCX,D9\r\n";

fn appearance(date: Date, outcome: char, pitches: &str, token: &str) -> PlateAppearance {
    PlateAppearance::new(date, "Juan Soto".to_string(), outcome, chars(pitches), token.to_string())
}

#[test]
fn plate_appearances_of_a_batter_in_an_event_file() {
    let found = plate_appearances_in(EVENTS, &"sotoj001".to_string(), &"Juan Soto".to_string());
    let first = Date::new(2023, 4, 1);
    let second = Date::new(2023, 4, 2);
    assert_eq!(found, Ok(vec![
        appearance(first, 'S', "BCBFBX", "S7/G"),
        appearance(first, 'W', "BBBB", "W"),
        appearance(first, 'K', "CBFFFC", "K"),
        appearance(second, 'W', "CH", "HP"),
        appearance(second, 'O', "BCX", "8/F"),
    ]));
}

#[test]
fn batter_who_is_not_in_the_file() {
    assert_eq!(
        plate_appearances_in(EVENTS, &"harpb003".to_string(), &"Bryce Harper".to_string()),
        Ok(Vec::new())
    );
    assert_eq!(plate_appearances_in("", &"sotoj001".to_string(), &"Juan Soto".to_string()), Ok(Vec::new()));
}

#[test]
fn plays_before_any_date_have_the_date_of_nothing() {
    let found = plate_appearances_in(
        "play,1,1,sotoj001,30,BBBB,W\r\n",
        &"sotoj001".to_string(),
        &"Juan Soto".to_string(),
    );
    assert_eq!(found, Ok(vec![appearance(Date::new(0, 0, 0), 'W', "BBBB", "W")]));
}

#[test]
fn first_bad_record_refuses_the_file() {
    let id = "sotoj001".to_string();
    let name = "Juan Soto".to_string();
    assert_eq!(
        plate_appearances_in("play,1,1,sotoj001,30,BBBB,W\r\ninfo,date,20x3/04/01\r\nplay\r\n", &id, &name),
        Err(RecordError::Date(DateError::InvalidYear))
    );
    assert_eq!(
        plate_appearances_in("info,date,2023/04/01\r\nplay,1,1,sotoj001\r\ninfo,date,\r\n", &id, &name),
        Err(RecordError::MissingField)
    );
}

const DISCIPLINE: &str = "#\tName\tTeam\tO-Swing%\tZ-Swing%\tSwing%\tO-Contact%\tZ-Contact%\tContact%\tZone%\r\r\n\
1\tJuan Soto\tSDP\t19.9%\t59.5%\t35.5%\t71.2%\t87.4%\t81.6%\t39.4%\r\r\n\
2\tLuis Arraez\tMIA\t33.5%\t64.6%\t47.1%\t91.4%\t95.0%\t93.4%\t43.8%\r\r\n\
short\tline\r\r\n\
3\tJuan Soto\tSDP\t1.0%\t2.0%\t3.0%\t4.0%\t5.0%\t6.0%\t7.0%\r\r\n";

#[test]
fn plate_discipline_of_a_player() {
    assert_eq!(
        find_plate_discipline(DISCIPLINE, &"Luis Arraez".to_string()),
        Some(("33.5".to_string(), "47.1".to_string(), "43.8".to_string()))
    );
}

#[test]
fn first_line_of_the_player_decides() {
    assert_eq!(
        find_plate_discipline(DISCIPLINE, &"Juan Soto".to_string()),
        Some(("19.9".to_string(), "35.5".to_string(), "39.4".to_string()))
    );
}

#[test]
fn player_without_plate_discipline() {
    assert_eq!(find_plate_discipline(DISCIPLINE, &"Bryce Harper".to_string()), None);
    assert_eq!(find_plate_discipline(DISCIPLINE, &"line".to_string()), None);
    assert_eq!(find_plate_discipline("", &"Juan Soto".to_string()), None);
}

#[test]
fn header_of_the_table_is_a_line_like_any_other() {
    assert_eq!(
        find_plate_discipline(DISCIPLINE, &"Name".to_string()),
        Some(("O-Swing".to_string(), "Swing".to_string(), "Zone".to_string()))
    );
}

#[test]
fn short_entries_lose_what_they_have() {
    let table = "1\tX\tT\t\t-\t%\t-\t-\t-\t9\n";
    assert_eq!(
        find_plate_discipline(table, &"X".to_string()),
        Some(("".to_string(), "".to_string(), "".to_string()))
    );
}
