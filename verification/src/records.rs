//! Play records as text: rosters, event files and tables of plate discipline.
//!
//! A file is a run of lines, a line a run of fields. The functions here take
//! the text of a file and say what it holds; reading the file is the caller's
//! part.

use vstd::prelude::*;
use crate::appearance::{PlateAppearance, PlateAppearanceView};
use crate::count::{build_plate_appearance, kept_pitches, outcome_after};
use crate::date::{date_from_chars, date_of_token, Date, DateError, DateView};
use crate::taxonomy::UNKNOWN_OUTCOME;
use crate::text::{
    chars_of, drop_last_char, field_views, fields_of, joined, lemma_field_views, same_chars,
    split_fields, string_of, without_last,
};

verus! {

/// Why an event file was refused.
#[derive(Clone, Copy, Debug, PartialEq, Eq, Structural)]
pub enum RecordError {
    /// A record of a game's date holds no date.
    Date(DateError),
    /// A record has fewer fields than its kind needs.
    MissingField,
}

/// What one line of an event file adds to what is known.
#[derive(Clone, Debug, PartialEq, Eq)]
pub enum Record {
    /// The line says nothing of the batter.
    Other,
    /// The line gives the date of the game that the following plays belong to.
    GameDate(Date),
    /// The line is a complete plate appearance of the batter.
    Appearance(PlateAppearance),
}

/// What a `Record` holds.
pub enum RecordView {
    Other,
    GameDate(DateView),
    Appearance(PlateAppearanceView),
}

impl View for Record {
    type V = RecordView;

    open spec fn view(&self) -> RecordView {
        match self {
            Record::Other => RecordView::Other,
            Record::GameDate(date) => RecordView::GameDate(date@),
            Record::Appearance(appearance) => RecordView::Appearance(appearance@),
        }
    }
}

/// The lines of a file.
pub open spec fn lines_of(text: Seq<char>) -> Seq<Seq<char>> {
    fields_of(text, '\n')
}

/// The first name of a player: the name up to its first space.
pub open spec fn first_name_of(name: Seq<char>) -> Seq<char> {
    fields_of(name, ' ')[0]
}

/// The last name of a player: all that follows the first space of the name.
pub open spec fn last_name_of(name: Seq<char>) -> Seq<char> {
    joined(fields_of(name, ' ').skip(1), ' ')
}

/// Whether a roster entry is that of the player with these names. An entry
/// holds the player's identifier, last name and first name, in this order.
pub open spec fn is_roster_entry_of(entry: Seq<Seq<char>>, first: Seq<char>, last: Seq<char>) -> bool {
    entry.len() >= 3 && entry[1] == last && entry[2] == first
}

/// The identifier of the player in the first roster line that is an entry of
/// the player; empty if there is no such line.
pub open spec fn player_id_in(lines: Seq<Seq<char>>, first: Seq<char>, last: Seq<char>) -> Seq<char>
    decreases lines.len(),
{
    if lines.len() == 0 {
        Seq::<char>::empty()
    } else if is_roster_entry_of(fields_of(lines[0], ','), first, last) {
        fields_of(lines[0], ',')[0]
    } else {
        player_id_in(lines.skip(1), first, last)
    }
}

/// The names of the players of a roster, first name first, in the order of
/// the lines. Lines with fewer than three fields name no player.
pub open spec fn roster_names(lines: Seq<Seq<char>>) -> Seq<Seq<char>>
    decreases lines.len(),
{
    if lines.len() == 0 {
        Seq::<Seq<char>>::empty()
    } else {
        let entry = fields_of(lines.last(), ',');
        if entry.len() >= 3 {
            roster_names(lines.drop_last()).push(entry[2].push(' ') + entry[1])
        } else {
            roster_names(lines.drop_last())
        }
    }
}

/// The strings of a vector, each by its view.
pub open spec fn string_views(strings: Seq<String>) -> Seq<Seq<char>> {
    Seq::new(strings.len(), |i: int| strings[i]@)
}

/// The plate appearances of a vector, each by its view.
pub open spec fn appearance_views(appearances: Seq<PlateAppearance>) -> Seq<PlateAppearanceView> {
    Seq::new(appearances.len(), |i: int| appearances[i]@)
}

/// What one line of an event file says, read for one batter while the date of
/// the game is `date`. The line is taken without its last character, which
/// ends the line, and split at commas.
///
/// An `info` record whose second field is `date` gives the date of the game
/// in its third field. A `play` record whose fourth field is the batter's
/// identifier holds the raw pitches in its sixth field and the event token in
/// its seventh; if they make a complete plate appearance, that is what the
/// line says. Every other line says nothing.
pub open spec fn record_of(
    line: Seq<char>,
    date: DateView,
    player_id: Seq<char>,
    batter: Seq<char>,
) -> Result<RecordView, RecordError> {
    let fields = fields_of(without_last(line), ',');
    if fields[0] == "info"@ {
        if fields.len() < 2 {
            Err(RecordError::MissingField)
        } else if fields[1] != "date"@ {
            Ok(RecordView::Other)
        } else if fields.len() < 3 {
            Err(RecordError::MissingField)
        } else {
            match date_of_token(fields[2]) {
                Ok(game_date) => Ok(RecordView::GameDate(game_date)),
                Err(e) => Err(RecordError::Date(e)),
            }
        }
    } else if fields[0] == "play"@ {
        if fields.len() < 4 {
            Err(RecordError::MissingField)
        } else if fields[3] != player_id {
            Ok(RecordView::Other)
        } else if fields.len() < 7 {
            Err(RecordError::MissingField)
        } else if outcome_after(kept_pitches(fields[5]), fields[6]) == UNKNOWN_OUTCOME {
            Ok(RecordView::Other)
        } else {
            Ok(
                RecordView::Appearance(
                    PlateAppearanceView {
                        date: date,
                        batter: batter,
                        outcome: outcome_after(kept_pitches(fields[5]), fields[6]),
                        pitches: kept_pitches(fields[5]),
                        raw_outcome: fields[6],
                    },
                ),
            )
        }
    } else {
        Ok(RecordView::Other)
    }
}

/// What is known after some lines of an event file: the date of the game
/// under way and the batter's plate appearances so far.
pub struct Log {
    pub date: DateView,
    pub appearances: Seq<PlateAppearanceView>,
}

impl Log {
    /// The log before the first line: no game, no plate appearance.
    pub open spec fn start() -> Log {
        Log {
            date: DateView { year: 0, month: 0, day: 0 },
            appearances: Seq::<PlateAppearanceView>::empty(),
        }
    }

    /// The log with one more record taken in.
    pub open spec fn with(self, record: RecordView) -> Log {
        match record {
            RecordView::Other => self,
            RecordView::GameDate(date) => Log { date: date, appearances: self.appearances },
            RecordView::Appearance(appearance) => Log {
                date: self.date,
                appearances: self.appearances.push(appearance),
            },
        }
    }
}

/// The log after all the lines, read in order, or the error of the first line
/// that is refused.
pub open spec fn log_of(lines: Seq<Seq<char>>, player_id: Seq<char>, batter: Seq<char>) -> Result<
    Log,
    RecordError,
>
    decreases lines.len(),
{
    if lines.len() == 0 {
        Ok(Log::start())
    } else {
        match log_of(lines.drop_last(), player_id, batter) {
            Ok(log) => match record_of(lines.last(), log.date, player_id, batter) {
                Ok(record) => Ok(log.with(record)),
                Err(e) => Err(e),
            },
            Err(e) => Err(e),
        }
    }
}

/// The three entries of plate discipline that a line of the table holds for
/// a player: the share of pitches outside the zone swung at, the share of
/// all pitches swung at, and the share of pitches in the zone, as the text of
/// the numbers. The line is taken without its last character and split at
/// tabs; it is the player's if it has ten fields and the second is the
/// player's name. The entries end in a percent sign, which is dropped; the
/// last entry is dropped one character more.
pub open spec fn discipline_of(line: Seq<char>, player_name: Seq<char>) -> Option<
    (Seq<char>, Seq<char>, Seq<char>),
> {
    let fields = fields_of(without_last(line), '\t');
    if fields.len() >= 10 && fields[1] == player_name {
        Some(
            (
                without_last(fields[3]),
                without_last(fields[5]),
                without_last(without_last(fields[9])),
            ),
        )
    } else {
        None
    }
}

/// The entries of the first line of the table that is the player's.
pub open spec fn discipline_in(lines: Seq<Seq<char>>, player_name: Seq<char>) -> Option<
    (Seq<char>, Seq<char>, Seq<char>),
>
    decreases lines.len(),
{
    if lines.len() == 0 {
        None
    } else if discipline_of(lines[0], player_name) is Some {
        discipline_of(lines[0], player_name)
    } else {
        discipline_in(lines.skip(1), player_name)
    }
}

/// A line that is refused stops the reading: the error stays whatever
/// follows.
pub proof fn lemma_log_error_stays(
    lines: Seq<Seq<char>>,
    read: int,
    player_id: Seq<char>,
    batter: Seq<char>,
)
    requires
        0 <= read <= lines.len(),
        log_of(lines.take(read), player_id, batter) is Err,
    ensures
        log_of(lines, player_id, batter) == log_of(lines.take(read), player_id, batter),
    decreases lines.len(),
{
    if read == lines.len() {
        assert(lines.take(read) == lines);
    } else {
        assert(lines.drop_last().take(read) == lines.take(read));
        lemma_log_error_stays(lines.drop_last(), read, player_id, batter);
    }
}

fn join_from(fields: &Vec<Vec<char>>, from: usize, separator: char) -> (text: Vec<char>)
    requires
        from <= fields.len(),
    ensures
        text@ == joined(field_views(fields@).skip(from as int), separator),
{
    let ghost views = field_views(fields@);
    let mut text: Vec<char> = Vec::new();
    let mut i: usize = from;
    while i < fields.len()
        invariant
            from <= i <= fields.len(),
            views == field_views(fields@),
            text@ == joined(views.subrange(from as int, i as int), separator),
        decreases fields.len() - i,
    {
        let ghost before = text@;
        if i > from {
            text.push(separator);
        }
        let ghost base = text@;
        let field = &fields[i];
        let mut j: usize = 0;
        while j < field.len()
            invariant
                j <= field.len(),
                text@ == base + field@.take(j as int),
            decreases field.len() - j,
        {
            text.push(field[j]);
            proof {
                assert(field@.take(j as int).push(field@[j as int]) == field@.take(j as int + 1));
            }
            j += 1;
        }
        proof {
            assert(field@.take(j as int) == field@);
            let grown = views.subrange(from as int, i as int + 1);
            assert(grown.drop_last() == views.subrange(from as int, i as int));
            assert(grown.last() == field@);
            if i == from {
                assert(base + field@ == field@);
            }
        }
        i += 1;
    }
    proof {
        assert(views.subrange(from as int, i as int) == views.skip(from as int));
    }
    text
}

/// Splits the name of a player into the first name and the rest.
pub fn split_player_name_into_first_and_last(player_name: &String) -> (names: (String, String))
    ensures
        names.0@ == first_name_of(player_name@),
        names.1@ == last_name_of(player_name@),
{
    let chars = chars_of(player_name.as_str());
    let parts = split_fields(&chars, ' ');
    proof {
        lemma_field_views(parts@, fields_of(chars@, ' '));
    }
    let rest = join_from(&parts, 1, ' ');
    (string_of(&parts[0]), string_of(&rest))
}

/// Looks a player up in the text of a roster and gives the player's
/// identifier, or the empty string if the roster does not hold the player.
pub fn find_player_id(roster: &str, player_name: &String) -> (id: String)
    ensures
        id@ == player_id_in(
            lines_of(roster@),
            first_name_of(player_name@),
            last_name_of(player_name@),
        ),
{
    let (first_name, last_name) = split_player_name_into_first_and_last(player_name);
    let first = chars_of(first_name.as_str());
    let last = chars_of(last_name.as_str());
    let text = chars_of(roster);
    let lines = split_fields(&text, '\n');
    proof {
        lemma_field_views(lines@, fields_of(text@, '\n'));
    }
    let ghost all = lines_of(roster@);
    proof {
        assert(all.skip(0) == all);
    }
    let mut i: usize = 0;
    while i < lines.len()
        invariant
            i <= lines.len() == all.len(),
            all == lines_of(roster@),
            first@ == first_name_of(player_name@),
            last@ == last_name_of(player_name@),
            forall|k: int| 0 <= k < lines@.len() ==> (#[trigger] lines@[k])@ == all[k],
            player_id_in(all, first@, last@) == player_id_in(all.skip(i as int), first@, last@),
        decreases lines.len() - i,
    {
        let entry = split_fields(&lines[i], ',');
        proof {
        lemma_field_views(entry@, fields_of(lines@[i as int]@, ','));
    }
        proof {
            assert(all.skip(i as int)[0] == all[i as int]);
            assert(all.skip(i as int).skip(1) == all.skip(i as int + 1));
        }
        if entry.len() >= 3 && same_chars(&entry[1], &last) && same_chars(&entry[2], &first) {
            return string_of(&entry[0]);
        }
        i += 1;
    }
    String::new()
}

/// The names of all players of a roster, first name first.
pub fn player_names_in(roster: &str) -> (names: Vec<String>)
    ensures
        string_views(names@) == roster_names(lines_of(roster@)),
{
    let text = chars_of(roster);
    let lines = split_fields(&text, '\n');
    proof {
        lemma_field_views(lines@, fields_of(text@, '\n'));
    }
    let ghost all = lines_of(roster@);
    let mut names: Vec<String> = Vec::new();
    let mut i: usize = 0;
    while i < lines.len()
        invariant
            i <= lines.len() == all.len(),
            forall|k: int| 0 <= k < lines@.len() ==> (#[trigger] lines@[k])@ == all[k],
            string_views(names@) == roster_names(all.take(i as int)),
        decreases lines.len() - i,
    {
        let entry = split_fields(&lines[i], ',');
        proof {
        lemma_field_views(entry@, fields_of(lines@[i as int]@, ','));
    }
        proof {
            assert(all.take(i as int + 1).drop_last() == all.take(i as int));
            assert(all.take(i as int + 1).last() == all[i as int]);
        }
        if entry.len() >= 3 {
            let mut name = string_of(&entry[2]);
            name.push(' ');
            let last = &entry[1];
            let ghost base = name@;
            let mut j: usize = 0;
            while j < last.len()
                invariant
                    j <= last.len(),
                    name@ == base + last@.take(j as int),
                decreases last.len() - j,
            {
                name.push(last[j]);
                proof {
                    assert(last@.take(j as int).push(last@[j as int]) == last@.take(j as int + 1));
                }
                j += 1;
            }
            proof {
                assert(last@.take(j as int) == last@);
            }
            let ghost known = string_views(names@);
            names.push(name);
            proof {
                assert(string_views(names@) == known.push(name@));
            }
        }
        i += 1;
    }
    proof {
        assert(all.take(i as int) == all);
    }
    names
}

/// Reads one line of an event file for one batter, while the date of the game
/// is `date`.
pub fn read_record(line: &Vec<char>, date: &Date, player_id: &Vec<char>, player_name: &String) -> (read:
    Result<Record, RecordError>)
    ensures
        match read {
            Ok(record) => record_of(line@, date@, player_id@, player_name@) == Ok::<
                RecordView,
                RecordError,
            >(record@),
            Err(e) => record_of(line@, date@, player_id@, player_name@) == Err::<
                RecordView,
                RecordError,
            >(e),
        },
{
    let trimmed = drop_last_char(line);
    let fields = split_fields(&trimmed, ',');
    proof {
        lemma_field_views(fields@, fields_of(trimmed@, ','));
    }
    if same_chars(&fields[0], &chars_of("info")) {
        if fields.len() < 2 {
            return Err(RecordError::MissingField);
        }
        if !same_chars(&fields[1], &chars_of("date")) {
            return Ok(Record::Other);
        }
        if fields.len() < 3 {
            return Err(RecordError::MissingField);
        }
        match date_from_chars(&fields[2]) {
            Ok(game_date) => Ok(Record::GameDate(game_date)),
            Err(e) => Err(RecordError::Date(e)),
        }
    } else if same_chars(&fields[0], &chars_of("play")) {
        if fields.len() < 4 {
            return Err(RecordError::MissingField);
        }
        if !same_chars(&fields[3], player_id) {
            return Ok(Record::Other);
        }
        if fields.len() < 7 {
            return Err(RecordError::MissingField);
        }
        match build_plate_appearance(
            &fields[5],
            string_of(&fields[6]),
            date.clone(),
            player_name.clone(),
        ) {
            Some(appearance) => Ok(Record::Appearance(appearance)),
            None => Ok(Record::Other),
        }
    } else {
        Ok(Record::Other)
    }
}

/// The plate appearances of one batter in the text of an event file, in the
/// order of the file, each with the date of its game.
pub fn plate_appearances_in(events: &str, player_id: &String, player_name: &String) -> (found:
    Result<Vec<PlateAppearance>, RecordError>)
    ensures
        match found {
            Ok(appearances) => log_of(lines_of(events@), player_id@, player_name@) is Ok
                && appearance_views(appearances@) == log_of(
                lines_of(events@),
                player_id@,
                player_name@,
            )->Ok_0.appearances,
            Err(e) => log_of(lines_of(events@), player_id@, player_name@) == Err::<
                Log,
                RecordError,
            >(e),
        },
{
    let id = chars_of(player_id.as_str());
    let text = chars_of(events);
    let lines = split_fields(&text, '\n');
    proof {
        lemma_field_views(lines@, fields_of(text@, '\n'));
    }
    let ghost all = lines_of(events@);
    let mut date = Date::new(0, 0, 0);
    let mut appearances: Vec<PlateAppearance> = Vec::new();
    proof {
        assert(all.take(0).len() == 0);
        assert(appearance_views(appearances@) == Seq::<PlateAppearanceView>::empty());
    }
    let mut i: usize = 0;
    while i < lines.len()
        invariant
            i <= lines.len() == all.len(),
            all == lines_of(events@),
            id@ == player_id@,
            forall|k: int| 0 <= k < lines@.len() ==> (#[trigger] lines@[k])@ == all[k],
            log_of(all.take(i as int), player_id@, player_name@) == Ok::<Log, RecordError>(
                Log { date: date@, appearances: appearance_views(appearances@) },
            ),
        decreases lines.len() - i,
    {
        proof {
            assert(all.take(i as int + 1).drop_last() == all.take(i as int));
            assert(all.take(i as int + 1).last() == all[i as int]);
        }
        match read_record(&lines[i], &date, &id, player_name) {
            Ok(Record::Other) => {},
            Ok(Record::GameDate(game_date)) => {
                date = game_date;
            },
            Ok(Record::Appearance(appearance)) => {
                let ghost known = appearance_views(appearances@);
                appearances.push(appearance);
                proof {
                    assert(appearance_views(appearances@) == known.push(appearance@));
                }
            },
            Err(e) => {
                proof {
                    assert(log_of(all.take(i as int + 1), player_id@, player_name@) == Err::<
                        Log,
                        RecordError,
                    >(e));
                    lemma_log_error_stays(all, i as int + 1, player_id@, player_name@);
                }
                return Err(e);
            },
        }
        i += 1;
    }
    proof {
        assert(all.take(i as int) == all);
    }
    Ok(appearances)
}

/// Looks a player up in the text of a table of plate discipline, and gives
/// the three entries as text.
pub fn find_plate_discipline(table: &str, player_name: &String) -> (entries: Option<
    (String, String, String),
>)
    ensures
        match entries {
            Some(found) => discipline_in(lines_of(table@), player_name@) == Some(
                (found.0@, found.1@, found.2@),
            ),
            None => discipline_in(lines_of(table@), player_name@) is None,
        },
{
    let name = chars_of(player_name.as_str());
    let text = chars_of(table);
    let lines = split_fields(&text, '\n');
    proof {
        lemma_field_views(lines@, fields_of(text@, '\n'));
    }
    let ghost all = lines_of(table@);
    proof {
        assert(all.skip(0) == all);
    }
    let mut i: usize = 0;
    while i < lines.len()
        invariant
            i <= lines.len() == all.len(),
            all == lines_of(table@),
            name@ == player_name@,
            forall|k: int| 0 <= k < lines@.len() ==> (#[trigger] lines@[k])@ == all[k],
            discipline_in(all, player_name@) == discipline_in(all.skip(i as int), player_name@),
        decreases lines.len() - i,
    {
        let trimmed = drop_last_char(&lines[i]);
        let fields = split_fields(&trimmed, '\t');
        proof {
        lemma_field_views(fields@, fields_of(trimmed@, '\t'));
    }
        proof {
            assert(all.skip(i as int)[0] == all[i as int]);
            assert(all.skip(i as int).skip(1) == all.skip(i as int + 1));
        }
        if fields.len() >= 10 && same_chars(&fields[1], &name) {
            let oswing = drop_last_char(&fields[3]);
            let swing = drop_last_char(&fields[5]);
            let zone = drop_last_char(&drop_last_char(&fields[9]));
            let found = (string_of(&oswing), string_of(&swing), string_of(&zone));
            proof {
                assert(discipline_of(all[i as int], player_name@) == Some(
                    (found.0@, found.1@, found.2@),
                ));
            }
            return Some(found);
        }
        i += 1;
    }
    None
}

} // verus!
