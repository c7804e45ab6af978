use no_bat_simulator::{convert_string_to_date, Date, DateError};

#[test]
fn date_keeps_its_parts() {
    let date = Date::new(2023, 4, 1);
    assert_eq!(*date.get_year(), 2023);
    assert_eq!(*date.get_month(), 4);
    assert_eq!(*date.get_day(), 1);
    let copy = date.clone();
    assert_eq!(copy, date);
    assert_eq!(*copy.get_day(), 1);
}

#[test]
fn date_token_is_read() {
    assert_eq!(convert_string_to_date("2023/04/01"), Ok(Date::new(2023, 4, 1)));
    assert_eq!(convert_string_to_date("1999/12/31"), Ok(Date::new(1999, 12, 31)));
}

#[test]
fn date_is_not_checked_against_the_calendar() {
    assert_eq!(convert_string_to_date("0/13/99"), Ok(Date::new(0, 13, 99)));
    assert_eq!(convert_string_to_date("-5/+7/-0"), Ok(Date::new(-5, 7, 0)));
}

#[test]
fn date_fields_after_the_third_are_ignored() {
    assert_eq!(convert_string_to_date("2023/04/01/extra"), Ok(Date::new(2023, 4, 1)));
    assert_eq!(convert_string_to_date("2023/04/01/"), Ok(Date::new(2023, 4, 1)));
}

#[test]
fn date_limits_of_the_fields() {
    assert_eq!(
        convert_string_to_date("2147483647/-2147483648/000000000000000000012"),
        Ok(Date::new(i32::MAX, i32::MIN, 12))
    );
    assert_eq!(convert_string_to_date("2147483648/1/1"), Err(DateError::InvalidYear));
    assert_eq!(convert_string_to_date("1/-2147483649/1"), Err(DateError::InvalidMonth));
    assert_eq!(convert_string_to_date("1/1/99999999999999999999999"), Err(DateError::InvalidDay));
}

#[test]
fn date_with_a_bad_year() {
    assert_eq!(convert_string_to_date(""), Err(DateError::InvalidYear));
    assert_eq!(convert_string_to_date("abc"), Err(DateError::InvalidYear));
    assert_eq!(convert_string_to_date("20x3/04/01"), Err(DateError::InvalidYear));
    assert_eq!(convert_string_to_date("/04/01"), Err(DateError::InvalidYear));
    assert_eq!(convert_string_to_date("-/04/01"), Err(DateError::InvalidYear));
    assert_eq!(convert_string_to_date(" 2023/04/01"), Err(DateError::InvalidYear));
}

#[test]
fn date_with_a_bad_month() {
    assert_eq!(convert_string_to_date("2023//01"), Err(DateError::InvalidMonth));
    assert_eq!(convert_string_to_date("2023/April/01"), Err(DateError::InvalidMonth));
    assert_eq!(convert_string_to_date("2023/4.0/01"), Err(DateError::InvalidMonth));
}

#[test]
fn date_with_a_bad_day() {
    assert_eq!(convert_string_to_date("2023/04/"), Err(DateError::InvalidDay));
    assert_eq!(convert_string_to_date("2023/04/1st"), Err(DateError::InvalidDay));
    assert_eq!(convert_string_to_date("2023/04/+"), Err(DateError::InvalidDay));
}

#[test]
fn date_with_a_missing_field() {
    assert_eq!(convert_string_to_date("2023"), Err(DateError::MissingField));
    assert_eq!(convert_string_to_date("2023/04"), Err(DateError::MissingField));
    assert_eq!(convert_string_to_date("2023-04-01"), Err(DateError::InvalidYear));
}
