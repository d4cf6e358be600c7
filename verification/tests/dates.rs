use review_sentiment::{
    CalendarDate, DateError, RawMonth, convert_date, normalize_date, parse_day_str,
    parse_year_str, split_date,
};

const DATE: &str = "11th November 2023";

#[test]
fn test_split_date() {
    let toks = split_date(DATE).unwrap();
    assert_eq!(toks, vec!["11th", "November", "2023"]);
}

#[test]
fn test_parse_month() {
    let date_vec = split_date(DATE).unwrap_or(vec![]);
    let mar_num: u32 = RawMonth::from_name(date_vec[1]).number();
    println!("{:?}", mar_num);
    assert_eq!(mar_num, 11);
}

#[test]
fn test_parse_day() {
    let day = "2nd";
    assert_eq!(parse_day_str(day).unwrap(), 2);
}

#[test]
fn test_parse_year() {
    let year = "1995";
    assert_eq!(parse_year_str(year).unwrap(), 1995);
}

#[test]
fn test_convert_naive_datetime() {
    let toks = split_date(DATE).unwrap();
    let d = convert_date(toks).unwrap();
    assert_eq!(d, CalendarDate { year: 2023, month: 11, day: 11 });
}

#[test]
fn full_pipeline_example_date() {
    let d = normalize_date(DATE).unwrap();
    assert_eq!(d.year, 2023);
    assert_eq!(d.month, 11);
    assert_eq!(d.day, 11);
}

#[test]
fn rejects_february_30() {
    assert_eq!(
        normalize_date("30th February 2023"),
        Err(DateError::InvalidDate)
    );
}

#[test]
fn rejects_day_31_in_30_day_month() {
    assert_eq!(
        normalize_date("31st April 2023"),
        Err(DateError::InvalidDate)
    );
}

#[test]
fn leap_year_february_29() {
    assert_eq!(
        normalize_date("29th February 2024").unwrap(),
        CalendarDate { year: 2024, month: 2, day: 29 }
    );
    assert_eq!(
        normalize_date("29th February 2023"),
        Err(DateError::InvalidDate)
    );
    assert_eq!(
        normalize_date("29th February 1900"),
        Err(DateError::InvalidDate)
    );
    assert_eq!(
        normalize_date("29th February 2000").unwrap(),
        CalendarDate { year: 2000, month: 2, day: 29 }
    );
}

#[test]
fn unparsable_day_is_invalid_date() {
    assert_eq!(
        normalize_date("xxth November 2023"),
        Err(DateError::InvalidDate)
    );
}

#[test]
fn unparsable_year_is_invalid_date() {
    assert_eq!(
        normalize_date("11th November twenty23"),
        Err(DateError::InvalidDate)
    );
}

#[test]
fn too_few_tokens_is_invalid_date() {
    assert_eq!(normalize_date("November 2023"), Err(DateError::InvalidDate));
    assert_eq!(normalize_date(""), Err(DateError::InvalidDate));
}

#[test]
fn unknown_month_falls_back_to_january() {
    let d = normalize_date("5th Smarch 1999").unwrap();
    assert_eq!(d.month, 1);
}

#[test]
fn negative_year_parses() {
    let d = normalize_date("1st January -44").unwrap();
    assert_eq!(d, CalendarDate { year: -44, month: 1, day: 1 });
}

#[test]
fn parse_day_error_value() {
    assert_eq!(parse_day_str("x").unwrap_err(), "Invalid day");
    assert_eq!(parse_day_str("xyth").unwrap_err(), "Invalid day");
}

#[test]
fn parse_year_error_value() {
    assert_eq!(parse_year_str("12x").unwrap_err(), "Invalid year");
    assert_eq!(parse_year_str("").unwrap_err(), "Invalid year");
}
