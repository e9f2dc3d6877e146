use course_events::format_weekday;
use course_events::hygiene_opt;
use course_events::parse_date;
use course_events::parse_dates;
use course_events::parse_mode;
use course_events::parse_schedule;
use course_events::parse_status;
use course_events::parse_time;
use course_events::parse_title;
use course_events::Date;
use course_events::Dates;
use course_events::Error;
use course_events::Field;
use course_events::Hygiene;
use course_events::Mode;
use course_events::Schedule;
use course_events::Status;
use course_events::Time;

#[test]
fn test_parse_date() {
    println!("{:#?}", parse_date("05/03/2022"));
    println!("{:#?}", parse_time("2:00PM"));
}

#[test]
fn test_parse_weekday() {
    assert_eq!(format_weekday("MoWeFr"), "MO,WE,FR");
    assert_eq!(format_weekday("Su"), "SU");
}

#[test]
fn weekday_depends_only_on_uppercased_form() {
    assert_eq!(format_weekday("mowefr"), "MO,WE,FR");
    assert_eq!(format_weekday("MOWEFR"), "MO,WE,FR");
    assert_eq!(format_weekday("TuTh"), "TU,TH");
    assert_eq!(format_weekday(""), "");
}

#[test]
fn date_valid() {
    assert_eq!(
        parse_date("05/03/2022").unwrap(),
        Date { year: 2022, month: 5, day: 3 }
    );
    assert_eq!(
        parse_date("1/2/33").unwrap(),
        Date { year: 33, month: 1, day: 2 }
    );
}

#[test]
fn date_invalid_calendar_day() {
    assert!(matches!(
        parse_date("02/30/2022"),
        Err(Error::FieldFormat { field: Field::Date, .. })
    ));
}

#[test]
fn date_leap_years() {
    assert_eq!(
        parse_date("02/29/2020").unwrap(),
        Date { year: 2020, month: 2, day: 29 }
    );
    assert!(parse_date("02/29/2022").is_err());
    assert!(parse_date("02/29/1900").is_err());
    assert_eq!(
        parse_date("02/29/2000").unwrap(),
        Date { year: 2000, month: 2, day: 29 }
    );
}

#[test]
fn date_needs_three_numeric_components() {
    assert!(parse_date("05/03").is_err());
    assert!(parse_date("1/2/3/4").is_err());
    assert!(parse_date("05/xx/2022").is_err());
    assert!(parse_date("//").is_err());
    assert!(parse_date("").is_err());
    assert!(parse_date("05/03/20222").is_err());
}

#[test]
fn time_afternoon() {
    assert_eq!(parse_time("2:00PM").unwrap(), Time { hour: 14, minute: 0 });
    assert_eq!(parse_time(" 2:00PM").unwrap(), Time { hour: 14, minute: 0 });
}

#[test]
fn time_clock_edges() {
    assert_eq!(parse_time("12:00AM").unwrap(), Time { hour: 0, minute: 0 });
    assert_eq!(parse_time("12:30PM").unwrap(), Time { hour: 12, minute: 30 });
    assert_eq!(parse_time("11:59PM").unwrap(), Time { hour: 23, minute: 59 });
    assert_eq!(parse_time("10:15am").unwrap(), Time { hour: 10, minute: 15 });
}

#[test]
fn time_rejects_other_shapes() {
    assert!(matches!(
        parse_time("2:60PM"),
        Err(Error::FieldFormat { field: Field::Time, .. })
    ));
    assert!(parse_time("13:00PM").is_err());
    assert!(parse_time("0:30PM").is_err());
    assert!(parse_time("2:00").is_err());
    assert!(parse_time("2:00XM").is_err());
    assert!(parse_time("2:00PM ").is_err());
    assert!(parse_time("14:00").is_err());
}

#[test]
fn status_parsing_is_total() {
    assert!(parse_status("Enrolled").is_enrolled());
    assert!(!parse_status("Dropped").is_enrolled());
    assert!(matches!(parse_status("Dropped"), Status::Dropped));
    match parse_status("Waitlisted") {
        Status::Other(raw) => assert_eq!(raw, "Waitlisted"),
        _ => panic!("unrecognized status must be preserved"),
    }
}

#[test]
fn mode_parsing_is_total() {
    assert!(matches!(parse_mode("P"), Mode::InPerson));
    assert!(matches!(parse_mode("O"), Mode::Online));
    assert!(matches!(parse_mode("H"), Mode::Hybrid));
    match parse_mode("Hybrid") {
        Mode::Other(raw) => assert_eq!(raw, "Hybrid"),
        _ => panic!("unrecognized mode must be preserved"),
    }
}

#[test]
fn schedule_determined() {
    match parse_schedule("MoWeFr 2:00PM - 3:20PM", true).unwrap() {
        Schedule::Determined { days, start, end } => {
            assert_eq!(days, "MoWeFr");
            assert_eq!(start, Time { hour: 14, minute: 0 });
            assert_eq!(end, Time { hour: 15, minute: 20 });
        }
        other => panic!("expected a determined schedule, got {other:?}"),
    }
}

#[test]
fn schedule_tba() {
    assert!(matches!(
        parse_schedule("TBA", true).unwrap(),
        Schedule::Tba
    ));
    assert!(matches!(
        parse_schedule("TBA", false).unwrap(),
        Schedule::Tba
    ));
}

#[test]
fn schedule_fallback_policy() {
    match parse_schedule("Dates announced later", true).unwrap() {
        Schedule::Unparseable(raw) => assert_eq!(raw, "Dates announced later"),
        other => panic!("expected fallback to preserve the text, got {other:?}"),
    }
    assert!(matches!(
        parse_schedule("Dates announced later", false),
        Err(Error::FieldFormat { field: Field::Schedule, .. })
    ));
}

#[test]
fn dates_range() {
    assert_eq!(
        parse_dates("01/18/2022 - 05/05/2022").unwrap(),
        Dates {
            start: Date { year: 2022, month: 1, day: 18 },
            end: Date { year: 2022, month: 5, day: 5 },
        }
    );
    assert_eq!(
        parse_dates("  01/18/2022-05/05/2022  ").unwrap(),
        Dates {
            start: Date { year: 2022, month: 1, day: 18 },
            end: Date { year: 2022, month: 5, day: 5 },
        }
    );
}

#[test]
fn dates_errors() {
    assert!(matches!(
        parse_dates("01/18/2022 05/05/2022"),
        Err(Error::FieldFormat { field: Field::Dates, .. })
    ));
    match parse_dates("01/40/2022 - 05/05/2022") {
        Err(Error::FieldFormat { field: Field::Date, raw }) => assert_eq!(raw, "01/40/2022"),
        other => panic!("expected the bad half in the diagnostic, got {other:?}"),
    }
}

#[test]
fn title_split() {
    let (subject, code, title) = parse_title("CIS 600 - Topic").unwrap();
    assert_eq!(subject, "CIS");
    assert_eq!(code, 600);
    assert_eq!(title, "Topic");
    let (_, _, title) = parse_title("  MAT 295 - Calculus - Honors  ").unwrap();
    assert_eq!(title, "Calculus - Honors");
}

#[test]
fn title_errors() {
    assert!(matches!(
        parse_title("CIS 600 Topic"),
        Err(Error::FieldFormat { field: Field::Title, .. })
    ));
    assert!(matches!(
        parse_title("CIS600 - Topic"),
        Err(Error::FieldFormat { field: Field::SubjectCode, .. })
    ));
    assert!(matches!(
        parse_title("CIS abc - Topic"),
        Err(Error::FieldFormat { field: Field::CourseCode, .. })
    ));
    assert!(matches!(
        parse_title("CIS 0 - Topic"),
        Err(Error::FieldFormat { field: Field::CourseCode, .. })
    ));
}

#[test]
fn hygiene_drops_absent_text() {
    assert_eq!(hygiene_opt(None), None);
    assert_eq!(hygiene_opt(Some("\u{a0}")), None);
    assert_eq!(hygiene_opt(Some("   ")), None);
    assert_eq!(hygiene_opt(Some("")), None);
    assert_eq!(hygiene_opt(Some("  M  ")), Some("M"));
    assert_eq!(Some(" 12345 ").hygiene(), Some("12345"));
}
