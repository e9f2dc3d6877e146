use course_events::build_class;
use course_events::build_course;
use course_events::format_ny_time;
use course_events::format_utc_stamp;
use course_events::generate;
use course_events::CalendarEvent;
use course_events::Class;
use course_events::ClassBundle;
use course_events::CourseMeta;
use course_events::Date;
use course_events::Dates;
use course_events::Error;
use course_events::EventClass;
use course_events::EventConfig;
use course_events::EventStatus;
use course_events::Field;
use course_events::Mode;
use course_events::Schedule;
use course_events::Status;
use course_events::Time;
use course_events::UtcInstant;

fn spring_class(schedule: Schedule, section: Option<&str>) -> Class {
    Class {
        number: Some(12345),
        section: section.map(|s| s.to_string()),
        schedule,
        location: "Room 101".to_string(),
        mode: Mode::InPerson,
        instructor: "Jane Doe".to_string(),
        dates: Dates {
            start: Date { year: 2022, month: 1, day: 18 },
            end: Date { year: 2022, month: 5, day: 5 },
        },
    }
}

fn determined() -> Schedule {
    Schedule::Determined {
        days: "MoWeFr".to_string(),
        start: Time { hour: 14, minute: 0 },
        end: Time { hour: 15, minute: 20 },
    }
}

fn meta(class_num: u8) -> CourseMeta {
    CourseMeta {
        status: Status::Enrolled,
        subject: "CIS".to_string(),
        code: 600,
        title: "Topic".to_string(),
        class_num,
    }
}

fn full_bundle() -> ClassBundle {
    ClassBundle {
        number: Some("12345".to_string()),
        section: Some("M001".to_string()),
        schedule: Some("MoWeFr 2:00PM - 3:20PM".to_string()),
        location: Some("Room 101".to_string()),
        mode: Some("P".to_string()),
        instructor: Some("Jane Doe".to_string()),
        dates: Some("01/18/2022 - 05/05/2022".to_string()),
    }
}

#[test]
fn tba_yields_no_event() {
    let class = spring_class(Schedule::Tba, Some("M"));
    let config = EventConfig::default();
    assert!(class.as_event(&meta(1), &config).unwrap().is_none());
}

#[test]
fn unparseable_yields_no_event() {
    let class = spring_class(Schedule::Unparseable("whenever".to_string()), None);
    let config = EventConfig::default();
    assert!(class.as_event(&meta(1), &config).unwrap().is_none());
}

#[test]
fn section_suffix_needs_more_than_one_class() {
    let config = EventConfig::default();
    let class = spring_class(determined(), Some("M"));
    let one = class.as_event(&meta(1), &config).unwrap().unwrap();
    assert_eq!(one.summary, "CIS 600");
    let two = class.as_event(&meta(2), &config).unwrap().unwrap();
    assert_eq!(two.summary, "CIS 600 M");
    let no_label = spring_class(determined(), None);
    let bare = no_label.as_event(&meta(2), &config).unwrap().unwrap();
    assert_eq!(bare.summary, "CIS 600");
}

#[test]
fn until_is_utc_of_ny_end_of_day() {
    let class = spring_class(determined(), None);
    let rrule = class.as_rrule().unwrap().unwrap();
    // 2022-05-05 is under daylight saving in New York (UTC-4), so
    // 23:59:59 local is 03:59:59 UTC the next day.
    assert_eq!(
        rrule,
        "FREQ=WEEKLY;INTERVAL=1;UNTIL=20220506T035959Z;BYDAY=MO,WE,FR"
    );
}

#[test]
fn until_respects_winter_offset() {
    let mut class = spring_class(determined(), None);
    class.dates.end = Date { year: 2022, month: 1, day: 10 };
    let rrule = class.as_rrule().unwrap().unwrap();
    // 2022-01-10 is outside daylight saving (UTC-5).
    assert_eq!(
        rrule,
        "FREQ=WEEKLY;INTERVAL=1;UNTIL=20220111T045959Z;BYDAY=MO,WE,FR"
    );
}

#[test]
fn rrule_of_tba_is_none() {
    let class = spring_class(Schedule::Tba, None);
    assert!(class.as_rrule().unwrap().is_none());
}

#[test]
fn enrollment_filter_is_configurable() {
    let class = spring_class(determined(), None);
    let mut dropped_meta = meta(1);
    dropped_meta.status = Status::Dropped;
    let unfiltered = EventConfig::default();
    assert!(class
        .as_event(&dropped_meta, &unfiltered)
        .unwrap()
        .is_some());
    let filtered = EventConfig { enrolled_only: true };
    assert!(class.as_event(&dropped_meta, &filtered).unwrap().is_none());
    assert!(class.as_event(&meta(1), &filtered).unwrap().is_some());
}

#[test]
fn end_to_end_single_course() {
    let built = build_course(
        Some("CIS 600 - Topic"),
        Some("Enrolled"),
        &vec![full_bundle()],
        true,
    )
    .unwrap();
    assert!(built.dropped.is_empty());
    assert_eq!(built.course.meta.class_num, 1);
    let config = EventConfig::default();
    let events: Vec<CalendarEvent> = generate(&vec![built.course], &config);
    assert_eq!(events.len(), 1);
    let ev = &events[0];
    assert_eq!(ev.summary, "CIS 600");
    assert_eq!(ev.description, "Topic given by Jane Doe");
    assert_eq!(ev.location, "Room 101");
    assert_eq!(ev.start.date, Date { year: 2022, month: 1, day: 18 });
    assert_eq!(ev.start.time, Time { hour: 14, minute: 0 });
    assert_eq!(ev.start.tzid, "America/New_York");
    assert_eq!(ev.end.date, Date { year: 2022, month: 1, day: 18 });
    assert_eq!(ev.end.time, Time { hour: 15, minute: 20 });
    assert_eq!(ev.end.tzid, "America/New_York");
    assert_eq!(ev.status, EventStatus::Confirmed);
    assert_eq!(ev.class, EventClass::Public);
    assert_eq!(
        ev.rrule,
        "FREQ=WEEKLY;INTERVAL=1;UNTIL=20220506T035959Z;BYDAY=MO,WE,FR"
    );
}

#[test]
fn one_bad_row_never_drops_its_siblings() {
    let mut bad = full_bundle();
    bad.dates = Some("sometime soon".to_string());
    let built = build_course(
        Some("CIS 600 - Topic"),
        Some("Enrolled"),
        &vec![full_bundle(), bad, full_bundle()],
        true,
    )
    .unwrap();
    assert_eq!(built.course.classes.len(), 2);
    assert_eq!(built.dropped.len(), 1);
    assert_eq!(built.dropped[0].index, 1);
    assert!(matches!(
        built.dropped[0].error,
        Error::FieldFormat { field: Field::Dates, .. }
    ));
    // Every discovered row is counted, parsed or not.
    assert_eq!(built.course.meta.class_num, 3);
}

#[test]
fn missing_required_fields_drop_only_their_class() {
    let mut no_instructor = full_bundle();
    no_instructor.instructor = None;
    assert!(matches!(
        build_class(&no_instructor, true),
        Err(Error::MissingField { field: Field::Instructor })
    ));
    let mut no_location = full_bundle();
    no_location.location = Some("\u{a0}".to_string());
    assert!(matches!(
        build_class(&no_location, true),
        Err(Error::MissingField { field: Field::Location })
    ));
    let mut no_mode = full_bundle();
    no_mode.mode = None;
    assert!(matches!(
        build_class(&no_mode, true),
        Err(Error::MissingField { field: Field::Mode })
    ));
    let mut no_schedule = full_bundle();
    no_schedule.schedule = None;
    assert!(matches!(
        build_class(&no_schedule, true),
        Err(Error::MissingField { field: Field::Schedule })
    ));
    let mut no_dates = full_bundle();
    no_dates.dates = None;
    assert!(matches!(
        build_class(&no_dates, true),
        Err(Error::MissingField { field: Field::Dates })
    ));
}

#[test]
fn optional_fields_normalize_to_absent() {
    let mut bundle = full_bundle();
    bundle.number = Some("\u{a0}".to_string());
    bundle.section = Some("  ".to_string());
    let class = build_class(&bundle, true).unwrap();
    assert_eq!(class.number, None);
    assert_eq!(class.section, None);
    let mut bad_number = full_bundle();
    bad_number.number = Some("12a45".to_string());
    assert!(matches!(
        build_class(&bad_number, true),
        Err(Error::FieldFormat { field: Field::ClassNumber, .. })
    ));
}

#[test]
fn schedule_policy_decides_row_fate() {
    let mut odd = full_bundle();
    odd.schedule = Some("Dates announced later".to_string());
    // Fallback policy: the row is kept with its text preserved, and it
    // simply plans no event.
    let kept = build_course(
        Some("CIS 600 - Topic"),
        Some("Enrolled"),
        &vec![odd.clone()],
        true,
    )
    .unwrap();
    assert_eq!(kept.course.classes.len(), 1);
    assert!(matches!(
        kept.course.classes[0].schedule,
        Schedule::Unparseable(_)
    ));
    let config = EventConfig::default();
    let events = generate(&vec![kept.course], &config);
    assert!(events.is_empty());
    // Hard-fail policy: the row is dropped with a format diagnostic.
    let dropped = build_course(
        Some("CIS 600 - Topic"),
        Some("Enrolled"),
        &vec![odd],
        false,
    )
    .unwrap();
    assert!(dropped.course.classes.is_empty());
    assert!(matches!(
        dropped.dropped[0].error,
        Error::FieldFormat { field: Field::Schedule, .. }
    ));
}

#[test]
fn course_identity_failures() {
    assert!(matches!(
        build_course(None, Some("Enrolled"), &vec![], true),
        Err(Error::MissingField { field: Field::Title })
    ));
    assert!(matches!(
        build_course(Some("CIS 600 - Topic"), None, &vec![], true),
        Err(Error::MissingField { field: Field::Status })
    ));
    assert!(matches!(
        build_course(Some("nonsense"), Some("Enrolled"), &vec![], true),
        Err(Error::FieldFormat { field: Field::Title, .. })
    ));
}

#[test]
fn row_count_reaches_its_bound() {
    let bundles: Vec<ClassBundle> = (0..255).map(|_| full_bundle()).collect();
    let built = build_course(Some("CIS 600 - Topic"), Some("Enrolled"), &bundles, true).unwrap();
    assert_eq!(built.course.meta.class_num, 255);
    assert_eq!(built.course.classes.len(), 255);
    assert!(built.dropped.is_empty());
}

#[test]
fn add_class_num_counts_up() {
    let mut m = meta(0);
    m.add_class_num();
    assert_eq!(m.class_num, 1);
    m.add_class_num();
    assert_eq!(m.class_num, 2);
}

#[test]
fn default_config_emits_unconditionally() {
    let config = EventConfig::default();
    assert!(!config.enrolled_only);
}

#[test]
fn ny_noon_converts_with_seasonal_offsets() {
    // EST (UTC-5) in January, EDT (UTC-4) in July: real timezone rules,
    // not a fixed offset.
    let winter = format_ny_time(&Date { year: 2022, month: 1, day: 15 }, 12, 0, 0).unwrap();
    assert_eq!(winter, "20220115T170000Z");
    let summer = format_ny_time(&Date { year: 2022, month: 7, day: 15 }, 12, 0, 0).unwrap();
    assert_eq!(summer, "20220715T160000Z");
}

#[test]
fn utc_stamp_is_zero_padded() {
    let u = UtcInstant { year: 980, month: 7, day: 5, hour: 3, minute: 9, second: 0 };
    assert_eq!(format_utc_stamp(&u), "09800705T030900Z");
    let v = UtcInstant { year: 2022, month: 12, day: 31, hour: 23, minute: 59, second: 59 };
    assert_eq!(format_utc_stamp(&v), "20221231T235959Z");
}
