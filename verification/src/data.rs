use vstd::prelude::*;

verus! {

// ---------------------------------------------------------------------------
// Ghost models
//
// Each executable record type below has a mathematical mirror built from
// `int`, `Seq<char>` and `Option`, reached through `View`. Contracts speak
// of these mirrors.
// ---------------------------------------------------------------------------

#[verifier::ext_equal]
pub struct TimeVal {
    pub hour: int,
    pub minute: int,
}

#[verifier::ext_equal]
pub struct DateVal {
    pub year: int,
    pub month: int,
    pub day: int,
}

#[verifier::ext_equal]
pub struct DatesVal {
    pub start: DateVal,
    pub end: DateVal,
}

#[verifier::ext_equal]
pub enum StatusVal {
    Enrolled,
    Dropped,
    Other(Seq<char>),
}

#[verifier::ext_equal]
pub enum ModeVal {
    InPerson,
    Online,
    Hybrid,
    Other(Seq<char>),
}

#[verifier::ext_equal]
pub enum ScheduleVal {
    Determined { days: Seq<char>, start: TimeVal, end: TimeVal },
    Tba,
    Unparseable(Seq<char>),
}

#[verifier::ext_equal]
pub struct CourseMetaVal {
    pub status: StatusVal,
    pub subject: Seq<char>,
    pub code: int,
    pub title: Seq<char>,
    pub class_num: int,
}

#[verifier::ext_equal]
pub struct ClassVal {
    pub number: Option<int>,
    pub section: Option<Seq<char>>,
    pub schedule: ScheduleVal,
    pub location: Seq<char>,
    pub mode: ModeVal,
    pub instructor: Seq<char>,
    pub dates: DatesVal,
}

#[verifier::ext_equal]
pub struct CourseVal {
    pub meta: CourseMetaVal,
    pub classes: Seq<ClassVal>,
}

/// The weekday token of a determined schedule, empty otherwise.
pub open spec fn sched_days(sv: ScheduleVal) -> Seq<char> {
    match sv {
        ScheduleVal::Determined { days, start: _, end: _ } => days,
        _ => Seq::empty(),
    }
}

/// The start time of a determined schedule, midnight otherwise.
pub open spec fn sched_start(sv: ScheduleVal) -> TimeVal {
    match sv {
        ScheduleVal::Determined { days: _, start, end: _ } => start,
        _ => TimeVal { hour: 0, minute: 0 },
    }
}

/// The end time of a determined schedule, midnight otherwise.
pub open spec fn sched_end(sv: ScheduleVal) -> TimeVal {
    match sv {
        ScheduleVal::Determined { days: _, start: _, end } => end,
        _ => TimeVal { hour: 0, minute: 0 },
    }
}

// ---------------------------------------------------------------------------
// Calendar arithmetic
// ---------------------------------------------------------------------------

/// True when `y` names a leap year in the proleptic Gregorian calendar.
pub open spec fn is_leap_year(y: int) -> bool {
    (y % 4 == 0 && y % 100 != 0) || y % 400 == 0
}

/// Number of days in month `m` of year `y` (months are 1-based).
pub open spec fn days_in_month(y: int, m: int) -> int {
    if m == 2 {
        if is_leap_year(y) {
            29
        } else {
            28
        }
    } else if m == 4 || m == 6 || m == 9 || m == 11 {
        30
    } else {
        31
    }
}

/// A real Gregorian calendar date within the range this library renders
/// with four-digit years.
pub open spec fn valid_ymd(y: int, m: int, d: int) -> bool {
    &&& 0 <= y <= 9999
    &&& 1 <= m <= 12
    &&& 1 <= d <= days_in_month(y, m)
}

// ---------------------------------------------------------------------------
// Executable records
// ---------------------------------------------------------------------------

/// A wall-clock time of day on a 24-hour clock.
#[derive(Debug, Clone, Copy, PartialEq, Eq, Structural)]
pub struct Time {
    pub hour: u8,
    pub minute: u8,
}

impl View for Time {
    type V = TimeVal;

    open spec fn view(&self) -> TimeVal {
        TimeVal { hour: self.hour as int, minute: self.minute as int }
    }
}

impl Time {
    pub open spec fn wf(&self) -> bool {
        self.hour < 24 && self.minute < 60
    }
}

/// A calendar date (year, month, day), month and day 1-based.
#[derive(Debug, Clone, Copy, PartialEq, Eq, Structural)]
pub struct Date {
    pub year: u32,
    pub month: u8,
    pub day: u8,
}

impl View for Date {
    type V = DateVal;

    open spec fn view(&self) -> DateVal {
        DateVal { year: self.year as int, month: self.month as int, day: self.day as int }
    }
}

impl Date {
    pub open spec fn wf(&self) -> bool {
        valid_ymd(self.year as int, self.month as int, self.day as int)
    }
}

/// The inclusive term boundary of one meeting pattern.
#[derive(Debug, Clone, Copy, PartialEq, Eq, Structural)]
pub struct Dates {
    pub start: Date,
    pub end: Date,
}

impl View for Dates {
    type V = DatesVal;

    open spec fn view(&self) -> DatesVal {
        DatesVal { start: self.start@, end: self.end@ }
    }
}

impl Dates {
    pub open spec fn wf(&self) -> bool {
        self.start.wf() && self.end.wf()
    }
}

/// Enrollment status of one course; unrecognized text is kept verbatim.
#[derive(Debug, Clone)]
pub enum Status {
    Enrolled,
    Dropped,
    Other(String),
}

impl View for Status {
    type V = StatusVal;

    open spec fn view(&self) -> StatusVal {
        match self {
            Status::Enrolled => StatusVal::Enrolled,
            Status::Dropped => StatusVal::Dropped,
            Status::Other(s) => StatusVal::Other(s@),
        }
    }
}

impl Status {
    /// True exactly when the course is enrolled.
    pub fn is_enrolled(&self) -> (r: bool)
        ensures
            r == (self@ is Enrolled),
    {
        match self {
            Status::Enrolled => true,
            _ => false,
        }
    }
}

/// Instruction mode of one class; unrecognized text is kept verbatim.
#[derive(Debug, Clone)]
pub enum Mode {
    InPerson,
    Online,
    Hybrid,
    Other(String),
}

impl View for Mode {
    type V = ModeVal;

    open spec fn view(&self) -> ModeVal {
        match self {
            Mode::InPerson => ModeVal::InPerson,
            Mode::Online => ModeVal::Online,
            Mode::Hybrid => ModeVal::Hybrid,
            Mode::Other(s) => ModeVal::Other(s@),
        }
    }
}

/// The meeting pattern of one class: either a determined weekday/time
/// pattern, an explicit "TBA", or text this library could not interpret.
#[derive(Debug, Clone)]
pub enum Schedule {
    Determined { days: String, start: Time, end: Time },
    Tba,
    Unparseable(String),
}

impl View for Schedule {
    type V = ScheduleVal;

    open spec fn view(&self) -> ScheduleVal {
        match self {
            Schedule::Determined { days, start, end } => ScheduleVal::Determined {
                days: days@,
                start: start@,
                end: end@,
            },
            Schedule::Tba => ScheduleVal::Tba,
            Schedule::Unparseable(s) => ScheduleVal::Unparseable(s@),
        }
    }
}

impl Schedule {
    pub open spec fn wf(&self) -> bool {
        match self {
            Schedule::Determined { days: _, start, end } => start.wf() && end.wf(),
            _ => true,
        }
    }
}

/// Course-level data shared by every class row of one course.
#[derive(Debug, Clone)]
pub struct CourseMeta {
    pub status: Status,
    pub subject: String,
    pub code: u32,
    pub title: String,
    pub class_num: u8,
}

impl View for CourseMeta {
    type V = CourseMetaVal;

    open spec fn view(&self) -> CourseMetaVal {
        CourseMetaVal {
            status: self.status@,
            subject: self.subject@,
            code: self.code as int,
            title: self.title@,
            class_num: self.class_num as int,
        }
    }
}

impl CourseMeta {
    /// Records the discovery of one more class row under this course.
    pub fn add_class_num(&mut self)
        requires
            old(self).class_num < u8::MAX,
        ensures
            final(self)@ == (CourseMetaVal { class_num: old(self)@.class_num + 1, ..old(self)@ }),
    {
        self.class_num += 1
    }
}

/// One meeting pattern of a course.
#[derive(Debug, Clone)]
pub struct Class {
    pub number: Option<u32>,
    pub section: Option<String>,
    pub schedule: Schedule,
    pub location: String,
    pub mode: Mode,
    pub instructor: String,
    pub dates: Dates,
}

impl View for Class {
    type V = ClassVal;

    open spec fn view(&self) -> ClassVal {
        ClassVal {
            number: match self.number {
                Option::Some(n) => Option::Some(n as int),
                Option::None => Option::None,
            },
            section: match self.section {
                Option::Some(ref s) => Option::Some(s@),
                Option::None => Option::None,
            },
            schedule: self.schedule@,
            location: self.location@,
            mode: self.mode@,
            instructor: self.instructor@,
            dates: self.dates@,
        }
    }
}

impl Class {
    pub open spec fn wf(&self) -> bool {
        self.schedule.wf() && self.dates.wf()
    }
}

/// One scraped course block: shared metadata plus its class rows.
#[derive(Debug, Clone)]
pub struct Course {
    pub meta: CourseMeta,
    pub classes: Vec<Class>,
}

impl View for Course {
    type V = CourseVal;

    open spec fn view(&self) -> CourseVal {
        CourseVal {
            meta: self.meta@,
            classes: Seq::new(self.classes@.len(), |i: int| self.classes@[i]@),
        }
    }
}

impl Course {
    pub open spec fn wf(&self) -> bool {
        forall|i: int| 0 <= i < self.classes@.len() ==> (#[trigger] self.classes@[i]).wf()
    }
}

} // verus!
