use vstd::prelude::*;
use vstd::string::StringExecFns;

use crate::data::Class;
use crate::data::ClassVal;
use crate::data::Course;
use crate::data::CourseMeta;
use crate::data::CourseMetaVal;
use crate::data::CourseVal;
use crate::data::Date;
use crate::data::DateVal;
use crate::data::Schedule;
use crate::data::Time;
use crate::data::TimeVal;
use crate::data::sched_days;
use crate::data::sched_end;
use crate::data::sched_start;
use crate::errors::Error;
use crate::rrule::format_weekday;
use crate::rrule::rrule_of;
use crate::text::dec_digits;
use crate::text::format_u32;
use crate::tz::format_ny_time;

verus! {

// ---------------------------------------------------------------------------
// Output records
// ---------------------------------------------------------------------------

/// How event synthesis is configured: whether only enrolled courses emit
/// events. The default emits unconditionally.
#[derive(Debug, Clone, Copy)]
pub struct EventConfig {
    pub enrolled_only: bool,
}

impl Default for EventConfig {
    fn default() -> (r: Self)
        ensures
            r.enrolled_only == false,
    {
        EventConfig { enrolled_only: false }
    }
}

#[verifier::ext_equal]
pub struct EventDateTimeVal {
    pub date: DateVal,
    pub time: TimeVal,
    pub tzid: Seq<char>,
}

/// A wall-clock date and time tagged with a named civil timezone, left
/// unconverted so recurrence expansion downstream stays timezone-aware.
#[derive(Debug, Clone)]
pub struct EventDateTime {
    pub date: Date,
    pub time: Time,
    pub tzid: String,
}

impl View for EventDateTime {
    type V = EventDateTimeVal;

    open spec fn view(&self) -> EventDateTimeVal {
        EventDateTimeVal { date: self.date@, time: self.time@, tzid: self.tzid@ }
    }
}

/// Event status; this library emits confirmed events only.
#[derive(Debug, Clone, Copy, PartialEq, Eq, Structural)]
pub enum EventStatus {
    Confirmed,
    Tentative,
    Cancelled,
}

/// Event visibility; this library emits public events only.
#[derive(Debug, Clone, Copy, PartialEq, Eq, Structural)]
pub enum EventClass {
    Public,
    Private,
    Confidential,
}

#[verifier::ext_equal]
pub struct CalendarEventVal {
    pub summary: Seq<char>,
    pub description: Seq<char>,
    pub location: Seq<char>,
    pub start: EventDateTimeVal,
    pub end: EventDateTimeVal,
    pub status: EventStatus,
    pub class: EventClass,
    pub rrule: Seq<char>,
}

/// One synthesized calendar event, ready for a calendar-format collaborator
/// to serialize.
#[derive(Debug, Clone)]
pub struct CalendarEvent {
    pub summary: String,
    pub description: String,
    pub location: String,
    pub start: EventDateTime,
    pub end: EventDateTime,
    pub status: EventStatus,
    pub class: EventClass,
    pub rrule: String,
}

impl View for CalendarEvent {
    type V = CalendarEventVal;

    open spec fn view(&self) -> CalendarEventVal {
        CalendarEventVal {
            summary: self.summary@,
            description: self.description@,
            location: self.location@,
            start: self.start@,
            end: self.end@,
            status: self.status,
            class: self.class,
            rrule: self.rrule@,
        }
    }
}

/// Tags a date and time of day as New York wall-clock time.
pub fn convert_time_in_ny(date: &Date, time: Time) -> (r: EventDateTime)
    ensures
        r@ == (EventDateTimeVal { date: date@, time: time@, tzid: "America/New_York"@ }),
{
    let r = EventDateTime { date: *date, time, tzid: "America/New_York".to_owned() };
    proof {
        assert(r@ =~= (EventDateTimeVal { date: date@, time: time@, tzid: "America/New_York"@ }));
    }
    r
}

// ---------------------------------------------------------------------------
// What one class plans
// ---------------------------------------------------------------------------

/// The event summary: subject, a space, the decimal course code, and the
/// section label after one more space only when the course has more than
/// one class row and the label is present.
pub open spec fn summary_of(meta: CourseMetaVal, section: Option<Seq<char>>) -> Seq<char> {
    let base = meta.subject + seq![' '] + dec_digits(meta.code);
    if meta.class_num > 1 && section is Some {
        base + seq![' '] + section->0
    } else {
        base
    }
}

/// A course with at most one class row never appends a section suffix,
/// with or without a section label present.
pub proof fn lemma_single_class_no_suffix(meta: CourseMetaVal, section: Option<Seq<char>>)
    requires
        meta.class_num <= 1,
    ensures
        summary_of(meta, section) == summary_of(meta, Option::None),
{
}

/// The event description: the course title, the words ` given by `, and
/// the instructor text.
pub open spec fn description_of(meta: CourseMetaVal, instructor: Seq<char>) -> Seq<char> {
    meta.title + " given by "@ + instructor
}

/// The at most one event a class plans: none when its schedule is not
/// determined, or when the enrollment filter is on and the course is not
/// enrolled.
pub open spec fn event_planned(meta: CourseMetaVal, class: ClassVal, cfg: EventConfig) -> Option<
    CalendarEventVal,
> {
    if class.schedule is Determined && (!cfg.enrolled_only || meta.status is Enrolled) {
        Option::Some(
            CalendarEventVal {
                summary: summary_of(meta, class.section),
                description: description_of(meta, class.instructor),
                location: class.location,
                start: EventDateTimeVal {
                    date: class.dates.start,
                    time: sched_start(class.schedule),
                    tzid: "America/New_York"@,
                },
                end: EventDateTimeVal {
                    date: class.dates.start,
                    time: sched_end(class.schedule),
                    tzid: "America/New_York"@,
                },
                status: EventStatus::Confirmed,
                class: EventClass::Public,
                rrule: rrule_of(sched_days(class.schedule), class.dates.end),
            },
        )
    } else {
        Option::None
    }
}

impl Class {
    /// The weekly recurrence rule of this class: `Ok(Some(rule))` exactly
    /// when its schedule is determined, `Ok(None)` otherwise. The UNTIL
    /// bound always resolves, since 23:59:59 is never in a daylight-saving
    /// gap; the error arm is kept for the failure taxonomy and is proved
    /// unreachable.
    pub fn as_rrule(&self) -> (r: Result<Option<String>, Error>)
        requires
            self.wf(),
        ensures
            self@.schedule is Determined ==> (r matches Ok(o) && o matches Some(t) && t@
                == rrule_of(sched_days(self@.schedule), self@.dates.end)),
            !(self@.schedule is Determined) ==> (r matches Ok(o) && o is None),
    {
        let days = match &self.schedule {
            Schedule::Determined { days, start: _, end: _ } => days,
            _ => {
                return Ok(None);
            },
        };
        let until = match format_ny_time(&self.dates.end, 23, 59, 59) {
            Some(u) => u,
            None => {
                // 23:59:59 is never in a daylight-saving gap, so this arm
                // cannot run.
                return Err(Error::RecurrenceBuild);
            },
        };
        let mut out = "FREQ=WEEKLY;INTERVAL=1;UNTIL=".to_owned();
        out.append(until.as_str());
        out.append(";BYDAY=");
        let wd = format_weekday(days.as_str());
        out.append(wd.as_str());
        proof {
            assert(out@ =~= rrule_of(sched_days(self@.schedule), self@.dates.end));
        }
        Ok(Some(out))
    }

    /// Builds the one calendar event this class plans, as configured: a
    /// class without a determined schedule, or one the enrollment filter
    /// rejects, yields `Ok(None)`; every other class yields exactly its
    /// planned event. The result is a function of the arguments alone.
    pub fn as_event(&self, meta: &CourseMeta, config: &EventConfig) -> (r: Result<
        Option<CalendarEvent>,
        Error,
    >)
        requires
            self.wf(),
        ensures
            match event_planned(meta@, self@, *config) {
                Option::Some(p) => r matches Ok(o) && o matches Some(e) && e@ == p,
                Option::None => r matches Ok(o) && o is None,
            },
    {
        let rrule_opt = match self.as_rrule() {
            Ok(x) => x,
            Err(e) => {
                return Err(e);
            },
        };
        let rrule = match rrule_opt {
            Some(rr) => rr,
            None => {
                return Ok(None);
            },
        };
        if config.enrolled_only && !meta.status.is_enrolled() {
            return Ok(None);
        }
        let (start_t, end_t) = match &self.schedule {
            Schedule::Determined { days: _, start, end } => (*start, *end),
            _ => {
                return Ok(None);
            },
        };
        let mut summary = meta.subject.clone();
        summary.push(' ');
        let code_text = format_u32(meta.code);
        summary.append(code_text.as_str());
        if meta.class_num > 1 {
            match &self.section {
                Some(sec) => {
                    summary.push(' ');
                    summary.append(sec.as_str());
                },
                None => {},
            }
        }
        let mut description = meta.title.clone();
        description.append(" given by ");
        description.append(self.instructor.as_str());
        let ev = CalendarEvent {
            summary,
            description,
            location: self.location.clone(),
            start: convert_time_in_ny(&self.dates.start, start_t),
            end: convert_time_in_ny(&self.dates.start, end_t),
            status: EventStatus::Confirmed,
            class: EventClass::Public,
            rrule,
        };
        proof {
            assert(ev@ =~= event_planned(meta@, self@, *config)->0);
        }
        Ok(Some(ev))
    }
}

// ---------------------------------------------------------------------------
// Mapping whole courses
// ---------------------------------------------------------------------------

/// The events one course's class rows plan, in row order.
pub open spec fn planned_course(
    meta: CourseMetaVal,
    classes: Seq<ClassVal>,
    cfg: EventConfig,
) -> Seq<CalendarEventVal>
    decreases classes.len(),
{
    if classes.len() == 0 {
        Seq::empty()
    } else {
        let rest = planned_course(meta, classes.drop_last(), cfg);
        match event_planned(meta, classes.last(), cfg) {
            Option::Some(e) => rest.push(e),
            Option::None => rest,
        }
    }
}

/// The events a run over all courses plans, in course order.
pub open spec fn planned_all(cs: Seq<CourseVal>, cfg: EventConfig) -> Seq<CalendarEventVal>
    decreases cs.len(),
{
    if cs.len() == 0 {
        Seq::empty()
    } else {
        planned_all(cs.drop_last(), cfg) + planned_course(
            cs.last().meta,
            cs.last().classes,
            cfg,
        )
    }
}

pub open spec fn courses_view(v: Seq<Course>) -> Seq<CourseVal> {
    v.map_values(|c: Course| c@)
}

pub open spec fn events_view(v: Seq<CalendarEvent>) -> Seq<CalendarEventVal> {
    v.map_values(|e: CalendarEvent| e@)
}

/// Maps every course to the events its classes plan, in course order and
/// row order within each course: exactly the planned sequence. Event
/// synthesis cannot fail here, since the recurrence bound always resolves.
pub fn generate(courses: &Vec<Course>, config: &EventConfig) -> (r: Vec<CalendarEvent>)
    requires
        forall|i: int| 0 <= i < courses@.len() ==> (#[trigger] courses@[i]).wf(),
    ensures
        events_view(r@) == planned_all(courses_view(courses@), *config),
{
    let ghost cv = courses_view(courses@);
    let mut events: Vec<CalendarEvent> = Vec::new();
    let n = courses.len();
    let mut ci: usize = 0;
    while ci < n
        invariant
            0 <= ci <= n,
            n == courses@.len(),
            cv == courses_view(courses@),
            cv.len() == n,
            forall|i: int| 0 <= i < courses@.len() ==> (#[trigger] courses@[i]).wf(),
            events_view(events@) == planned_all(cv.subrange(0, ci as int), *config),
        decreases n - ci,
    {
        let course = &courses[ci];
        let ghost meta_v = course.meta@;
        let ghost class_vs = course@.classes;
        let m = course.classes.len();
        let mut cj: usize = 0;
        while cj < m
            invariant
                0 <= cj <= m,
                0 <= ci < n,
                n == courses@.len(),
                cv == courses_view(courses@),
                cv.len() == n,
                forall|i: int| 0 <= i < courses@.len() ==> (#[trigger] courses@[i]).wf(),
                course == &courses@[ci as int],
                meta_v == course.meta@,
                class_vs == course@.classes,
                m == course.classes@.len(),
                class_vs.len() == m,
                events_view(events@) == planned_all(cv.subrange(0, ci as int), *config)
                    + planned_course(meta_v, class_vs.subrange(0, cj as int), *config),
            decreases m - cj,
        {
            let class = &course.classes[cj];
            proof {
                assert(course.classes@[cj as int].wf());
                assert(class_vs[cj as int] == course.classes@[cj as int]@);
                assert(class_vs.subrange(0, cj + 1).drop_last() =~= class_vs.subrange(
                    0,
                    cj as int,
                ));
                assert(class_vs.subrange(0, cj + 1).last() == class_vs[cj as int]);
            }
            match class.as_event(&course.meta, config) {
                Ok(Some(e)) => {
                    proof {
                        assert(events_view(events@.push(e)) =~= events_view(events@).push(e@));
                    }
                    events.push(e);
                },
                Ok(None) => {
                },
                Err(_) => {
                    // Unreachable: event synthesis promises a result.
                },
            }
            cj += 1;
        }
        proof {
            assert(class_vs.subrange(0, m as int) =~= class_vs);
            assert(cv.subrange(0, ci + 1).drop_last() =~= cv.subrange(0, ci as int));
            assert(cv.subrange(0, ci + 1).last() == cv[ci as int]);
            assert(cv[ci as int] == courses@[ci as int]@);
        }
        ci += 1;
    }
    proof {
        assert(cv.subrange(0, n as int) =~= cv);
    }
    events
}

} // verus!
