use vstd::prelude::*;

use crate::data::Class;
use crate::data::ClassVal;
use crate::data::Course;
use crate::data::CourseMeta;
use crate::data::CourseMetaVal;
use crate::data::Schedule;
use crate::errors::Error;
use crate::errors::ErrorVal;
use crate::errors::Field;
use crate::parse::dates_error;
use crate::parse::dates_parsed;
use crate::parse::hygiene_opt;
use crate::parse::hygiene_spec;
use crate::parse::mode_parsed;
use crate::parse::parse_dates;
use crate::parse::parse_mode;
use crate::parse::parse_schedule;
use crate::parse::parse_status;
use crate::parse::parse_title;
use crate::parse::schedule_parsed;
use crate::parse::status_parsed;
use crate::parse::title_error;
use crate::parse::title_parsed;
use crate::text::all_digits;
use crate::text::digits_val;
use crate::text::parse_u32_digits;

verus! {

// ---------------------------------------------------------------------------
// Raw bundles
// ---------------------------------------------------------------------------

#[verifier::ext_equal]
pub struct BundleVal {
    pub number: Option<Seq<char>>,
    pub section: Option<Seq<char>>,
    pub schedule: Option<Seq<char>>,
    pub location: Option<Seq<char>>,
    pub mode: Option<Seq<char>>,
    pub instructor: Option<Seq<char>>,
    pub dates: Option<Seq<char>>,
}

/// The raw text fields of one class row, as the document-query
/// collaborator hands them over; `None` marks a field the source did not
/// carry at all.
#[derive(Debug, Clone)]
pub struct ClassBundle {
    pub number: Option<String>,
    pub section: Option<String>,
    pub schedule: Option<String>,
    pub location: Option<String>,
    pub mode: Option<String>,
    pub instructor: Option<String>,
    pub dates: Option<String>,
}

impl View for ClassBundle {
    type V = BundleVal;

    open spec fn view(&self) -> BundleVal {
        BundleVal {
            number: match self.number {
                Option::Some(ref s) => Option::Some(s@),
                Option::None => Option::None,
            },
            section: match self.section {
                Option::Some(ref s) => Option::Some(s@),
                Option::None => Option::None,
            },
            schedule: match self.schedule {
                Option::Some(ref s) => Option::Some(s@),
                Option::None => Option::None,
            },
            location: match self.location {
                Option::Some(ref s) => Option::Some(s@),
                Option::None => Option::None,
            },
            mode: match self.mode {
                Option::Some(ref s) => Option::Some(s@),
                Option::None => Option::None,
            },
            instructor: match self.instructor {
                Option::Some(ref s) => Option::Some(s@),
                Option::None => Option::None,
            },
            dates: match self.dates {
                Option::Some(ref s) => Option::Some(s@),
                Option::None => Option::None,
            },
        }
    }
}

impl Default for ClassBundle {
    /// An empty bundle: every field absent.
    fn default() -> (r: Self)
        ensures
            r@ == (BundleVal {
                number: Option::None,
                section: Option::None,
                schedule: Option::None,
                location: Option::None,
                mode: Option::None,
                instructor: Option::None,
                dates: Option::None,
            }),
    {
        ClassBundle {
            number: None,
            section: None,
            schedule: None,
            location: None,
            mode: None,
            instructor: None,
            dates: None,
        }
    }
}

// ---------------------------------------------------------------------------
// One class row
// ---------------------------------------------------------------------------

/// A cleaned optional class number: present text must be a decimal number
/// fitting `u32`.
pub open spec fn number_ok(t: Seq<char>) -> bool {
    t.len() > 0 && all_digits(t) && digits_val(t) <= u32::MAX
}

/// What building one class row yields, walking the fields in source order:
/// class number, section, instructor, location, schedule, mode, dates.
/// The first offense decides the diagnostic.
pub open spec fn class_built(b: BundleVal, fallback: bool) -> Result<ClassVal, ErrorVal> {
    let number = hygiene_spec(b.number);
    if number is Some && !number_ok(number->0) {
        Result::Err(ErrorVal::FieldFormat { field: Field::ClassNumber, raw: number->0 })
    } else if b.instructor is None {
        Result::Err(ErrorVal::MissingField { field: Field::Instructor })
    } else if hygiene_spec(b.location) is None {
        Result::Err(ErrorVal::MissingField { field: Field::Location })
    } else if b.schedule is None {
        Result::Err(ErrorVal::MissingField { field: Field::Schedule })
    } else if schedule_parsed(b.schedule->0) is None && !fallback {
        Result::Err(ErrorVal::FieldFormat { field: Field::Schedule, raw: b.schedule->0 })
    } else if b.mode is None {
        Result::Err(ErrorVal::MissingField { field: Field::Mode })
    } else if b.dates is None {
        Result::Err(ErrorVal::MissingField { field: Field::Dates })
    } else if dates_parsed(b.dates->0) is None {
        Result::Err(dates_error(b.dates->0))
    } else {
        Result::Ok(
            ClassVal {
                number: match number {
                    Option::Some(t) => Option::Some(digits_val(t)),
                    Option::None => Option::None,
                },
                section: hygiene_spec(b.section),
                schedule: match schedule_parsed(b.schedule->0) {
                    Option::Some(sv) => sv,
                    Option::None => crate::data::ScheduleVal::Unparseable(b.schedule->0),
                },
                location: hygiene_spec(b.location)->0,
                mode: mode_parsed(b.mode->0),
                instructor: b.instructor->0,
                dates: dates_parsed(b.dates->0)->0,
            },
        )
    }
}

/// Builds one class from its raw bundle, or says which field offended.
pub fn build_class(bundle: &ClassBundle, fallback: bool) -> (r: Result<Class, Error>)
    ensures
        match class_built(bundle@, fallback) {
            Result::Ok(cv) => r matches Ok(c) && c@ == cv && c.wf(),
            Result::Err(ev) => r matches Err(e) && e@ == ev,
        },
{
    let number_text = hygiene_opt(
        match &bundle.number {
            Some(s) => Some(s.as_str()),
            None => None,
        },
    );
    let number: Option<u32> = match number_text {
        Some(t) => {
            match parse_u32_digits(t) {
                Some(v) => Some(v),
                None => {
                    return Err(
                        Error::FieldFormat { field: Field::ClassNumber, raw: t.to_owned() },
                    );
                },
            }
        },
        None => None,
    };
    let section: Option<String> = match hygiene_opt(
        match &bundle.section {
            Some(s) => Some(s.as_str()),
            None => None,
        },
    ) {
        Some(t) => Some(t.to_owned()),
        None => None,
    };
    let instructor: String = match &bundle.instructor {
        Some(s) => s.clone(),
        None => {
            return Err(Error::MissingField { field: Field::Instructor });
        },
    };
    let location: String = match hygiene_opt(
        match &bundle.location {
            Some(s) => Some(s.as_str()),
            None => None,
        },
    ) {
        Some(t) => t.to_owned(),
        None => {
            return Err(Error::MissingField { field: Field::Location });
        },
    };
    let schedule: Schedule = match &bundle.schedule {
        Some(s) => {
            match parse_schedule(s.as_str(), fallback) {
                Ok(sch) => sch,
                Err(e) => {
                    return Err(e);
                },
            }
        },
        None => {
            return Err(Error::MissingField { field: Field::Schedule });
        },
    };
    let mode = match &bundle.mode {
        Some(s) => parse_mode(s.as_str()),
        None => {
            return Err(Error::MissingField { field: Field::Mode });
        },
    };
    let dates = match &bundle.dates {
        Some(s) => {
            match parse_dates(s.as_str()) {
                Ok(d) => d,
                Err(e) => {
                    return Err(e);
                },
            }
        },
        None => {
            return Err(Error::MissingField { field: Field::Dates });
        },
    };
    let c = Class { number, section, schedule, location, mode, instructor, dates };
    proof {
        assert(c@ =~= class_built(bundle@, fallback)->Ok_0);
    }
    Ok(c)
}

// ---------------------------------------------------------------------------
// Whole courses
// ---------------------------------------------------------------------------

pub open spec fn opt_str_view(o: Option<&str>) -> Option<Seq<char>> {
    match o {
        Option::Some(s) => Option::Some(s@),
        Option::None => Option::None,
    }
}

/// What the course-identity fields yield: the shared metadata, with
/// `class_num` set to the number of class rows found under the course.
pub open spec fn course_meta_built(
    title: Option<Seq<char>>,
    status: Option<Seq<char>>,
    nrows: int,
) -> Result<CourseMetaVal, ErrorVal> {
    if title is None {
        Result::Err(ErrorVal::MissingField { field: Field::Title })
    } else if status is None {
        Result::Err(ErrorVal::MissingField { field: Field::Status })
    } else {
        match title_parsed(title->0) {
            Option::None => Result::Err(title_error(title->0)),
            Option::Some(v) => Result::Ok(
                CourseMetaVal {
                    status: status_parsed(status->0),
                    subject: v.0,
                    code: v.1,
                    title: v.2,
                    class_num: nrows,
                },
            ),
        }
    }
}

/// The classes that survive building, in row order.
pub open spec fn classes_built(bundles: Seq<BundleVal>, fallback: bool) -> Seq<ClassVal>
    decreases bundles.len(),
{
    if bundles.len() == 0 {
        Seq::empty()
    } else {
        let rest = classes_built(bundles.drop_last(), fallback);
        match class_built(bundles.last(), fallback) {
            Result::Ok(c) => rest.push(c),
            Result::Err(_) => rest,
        }
    }
}

/// The rows that are dropped, each with its index and diagnostic.
pub open spec fn drops_built(bundles: Seq<BundleVal>, fallback: bool) -> Seq<(int, ErrorVal)>
    decreases bundles.len(),
{
    if bundles.len() == 0 {
        Seq::empty()
    } else {
        let rest = drops_built(bundles.drop_last(), fallback);
        match class_built(bundles.last(), fallback) {
            Result::Ok(_) => rest,
            Result::Err(e) => rest.push((bundles.len() - 1, e)),
        }
    }
}

pub open spec fn bundles_view(v: Seq<ClassBundle>) -> Seq<BundleVal> {
    v.map_values(|b: ClassBundle| b@)
}

/// One dropped class row: its position under the course and why.
#[derive(Debug, Clone)]
pub struct ClassDrop {
    pub index: usize,
    pub error: Error,
}

pub open spec fn drops_view(v: Seq<ClassDrop>) -> Seq<(int, ErrorVal)> {
    v.map_values(|d: ClassDrop| (d.index as int, d.error@))
}

/// One assembled course plus the diagnostics of its dropped class rows.
#[derive(Debug, Clone)]
pub struct BuiltCourse {
    pub course: Course,
    pub dropped: Vec<ClassDrop>,
}

/// Assembles one course from its raw text: a missing or malformed
/// course-identity field fails the whole course; a failing class row is
/// dropped with its diagnostic while its siblings proceed. Every row
/// found is counted in `class_num`, parsed or not.
pub fn build_course(
    title: Option<&str>,
    status: Option<&str>,
    bundles: &Vec<ClassBundle>,
    fallback: bool,
) -> (r: Result<BuiltCourse, Error>)
    requires
        bundles@.len() <= u8::MAX,
    ensures
        match course_meta_built(opt_str_view(title), opt_str_view(status), bundles@.len() as int) {
            Result::Err(ev) => r matches Err(e) && e@ == ev,
            Result::Ok(mv) => r matches Ok(bc) && bc.course.meta@ == mv && bc.course@.classes
                == classes_built(bundles_view(bundles@), fallback) && drops_view(bc.dropped@)
                == drops_built(bundles_view(bundles@), fallback) && bc.course.wf(),
        },
{
    let title_text = match title {
        Some(t) => t,
        None => {
            return Err(Error::MissingField { field: Field::Title });
        },
    };
    let status_text = match status {
        Some(t) => t,
        None => {
            return Err(Error::MissingField { field: Field::Status });
        },
    };
    let (subject, code, title_tail) = match parse_title(title_text) {
        Ok(v) => v,
        Err(e) => {
            return Err(e);
        },
    };
    let mut meta = CourseMeta {
        status: parse_status(status_text),
        subject,
        code,
        title: title_tail,
        class_num: 0,
    };
    let ghost bv = bundles_view(bundles@);
    let ghost meta0 = meta@;
    let n = bundles.len();
    let mut classes: Vec<Class> = Vec::new();
    let mut dropped: Vec<ClassDrop> = Vec::new();
    let mut i: usize = 0;
    while i < n
        invariant
            0 <= i <= n,
            n == bundles@.len(),
            n <= u8::MAX,
            bv == bundles_view(bundles@),
            bv.len() == n,
            meta.class_num == i,
            meta@ == (CourseMetaVal { class_num: i as int, ..meta0 }),
            classes@.map_values(|c: Class| c@) == classes_built(bv.subrange(0, i as int), fallback),
            drops_view(dropped@) == drops_built(bv.subrange(0, i as int), fallback),
            forall|k: int| 0 <= k < classes@.len() ==> (#[trigger] classes@[k]).wf(),
        decreases n - i,
    {
        meta.add_class_num();
        proof {
            assert(bv.subrange(0, i + 1).drop_last() =~= bv.subrange(0, i as int));
            assert(bv.subrange(0, i + 1).last() == bv[i as int]);
            assert(bv[i as int] == bundles@[i as int]@);
        }
        match build_class(&bundles[i], fallback) {
            Ok(c) => {
                proof {
                    assert(classes@.push(c).map_values(|x: Class| x@) =~= classes@.map_values(
                        |x: Class| x@,
                    ).push(c@));
                }
                classes.push(c);
            },
            Err(e) => {
                let d = ClassDrop { index: i, error: e };
                proof {
                    assert(drops_view(dropped@.push(d)) =~= drops_view(dropped@).push(
                        (i as int, e@),
                    ));
                }
                dropped.push(d);
            },
        }
        i += 1;
    }
    let course = Course { meta, classes };
    let bc = BuiltCourse { course, dropped };
    proof {
        assert(bv.subrange(0, n as int) =~= bv);
        assert(bc.course@.classes =~= bc.course.classes@.map_values(|c: Class| c@));
    }
    Ok(bc)
}

} // verus!
