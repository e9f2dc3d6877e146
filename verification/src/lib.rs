pub mod records;
pub mod data;
pub mod errors;
pub mod event;
pub mod parse;
pub mod rrule;
pub mod text;
pub mod tz;

pub use data::Class;
pub use data::ClassVal;
pub use data::Course;
pub use data::CourseMeta;
pub use data::CourseMetaVal;
pub use data::CourseVal;
pub use data::Date;
pub use data::DateVal;
pub use data::Dates;
pub use data::DatesVal;
pub use data::Mode;
pub use data::ModeVal;
pub use data::Schedule;
pub use data::ScheduleVal;
pub use data::Status;
pub use data::StatusVal;
pub use data::Time;
pub use data::TimeVal;
pub use errors::Error;
pub use errors::ErrorVal;
pub use errors::Field;
pub use event::CalendarEvent;
pub use event::CalendarEventVal;
pub use event::EventClass;
pub use event::EventConfig;
pub use event::EventDateTime;
pub use event::EventStatus;
pub use event::convert_time_in_ny;
pub use event::generate;
pub use parse::Hygiene;
pub use parse::hygiene_opt;
pub use parse::parse_date;
pub use parse::parse_dates;
pub use parse::parse_mode;
pub use parse::parse_schedule;
pub use parse::parse_status;
pub use parse::parse_time;
pub use parse::parse_title;
pub use records::BuiltCourse;
pub use records::ClassBundle;
pub use records::ClassDrop;
pub use records::build_class;
pub use records::build_course;
pub use rrule::format_weekday;
pub use tz::UtcInstant;
pub use tz::format_ny_time;
pub use tz::format_utc_stamp;
