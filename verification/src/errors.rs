use vstd::prelude::*;

verus! {

/// The source field a diagnostic points at.
#[derive(Debug, Clone, Copy, PartialEq, Eq, Structural)]
pub enum Field {
    Title,
    SubjectCode,
    CourseCode,
    Status,
    ClassNumber,
    Schedule,
    Location,
    Mode,
    Instructor,
    Dates,
    Date,
    Time,
}

/// Ghost model of `Error`.
#[verifier::ext_equal]
pub enum ErrorVal {
    FieldFormat { field: Field, raw: Seq<char> },
    MissingField { field: Field },
    RecurrenceBuild,
}

/// Why one class or course was dropped.
#[derive(Debug, Clone)]
pub enum Error {
    /// A required field's text does not match its micro-format; carries the
    /// offending raw text.
    FieldFormat { field: Field, raw: String },
    /// A required field was entirely absent from the source bundle.
    MissingField { field: Field },
    /// The schedule was determined but the recurrence bound could not be
    /// resolved in the institution's timezone. Kept for the failure
    /// taxonomy; for the end-of-day bound this library uses it is proved
    /// unreachable.
    RecurrenceBuild,
}

impl View for Error {
    type V = ErrorVal;

    open spec fn view(&self) -> ErrorVal {
        match self {
            Error::FieldFormat { field, raw } => ErrorVal::FieldFormat {
                field: *field,
                raw: raw@,
            },
            Error::MissingField { field } => ErrorVal::MissingField { field: *field },
            Error::RecurrenceBuild => ErrorVal::RecurrenceBuild,
        }
    }
}

} // verus!
