//! What can go wrong, and with which part of a record.

use vstd::prelude::*;
use vstd::string::StringExecFns;

verus! {

/// The attributes that this library reads from stored records.
#[derive(Clone, Copy, Debug, PartialEq, Eq, Structural)]
pub enum Field {
    Id,
    RequestId,
    JobName,
    Author,
    JobDescription,
    AnalysisTypes,
    CreationDate,
    JobStatus,
    Sources,
    DateRangeStart,
    DateRangeEnd,
    Granularity,
    JobId,
    ResponseId,
    LastUpdated,
    InputPath,
    JobType,
    StartTimestamp,
    EndTimestamp,
}

impl Field {
    /// The name under which the store keeps the attribute.
    pub open spec fn attribute(self) -> Seq<char> {
        match self {
            Field::Id => "id"@,
            Field::RequestId => "requestID"@,
            Field::JobName => "jobName"@,
            Field::Author => "author"@,
            Field::JobDescription => "jobDescription"@,
            Field::AnalysisTypes => "analysisTypes"@,
            Field::CreationDate => "creationDate"@,
            Field::JobStatus => "jobStatus"@,
            Field::Sources => "sources"@,
            Field::DateRangeStart => "dateRangeStart"@,
            Field::DateRangeEnd => "dateRangeEnd"@,
            Field::Granularity => "granularity"@,
            Field::JobId => "jobID"@,
            Field::ResponseId => "responseID"@,
            Field::LastUpdated => "lastUpdated"@,
            Field::InputPath => "inputPath"@,
            Field::JobType => "jobType"@,
            Field::StartTimestamp => "startTimestamp"@,
            Field::EndTimestamp => "endTimestamp"@,
        }
    }

    /// The name by which an error speaks of the attribute.
    pub open spec fn label(self) -> Seq<char> {
        match self {
            Field::DateRangeStart => "rangeStart"@,
            Field::DateRangeEnd => "rangeEnd"@,
            Field::JobId => "job id"@,
            other => other.attribute(),
        }
    }

    /// The name by which an error speaks of the attribute.
    pub fn label_name(&self) -> (name: &'static str)
        ensures
            name@ == self.label(),
    {
        match self {
            Field::DateRangeStart => "rangeStart",
            Field::DateRangeEnd => "rangeEnd",
            Field::JobId => "job id",
            other => other.attribute_name(),
        }
    }

    /// The name under which the store keeps the attribute.
    pub fn attribute_name(&self) -> (name: &'static str)
        ensures
            name@ == self.attribute(),
    {
        match self {
            Field::Id => "id",
            Field::RequestId => "requestID",
            Field::JobName => "jobName",
            Field::Author => "author",
            Field::JobDescription => "jobDescription",
            Field::AnalysisTypes => "analysisTypes",
            Field::CreationDate => "creationDate",
            Field::JobStatus => "jobStatus",
            Field::Sources => "sources",
            Field::DateRangeStart => "dateRangeStart",
            Field::DateRangeEnd => "dateRangeEnd",
            Field::Granularity => "granularity",
            Field::JobId => "jobID",
            Field::ResponseId => "responseID",
            Field::LastUpdated => "lastUpdated",
            Field::InputPath => "inputPath",
            Field::JobType => "jobType",
            Field::StartTimestamp => "startTimestamp",
            Field::EndTimestamp => "endTimestamp",
        }
    }
}

/// What is wrong with an attribute.
#[derive(Clone, Copy, Debug, PartialEq, Eq, Structural)]
pub enum Problem {
    /// The record has no attribute of that name.
    Missing,
    /// The attribute is of another kind than the one asked for.
    Invalid,
    /// The attribute's text does not read as what it should hold.
    Malformed,
}

/// A record that is no request, job or response: the first attribute, in
/// the order in which they are read, that is not as it should be.
#[derive(Clone, Copy, Debug, PartialEq, Eq, Structural)]
pub struct ConversionError {
    pub field: Field,
    pub problem: Problem,
}

/// What is said of an attribute whose text does not read as what it
/// should hold.
pub open spec fn malformed_text(field: Field) -> Seq<char> {
    match field {
        Field::CreationDate
        | Field::DateRangeStart
        | Field::DateRangeEnd
        | Field::LastUpdated => "Invalid timestamp format"@,
        Field::Granularity => "Invalid granularity format"@,
        Field::JobStatus => "Failed to parse jobStatus into a Status enum"@,
        Field::JobType => "Failed to deserialize jobType"@,
        Field::StartTimestamp => "Invalid start timestamp format"@,
        Field::EndTimestamp => "Invalid end timestamp format"@,
        other => "Invalid "@ + other.label() + " format"@,
    }
}

impl ConversionError {
    /// What the error says.
    pub open spec fn text(self) -> Seq<char> {
        match self.problem {
            Problem::Missing => "Missing "@ + self.field.label(),
            Problem::Invalid => "Invalid "@ + self.field.label(),
            Problem::Malformed => malformed_text(self.field),
        }
    }

    /// What the error says.
    pub fn message(&self) -> (text: String)
        ensures
            text@ == self.text(),
    {
        match self.problem {
            Problem::Missing => {
                let mut text = "Missing ".to_owned();
                text.append(self.field.label_name());
                text
            },
            Problem::Invalid => {
                let mut text = "Invalid ".to_owned();
                text.append(self.field.label_name());
                text
            },
            Problem::Malformed => match self.field {
                Field::CreationDate
                | Field::DateRangeStart
                | Field::DateRangeEnd
                | Field::LastUpdated => "Invalid timestamp format".to_owned(),
                Field::Granularity => "Invalid granularity format".to_owned(),
                Field::JobStatus => "Failed to parse jobStatus into a Status enum".to_owned(),
                Field::JobType => "Failed to deserialize jobType".to_owned(),
                Field::StartTimestamp => "Invalid start timestamp format".to_owned(),
                Field::EndTimestamp => "Invalid end timestamp format".to_owned(),
                other => {
                    let mut text = "Invalid ".to_owned();
                    text.append(other.label_name());
                    text.append(" format");
                    text
                },
            },
        }
    }
}

/// A status that nothing follows was asked to move on.
#[derive(Clone, Copy, Debug, PartialEq, Eq, Structural)]
pub struct TransitionError;

impl TransitionError {
    /// What the error says.
    pub fn message(&self) -> (text: &'static str)
        ensures
            text@ == "No next status available"@,
    {
        "No next status available"
    }
}

/// The two files that an exploratory analysis leaves behind.
#[derive(Clone, Copy, Debug, PartialEq, Eq, Structural)]
pub enum UploadPart {
    /// The report.
    Report,
    /// The data that the report was drawn from.
    Data,
}

/// Why work on a request or on a job stopped.
#[derive(Debug)]
pub enum Error {
    /// A stored record could not be read.
    Conversion(ConversionError),
    /// A status that nothing follows was asked to move on.
    Transition,
    /// The analysis process ended in failure; `stderr` is what it wrote to
    /// its standard error.
    Execution { stderr: String },
    /// The analysis process ended well, but what it wrote to its standard
    /// output is no text.
    Output,
    /// A copy into the result store ended in failure; `stderr` is what the
    /// copy wrote to its standard error.
    Upload { part: UploadPart, stderr: String },
}

/// What an [`Error`] holds.
pub enum ErrorView {
    Conversion(ConversionError),
    Transition,
    Execution { stderr: Seq<char> },
    Output,
    Upload { part: UploadPart, stderr: Seq<char> },
}

impl View for Error {
    type V = ErrorView;

    open spec fn view(&self) -> ErrorView {
        match self {
            Error::Conversion(e) => ErrorView::Conversion(*e),
            Error::Transition => ErrorView::Transition,
            Error::Execution { stderr } => ErrorView::Execution { stderr: stderr@ },
            Error::Output => ErrorView::Output,
            Error::Upload { part, stderr } => ErrorView::Upload { part: *part, stderr: stderr@ },
        }
    }
}

impl ErrorView {
    /// What the error says.
    pub open spec fn text(self) -> Seq<char> {
        match self {
            ErrorView::Conversion(e) => e.text(),
            ErrorView::Transition => "No next status available"@,
            ErrorView::Execution { stderr } => "Job analysis run failed: "@ + stderr,
            ErrorView::Output => "Job analysis output is not valid UTF-8"@,
            ErrorView::Upload { part: UploadPart::Report, stderr } => "S3 eda report upload failed: "@
                + stderr,
            ErrorView::Upload { part: UploadPart::Data, stderr } => "S3 data upload failed: "@
                + stderr,
        }
    }
}

impl Error {
    /// What the error says.
    pub fn message(&self) -> (text: String)
        ensures
            text@ == self@.text(),
    {
        match self {
            Error::Conversion(e) => e.message(),
            Error::Transition => "No next status available".to_owned(),
            Error::Execution { stderr } => {
                let mut text = "Job analysis run failed: ".to_owned();
                text.append(stderr.as_str());
                text
            },
            Error::Output => "Job analysis output is not valid UTF-8".to_owned(),
            Error::Upload { part: UploadPart::Report, stderr } => {
                let mut text = "S3 eda report upload failed: ".to_owned();
                text.append(stderr.as_str());
                text
            },
            Error::Upload { part: UploadPart::Data, stderr } => {
                let mut text = "S3 data upload failed: ".to_owned();
                text.append(stderr.as_str());
                text
            },
        }
    }

    /// A copy of `self`.
    pub fn duplicate(&self) -> (copy: Error)
        ensures
            copy@ == self@,
    {
        match self {
            Error::Conversion(e) => Error::Conversion(*e),
            Error::Transition => Error::Transition,
            Error::Execution { stderr } => Error::Execution { stderr: stderr.clone() },
            Error::Output => Error::Output,
            Error::Upload { part, stderr } => Error::Upload { part: *part, stderr: stderr.clone() },
        }
    }
}

} // verus!
