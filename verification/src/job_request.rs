//! Requests for analysis, and how a stored record is read as one.

use crate::error::{ConversionError, Field, Problem};
use crate::record::{texts_of, AttributeView, Record};
use crate::status::Status;
use crate::numeral::{i32_value, i64_value, parse_i32, parse_i64};
use vstd::prelude::*;

verus! {

/// A request for one or more analyses over a set of sources.
#[derive(Debug)]
pub struct JobRequest {
    pub id: String,
    /// The key of the request in the store.
    pub request_id: String,
    pub author: String,
    pub name: String,
    pub description: String,
    /// The names of the analyses asked for, in the order asked.
    pub analysis_types: Vec<String>,
    /// When the request was made, in seconds since the epoch.
    pub timestamp: i64,
    pub status: Status,
    pub sources: Vec<String>,
    /// The first second of the range to analyse.
    pub range_start: i64,
    /// The last second of the range to analyse.
    pub range_end: i64,
    /// The sampling interval.
    pub granularity: i32,
}

/// What a [`JobRequest`] holds.
pub struct JobRequestView {
    pub id: Seq<char>,
    pub request_id: Seq<char>,
    pub author: Seq<char>,
    pub name: Seq<char>,
    pub description: Seq<char>,
    pub analysis_types: Seq<Seq<char>>,
    pub timestamp: i64,
    pub status: Status,
    pub sources: Seq<Seq<char>>,
    pub range_start: i64,
    pub range_end: i64,
    pub granularity: i32,
}

impl View for JobRequest {
    type V = JobRequestView;

    open spec fn view(&self) -> JobRequestView {
        JobRequestView {
            id: self.id@,
            request_id: self.request_id@,
            author: self.author@,
            name: self.name@,
            description: self.description@,
            analysis_types: self.analysis_types.deep_view(),
            timestamp: self.timestamp,
            status: self.status,
            sources: self.sources.deep_view(),
            range_start: self.range_start,
            range_end: self.range_end,
            granularity: self.granularity,
        }
    }
}

/// The error that names `field` and `problem`.
pub open spec fn fault<T>(field: Field, problem: Problem) -> Result<T, ConversionError> {
    Err(ConversionError { field, problem })
}

/// The text attribute `field` of `item`.
pub open spec fn text_at(item: Map<Seq<char>, AttributeView>, field: Field) -> Result<
    Seq<char>,
    ConversionError,
> {
    if !item.dom().contains(field.attribute()) {
        fault(field, Problem::Missing)
    } else {
        match item[field.attribute()] {
            AttributeView::S(text) => Ok(text),
            _ => fault(field, Problem::Invalid),
        }
    }
}

/// The text of the number attribute `field` of `item`.
pub open spec fn numeral_at(item: Map<Seq<char>, AttributeView>, field: Field) -> Result<
    Seq<char>,
    ConversionError,
> {
    if !item.dom().contains(field.attribute()) {
        fault(field, Problem::Missing)
    } else {
        match item[field.attribute()] {
            AttributeView::N(text) => Ok(text),
            _ => fault(field, Problem::Invalid),
        }
    }
}

/// The number attribute `field` of `item`, as an `i64`.
pub open spec fn i64_at(item: Map<Seq<char>, AttributeView>, field: Field) -> Result<
    i64,
    ConversionError,
> {
    match numeral_at(item, field) {
        Ok(text) => match i64_value(text) {
            Some(value) => Ok(value),
            None => fault(field, Problem::Malformed),
        },
        Err(e) => Err(e),
    }
}

/// The number attribute `field` of `item`, as an `i32`.
pub open spec fn i32_at(item: Map<Seq<char>, AttributeView>, field: Field) -> Result<
    i32,
    ConversionError,
> {
    match numeral_at(item, field) {
        Ok(text) => match i32_value(text) {
            Some(value) => Ok(value),
            None => fault(field, Problem::Malformed),
        },
        Err(e) => Err(e),
    }
}

/// The status that the text attribute `field` of `item` names.
pub open spec fn status_at(item: Map<Seq<char>, AttributeView>, field: Field) -> Result<
    Status,
    ConversionError,
> {
    match text_at(item, field) {
        Ok(text) => match Status::parsed(text) {
            Some(status) => Ok(status),
            None => fault(field, Problem::Malformed),
        },
        Err(e) => Err(e),
    }
}

/// The texts of the list attribute `field` of `item`. A list with an item
/// that is no text is `Invalid`.
pub open spec fn texts_at(item: Map<Seq<char>, AttributeView>, field: Field) -> Result<
    Seq<Seq<char>>,
    ConversionError,
> {
    if !item.dom().contains(field.attribute()) {
        fault(field, Problem::Missing)
    } else {
        match item[field.attribute()] {
            AttributeView::L(items) => match texts_of(items) {
                Some(texts) => Ok(texts),
                None => fault(field, Problem::Invalid),
            },
            _ => fault(field, Problem::Invalid),
        }
    }
}

/// Reads the text attribute `field`.
pub fn read_text(item: &Record, field: Field) -> (text: Result<String, ConversionError>)
    ensures
        match text {
            Ok(found) => text_at(item@, field) == Ok::<Seq<char>, ConversionError>(found@),
            Err(e) => text_at(item@, field) == Err::<Seq<char>, ConversionError>(e),
        },
{
    match item.get(field.attribute_name()) {
        None => Err(ConversionError { field, problem: Problem::Missing }),
        Some(value) => match value.as_s() {
            Some(text) => Ok(text.clone()),
            None => Err(ConversionError { field, problem: Problem::Invalid }),
        },
    }
}

/// Reads the text of the number attribute `field`.
fn read_numeral<'a>(item: &'a Record, field: Field) -> (text: Result<&'a String, ConversionError>)
    ensures
        match text {
            Ok(found) => numeral_at(item@, field) == Ok::<Seq<char>, ConversionError>(found@),
            Err(e) => numeral_at(item@, field) == Err::<Seq<char>, ConversionError>(e),
        },
{
    match item.get(field.attribute_name()) {
        None => Err(ConversionError { field, problem: Problem::Missing }),
        Some(value) => match value.as_n() {
            Some(text) => Ok(text),
            None => Err(ConversionError { field, problem: Problem::Invalid }),
        },
    }
}

/// Reads the number attribute `field` as an `i64`.
pub fn read_i64(item: &Record, field: Field) -> (value: Result<i64, ConversionError>)
    ensures
        value == i64_at(item@, field),
{
    let text = read_numeral(item, field)?;
    match parse_i64(text.as_str()) {
        Some(value) => Ok(value),
        None => Err(ConversionError { field, problem: Problem::Malformed }),
    }
}

/// Reads the number attribute `field` as an `i32`.
pub fn read_i32(item: &Record, field: Field) -> (value: Result<i32, ConversionError>)
    ensures
        value == i32_at(item@, field),
{
    let text = read_numeral(item, field)?;
    match parse_i32(text.as_str()) {
        Some(value) => Ok(value),
        None => Err(ConversionError { field, problem: Problem::Malformed }),
    }
}

/// Reads the status that the text attribute `field` names.
pub fn read_status(item: &Record, field: Field) -> (status: Result<Status, ConversionError>)
    ensures
        status == status_at(item@, field),
{
    match item.get(field.attribute_name()) {
        None => Err(ConversionError { field, problem: Problem::Missing }),
        Some(value) => match value.as_s() {
            Some(text) => match Status::from_str(text.as_str()) {
                Ok(status) => Ok(status),
                Err(_) => Err(ConversionError { field, problem: Problem::Malformed }),
            },
            None => Err(ConversionError { field, problem: Problem::Invalid }),
        },
    }
}

/// Reads the texts of the list attribute `field`.
pub fn read_texts(item: &Record, field: Field) -> (texts: Result<Vec<String>, ConversionError>)
    ensures
        match texts {
            Ok(found) => texts_at(item@, field) == Ok::<Seq<Seq<char>>, ConversionError>(
                found.deep_view(),
            ),
            Err(e) => texts_at(item@, field) == Err::<Seq<Seq<char>>, ConversionError>(e),
        },
{
    match item.get(field.attribute_name()) {
        None => Err(ConversionError { field, problem: Problem::Missing }),
        Some(value) => match value.as_l() {
            None => Err(ConversionError { field, problem: Problem::Invalid }),
            Some(items) => {
                let ghost seen = value@->L_0;
                let mut texts: Vec<String> = Vec::new();
                let mut i: usize = 0;
                while i < items.len()
                    invariant
                        i <= items.len(),
                        item@.dom().contains(field.attribute()),
                        item@[field.attribute()] == AttributeView::L(seen),
                        seen.len() == items.len(),
                        forall|j: int| 0 <= j < seen.len() ==> seen[j] == (#[trigger] items@[j])@,
                        texts.len() == i,
                        forall|j: int| 0 <= j < i ==> seen[j] == AttributeView::S((#[trigger] texts@[j])@),
                    decreases items.len() - i,
                {
                    match items[i].as_s() {
                        Some(text) => texts.push(text.clone()),
                        None => {
                            assert(!(seen[i as int] is S));
                            return Err(ConversionError { field, problem: Problem::Invalid });
                        },
                    }
                    i += 1;
                }
                proof {
                    assert forall|j: int| 0 <= j < seen.len() implies #[trigger] seen[j] is S by {
                        assert(seen[j] == AttributeView::S(texts@[j]@));
                    }
                    assert(texts_of(seen)->Some_0 =~= texts.deep_view()) by {
                        assert forall|j: int| 0 <= j < seen.len() implies texts_of(seen)->Some_0[j]
                            == texts.deep_view()[j] by {
                            assert(seen[j] == AttributeView::S(texts@[j]@));
                        }
                    }
                }
                Ok(texts)
            },
        },
    }
}

/// The request that `item` holds: its attributes read in the order `id`,
/// `requestID`, `jobName`, `author`, `jobDescription`, `analysisTypes`,
/// `creationDate`, `jobStatus`, `sources`, `dateRangeStart`, `dateRangeEnd`,
/// `granularity`; the first that is missing, of the wrong kind or unreadable
/// makes the error.
pub open spec fn request_of(item: Map<Seq<char>, AttributeView>) -> Result<
    JobRequestView,
    ConversionError,
> {
    let id = text_at(item, Field::Id);
    let request_id = text_at(item, Field::RequestId);
    let name = text_at(item, Field::JobName);
    let author = text_at(item, Field::Author);
    let description = text_at(item, Field::JobDescription);
    let analysis_types = texts_at(item, Field::AnalysisTypes);
    let timestamp = i64_at(item, Field::CreationDate);
    let status = status_at(item, Field::JobStatus);
    let sources = texts_at(item, Field::Sources);
    let range_start = i64_at(item, Field::DateRangeStart);
    let range_end = i64_at(item, Field::DateRangeEnd);
    let granularity = i32_at(item, Field::Granularity);
    if id is Err {
        Err(id->Err_0)
    } else if request_id is Err {
        Err(request_id->Err_0)
    } else if name is Err {
        Err(name->Err_0)
    } else if author is Err {
        Err(author->Err_0)
    } else if description is Err {
        Err(description->Err_0)
    } else if analysis_types is Err {
        Err(analysis_types->Err_0)
    } else if timestamp is Err {
        Err(timestamp->Err_0)
    } else if status is Err {
        Err(status->Err_0)
    } else if sources is Err {
        Err(sources->Err_0)
    } else if range_start is Err {
        Err(range_start->Err_0)
    } else if range_end is Err {
        Err(range_end->Err_0)
    } else if granularity is Err {
        Err(granularity->Err_0)
    } else {
        Ok(
            JobRequestView {
                id: id->Ok_0,
                request_id: request_id->Ok_0,
                author: author->Ok_0,
                name: name->Ok_0,
                description: description->Ok_0,
                analysis_types: analysis_types->Ok_0,
                timestamp: timestamp->Ok_0,
                status: status->Ok_0,
                sources: sources->Ok_0,
                range_start: range_start->Ok_0,
                range_end: range_end->Ok_0,
                granularity: granularity->Ok_0,
            },
        )
    }
}

/// Reads a stored record as a request.
pub fn convert_item_to_job_request(item: &Record) -> (request: Result<JobRequest, ConversionError>)
    ensures
        match request {
            Ok(found) => request_of(item@) == Ok::<JobRequestView, ConversionError>(found@),
            Err(e) => request_of(item@) == Err::<JobRequestView, ConversionError>(e),
        },
{
    let id = read_text(item, Field::Id)?;
    let request_id = read_text(item, Field::RequestId)?;
    let name = read_text(item, Field::JobName)?;
    let author = read_text(item, Field::Author)?;
    let description = read_text(item, Field::JobDescription)?;
    let analysis_types = read_texts(item, Field::AnalysisTypes)?;
    let timestamp = read_i64(item, Field::CreationDate)?;
    let status = read_status(item, Field::JobStatus)?;
    let sources = read_texts(item, Field::Sources)?;
    let range_start = read_i64(item, Field::DateRangeStart)?;
    let range_end = read_i64(item, Field::DateRangeEnd)?;
    let granularity = read_i32(item, Field::Granularity)?;
    Ok(
        JobRequest {
            id,
            request_id,
            author,
            name,
            description,
            analysis_types,
            timestamp,
            status,
            sources,
            range_start,
            range_end,
            granularity,
        },
    )
}

} // verus!
