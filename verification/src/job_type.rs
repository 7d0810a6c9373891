//! The kinds of analysis, and which of them a request asks for.

use crate::job_request::JobRequest;
use crate::text::same_text;
use vstd::prelude::*;

verus! {

/// A kind of analysis. `Nothing` stands for no analysis at all: it has a
/// name, but no request can ask for it and nothing runs it.
#[derive(Clone, Copy, Debug, PartialEq, Eq, Structural)]
pub enum JobType {
    Eda,
    Corr,
    SimulatedJob,
    SimulatedError,
    Nothing,
}

/// A text that names no kind of analysis.
#[derive(Clone, Copy, Debug, PartialEq, Eq, Structural)]
pub struct ParseJobTypeError;

impl ParseJobTypeError {
    /// What the error says.
    pub fn message(&self) -> (text: &'static str)
        ensures
            text@ == "invalid job_type"@,
    {
        "invalid job_type"
    }
}

impl JobType {
    /// The name of `self`.
    pub open spec fn text(self) -> Seq<char> {
        match self {
            JobType::Eda => "Exploratory Data Analysis"@,
            JobType::Corr => "Correlation"@,
            JobType::SimulatedJob => "Simulated Job"@,
            JobType::SimulatedError => "Simulated Error"@,
            JobType::Nothing => "NONE"@,
        }
    }

    /// The kind that `text` names, if it names one.
    pub open spec fn parsed(text: Seq<char>) -> Option<JobType> {
        if text == "Exploratory Data Analysis"@ {
            Some(JobType::Eda)
        } else if text == "Correlation"@ {
            Some(JobType::Corr)
        } else if text == "Simulated Job"@ {
            Some(JobType::SimulatedJob)
        } else if text == "Simulated Error"@ {
            Some(JobType::SimulatedError)
        } else if text == "NONE"@ {
            Some(JobType::Nothing)
        } else {
            None
        }
    }

    /// The kind that a request asks for by `name`: any kind but `Nothing`.
    pub open spec fn requested(name: Seq<char>) -> Option<JobType> {
        match JobType::parsed(name) {
            Some(JobType::Nothing) => None,
            other => other,
        }
    }

    /// The kinds that `names` ask for, in their order. A name that asks
    /// for no kind leaves no trace.
    pub open spec fn selected(names: Seq<Seq<char>>) -> Seq<JobType>
        decreases names.len(),
    {
        if names.len() == 0 {
            Seq::empty()
        } else {
            let earlier = JobType::selected(names.drop_last());
            match JobType::requested(names.last()) {
                Some(kind) => earlier.push(kind),
                None => earlier,
            }
        }
    }

    /// Reads a kind from its name.
    pub fn from_str(s: &str) -> (kind: Result<JobType, ParseJobTypeError>)
        ensures
            kind == match JobType::parsed(s@) {
                Some(found) => Ok::<JobType, ParseJobTypeError>(found),
                None => Err(ParseJobTypeError),
            },
    {
        if same_text(s, "Exploratory Data Analysis") {
            Ok(JobType::Eda)
        } else if same_text(s, "Correlation") {
            Ok(JobType::Corr)
        } else if same_text(s, "Simulated Job") {
            Ok(JobType::SimulatedJob)
        } else if same_text(s, "Simulated Error") {
            Ok(JobType::SimulatedError)
        } else if same_text(s, "NONE") {
            Ok(JobType::Nothing)
        } else {
            Err(ParseJobTypeError)
        }
    }

    /// The name of `self`, borrowed.
    pub fn as_str(&self) -> (text: &'static str)
        ensures
            text@ == self.text(),
    {
        match self {
            JobType::Eda => "Exploratory Data Analysis",
            JobType::Corr => "Correlation",
            JobType::SimulatedJob => "Simulated Job",
            JobType::SimulatedError => "Simulated Error",
            JobType::Nothing => "NONE",
        }
    }

    /// The name of `self`, owned.
    pub fn to_text(&self) -> (text: String)
        ensures
            text@ == self.text(),
    {
        self.as_str().to_owned()
    }

    /// The kinds of analysis that `job_request` asks for, in the order in
    /// which it names them. Names that stand for no kind are passed over.
    pub fn from_request(job_request: &JobRequest) -> (kinds: Vec<JobType>)
        ensures
            kinds@ == JobType::selected(job_request@.analysis_types),
            forall|i: int| 0 <= i < kinds.len() ==> kinds@[i] != JobType::Nothing,
    {
        let names = &job_request.analysis_types;
        let mut kinds: Vec<JobType> = Vec::new();
        let mut i: usize = 0;
        assert(names.deep_view().take(0) =~= Seq::<Seq<char>>::empty());
        while i < names.len()
            invariant
                i <= names.len(),
                kinds@ == JobType::selected(names.deep_view().take(i as int)),
                forall|j: int| 0 <= j < kinds.len() ==> kinds@[j] != JobType::Nothing,
            decreases names.len() - i,
        {
            let ghost longer = names.deep_view().take(i + 1);
            assert(longer.drop_last() =~= names.deep_view().take(i as int));
            assert(longer.last() == names@[i as int]@);
            match JobType::from_str(names[i].as_str()) {
                Ok(JobType::Nothing) => {},
                Ok(kind) => kinds.push(kind),
                Err(_) => {},
            }
            i += 1;
        }
        assert(names.deep_view().take(i as int) =~= names.deep_view());
        kinds
    }

    /// Every kind is read back from its own name.
    pub proof fn lemma_text_round_trip(self)
        ensures
            JobType::parsed(self.text()) == Some(self),
    {
        reveal_strlit("Exploratory Data Analysis");
        reveal_strlit("Correlation");
        reveal_strlit("Simulated Job");
        reveal_strlit("Simulated Error");
        reveal_strlit("NONE");
        assert("Exploratory Data Analysis"@.len() == 25);
        assert("Correlation"@.len() == 11);
        assert("Simulated Job"@.len() == 13);
        assert("Simulated Error"@.len() == 15);
        assert("NONE"@.len() == 4);
    }

    /// A request that asks for nothing, or only by names that stand for no
    /// kind, selects nothing.
    pub proof fn lemma_unknown_names_select_nothing(names: Seq<Seq<char>>)
        requires
            forall|i: int| 0 <= i < names.len() ==> JobType::requested(#[trigger] names[i]) is None,
        ensures
            JobType::selected(names) == Seq::<JobType>::empty(),
        decreases names.len(),
    {
        if names.len() > 0 {
            let earlier = names.drop_last();
            assert forall|i: int| 0 <= i < earlier.len() implies JobType::requested(
                #[trigger] earlier[i],
            ) is None by {
                assert(earlier[i] == names[i]);
            }
            JobType::lemma_unknown_names_select_nothing(earlier);
        }
    }

    /// Where every name stands for a kind, each name selects its kind, in
    /// its place.
    pub proof fn lemma_known_names_select_each(names: Seq<Seq<char>>)
        requires
            forall|i: int| 0 <= i < names.len() ==> JobType::requested(#[trigger] names[i]) is Some,
        ensures
            JobType::selected(names).len() == names.len(),
            forall|i: int|
                0 <= i < names.len() ==> Some(#[trigger] JobType::selected(names)[i])
                    == JobType::requested(names[i]),
        decreases names.len(),
    {
        if names.len() > 0 {
            let earlier = names.drop_last();
            assert forall|i: int| 0 <= i < earlier.len() implies JobType::requested(
                #[trigger] earlier[i],
            ) is Some by {
                assert(earlier[i] == names[i]);
            }
            JobType::lemma_known_names_select_each(earlier);
            assert forall|i: int| 0 <= i < names.len() implies Some(
                #[trigger] JobType::selected(names)[i],
            ) == JobType::requested(names[i]) by {
                if i < earlier.len() {
                    assert(earlier[i] == names[i]);
                }
            }
        }
    }
}

/// The texts of `job_types`, each in its place.
pub open spec fn job_type_texts(job_types: Seq<JobType>) -> Seq<Seq<char>> {
    Seq::new(job_types.len(), |i: int| job_types[i].text())
}

/// What `texts` name, each in its place, where every one of them names
/// a kind of analysis.
pub open spec fn job_types_named(texts: Seq<Seq<char>>) -> Option<Seq<JobType>> {
    if forall|i: int| 0 <= i < texts.len() ==> JobType::parsed(#[trigger] texts[i]) is Some {
        Some(Seq::new(texts.len(), |i: int| JobType::parsed(texts[i])->Some_0))
    } else {
        None
    }
}

/// The text that is written out for a kind of analysis.
pub fn serialize_job_type(job_type: &JobType) -> (text: String)
    ensures
        text@ == job_type.text(),
{
    job_type.to_text()
}

/// The texts that are written out for `job_types`, each in its place.
pub fn serialize_job_types(job_types: &[JobType]) -> (texts: Vec<String>)
    ensures
        texts.deep_view() == job_type_texts(job_types@),
{
    let mut texts: Vec<String> = Vec::new();
    let mut i: usize = 0;
    while i < job_types.len()
        invariant
            i <= job_types.len(),
            texts.len() == i,
            forall|j: int| 0 <= j < i ==> (#[trigger] texts@[j])@ == job_types@[j].text(),
        decreases job_types.len() - i,
    {
        texts.push(job_types[i].to_text());
        i += 1;
    }
    assert(texts.deep_view() =~= job_type_texts(job_types@));
    texts
}

/// The kind of analysis that is read from a text written out for one.
pub fn deserialize_job_type(value: &str) -> (job_type: Result<JobType, ParseJobTypeError>)
    ensures
        job_type == match JobType::parsed(value@) {
            Some(found) => Ok::<JobType, ParseJobTypeError>(found),
            None => Err(ParseJobTypeError),
        },
{
    JobType::from_str(value)
}

/// What is read from texts written out for a list: what each names, in its
/// place. One text that names nothing makes the error.
pub fn deserialize_job_types(values: &Vec<String>) -> (job_types: Result<Vec<JobType>, ParseJobTypeError>)
    ensures
        match job_types {
            Ok(found) => job_types_named(values.deep_view()) == Some(found@),
            Err(_) => job_types_named(values.deep_view()) is None,
        },
{
    let mut found: Vec<JobType> = Vec::new();
    let mut i: usize = 0;
    while i < values.len()
        invariant
            i <= values.len(),
            found.len() == i,
            forall|j: int|
                0 <= j < i ==> JobType::parsed(values@[j]@) == Some(#[trigger] found@[j]),
        decreases values.len() - i,
    {
        match JobType::from_str(values[i].as_str()) {
            Ok(one) => found.push(one),
            Err(e) => {
                assert(JobType::parsed(values.deep_view()[i as int]) is None);
                return Err(e);
            },
        }
        i += 1;
    }
    proof {
        let texts = values.deep_view();
        assert forall|j: int| 0 <= j < texts.len() implies JobType::parsed(
            #[trigger] texts[j],
        ) is Some by {
            assert(JobType::parsed(values@[j]@) == Some(found@[j]));
        }
        assert(job_types_named(texts)->Some_0 =~= found@) by {
            assert forall|j: int| 0 <= j < texts.len() implies job_types_named(texts)->Some_0[j]
                == found@[j] by {
                assert(JobType::parsed(values@[j]@) == Some(found@[j]));
            }
        }
    }
    Ok(found)
}

/// What is written out for a list is read back as that list.
pub proof fn lemma_job_types_round_trip(job_types: Seq<JobType>)
    ensures
        job_types_named(job_type_texts(job_types)) == Some(job_types),
{
    let texts = job_type_texts(job_types);
    assert forall|i: int| 0 <= i < texts.len() implies JobType::parsed(#[trigger] texts[i]) == Some(
        job_types[i],
    ) by {
        job_types[i].lemma_text_round_trip();
    }
    assert(job_types_named(texts)->Some_0 =~= job_types);
}

} // verus!
