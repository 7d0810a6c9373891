//! The status of a request or of a job, and its one transition.

use crate::text::same_text;
use vstd::prelude::*;

verus! {

/// The lifecycle of a request or of a job: four states in a line, and one
/// failure state beside them.
#[derive(Clone, Copy, Debug, PartialEq, Eq, Structural)]
pub enum Status {
    Pending,
    Queued,
    Processing,
    Completed,
    Failed,
}

/// A text that names no status.
#[derive(Clone, Copy, Debug, PartialEq, Eq, Structural)]
pub struct ParseStatusError;

impl ParseStatusError {
    /// What the error says.
    pub fn message(&self) -> (text: &'static str)
        ensures
            text@ == "invalid status"@,
    {
        "invalid status"
    }
}

/// The states that a request passes through on its way to completion, in
/// their order.
pub open spec fn lifecycle() -> Seq<Status> {
    seq![Status::Pending, Status::Queued, Status::Processing, Status::Completed]
}

impl Status {
    /// The state that follows `self`, if there is one.
    pub open spec fn successor(self) -> Option<Status> {
        match self {
            Status::Pending => Some(Status::Queued),
            Status::Queued => Some(Status::Processing),
            Status::Processing => Some(Status::Completed),
            Status::Completed | Status::Failed => None,
        }
    }

    /// `self` moved one step forward, or left alone where it has no
    /// successor.
    pub open spec fn advanced(self) -> Status {
        match self.successor() {
            Some(following) => following,
            None => self,
        }
    }

    /// Whether nothing follows `self`.
    pub open spec fn is_terminal(self) -> bool {
        self == Status::Completed || self == Status::Failed
    }

    /// The text that stands for `self` in a stored record.
    pub open spec fn text(self) -> Seq<char> {
        match self {
            Status::Pending => "PENDING"@,
            Status::Queued => "QUEUED"@,
            Status::Processing => "PROCESSING"@,
            Status::Completed => "COMPLETE"@,
            Status::Failed => "FAILED"@,
        }
    }

    /// The status that `text` stands for, if it stands for one.
    pub open spec fn parsed(text: Seq<char>) -> Option<Status> {
        if text == "PENDING"@ {
            Some(Status::Pending)
        } else if text == "QUEUED"@ {
            Some(Status::Queued)
        } else if text == "PROCESSING"@ {
            Some(Status::Processing)
        } else if text == "COMPLETE"@ {
            Some(Status::Completed)
        } else if text == "FAILED"@ {
            Some(Status::Failed)
        } else {
            None
        }
    }

    /// One step forward; `None` at `Completed` and at `Failed`.
    pub fn next(&self) -> (following: Option<Status>)
        ensures
            following == self.successor(),
    {
        match self {
            Status::Pending => Some(Status::Queued),
            Status::Queued => Some(Status::Processing),
            Status::Processing => Some(Status::Completed),
            Status::Completed | Status::Failed => None,
        }
    }

    /// Reads a status from its text.
    pub fn from_str(s: &str) -> (status: Result<Status, ParseStatusError>)
        ensures
            status == match Status::parsed(s@) {
                Some(found) => Ok::<Status, ParseStatusError>(found),
                None => Err(ParseStatusError),
            },
    {
        if same_text(s, "PENDING") {
            Ok(Status::Pending)
        } else if same_text(s, "QUEUED") {
            Ok(Status::Queued)
        } else if same_text(s, "PROCESSING") {
            Ok(Status::Processing)
        } else if same_text(s, "COMPLETE") {
            Ok(Status::Completed)
        } else if same_text(s, "FAILED") {
            Ok(Status::Failed)
        } else {
            Err(ParseStatusError)
        }
    }

    /// The text of `self`, borrowed.
    pub fn as_str(&self) -> (text: &'static str)
        ensures
            text@ == self.text(),
    {
        match self {
            Status::Pending => "PENDING",
            Status::Queued => "QUEUED",
            Status::Processing => "PROCESSING",
            Status::Completed => "COMPLETE",
            Status::Failed => "FAILED",
        }
    }

    /// The text of `self`, owned.
    pub fn to_text(&self) -> (text: String)
        ensures
            text@ == self.text(),
    {
        self.as_str().to_owned()
    }

    /// Every status is read back from its own text.
    pub proof fn lemma_text_round_trip(self)
        ensures
            Status::parsed(self.text()) == Some(self),
    {
        reveal_strlit("PENDING");
        reveal_strlit("QUEUED");
        reveal_strlit("PROCESSING");
        reveal_strlit("COMPLETE");
        reveal_strlit("FAILED");
        assert("PENDING"@.len() == 7);
        assert("QUEUED"@.len() == 6);
        assert("PROCESSING"@.len() == 10);
        assert("COMPLETE"@.len() == 8);
        assert("FAILED"@.len() == 6);
        assert("QUEUED"@[0] == 'Q');
        assert("FAILED"@[0] == 'F');
    }

    /// A text that is read as a status is that status' own text.
    pub proof fn lemma_parsed_text(text: Seq<char>)
        ensures
            Status::parsed(text) matches Some(status) ==> status.text() == text,
    {
    }

    /// `successor` walks the lifecycle one place at a time, never back and
    /// never past a place, and stops at its end; nothing follows `Failed`.
    pub proof fn lemma_successor_follows_lifecycle()
        ensures
            forall|i: int|
                0 <= i < lifecycle().len() - 1 ==> (#[trigger] lifecycle()[i]).successor() == Some(
                    lifecycle()[i + 1],
                ),
            lifecycle().last().successor() == None::<Status>,
            Status::Failed.successor() == None::<Status>,
            forall|s: Status| s.successor() is Some ==> exists|i: int|
                0 <= i < lifecycle().len() - 1 && lifecycle()[i] == s,
    {
        assert(lifecycle()[0] == Status::Pending);
        assert(lifecycle()[1] == Status::Queued);
        assert(lifecycle()[2] == Status::Processing);
        assert(lifecycle()[3] == Status::Completed);
    }
}

/// The texts of `statuses`, each in its place.
pub open spec fn status_texts(statuses: Seq<Status>) -> Seq<Seq<char>> {
    Seq::new(statuses.len(), |i: int| statuses[i].text())
}

/// What `texts` name, each in its place, where every one of them names
/// a status.
pub open spec fn statuses_named(texts: Seq<Seq<char>>) -> Option<Seq<Status>> {
    if forall|i: int| 0 <= i < texts.len() ==> Status::parsed(#[trigger] texts[i]) is Some {
        Some(Seq::new(texts.len(), |i: int| Status::parsed(texts[i])->Some_0))
    } else {
        None
    }
}

/// The text that is written out for a status.
pub fn serialize_status(status: &Status) -> (text: String)
    ensures
        text@ == status.text(),
{
    status.to_text()
}

/// The texts that are written out for `statuses`, each in its place.
pub fn serialize_statuses(statuses: &[Status]) -> (texts: Vec<String>)
    ensures
        texts.deep_view() == status_texts(statuses@),
{
    let mut texts: Vec<String> = Vec::new();
    let mut i: usize = 0;
    while i < statuses.len()
        invariant
            i <= statuses.len(),
            texts.len() == i,
            forall|j: int| 0 <= j < i ==> (#[trigger] texts@[j])@ == statuses@[j].text(),
        decreases statuses.len() - i,
    {
        texts.push(statuses[i].to_text());
        i += 1;
    }
    assert(texts.deep_view() =~= status_texts(statuses@));
    texts
}

/// The status that is read from a text written out for one.
pub fn deserialize_status(value: &str) -> (status: Result<Status, ParseStatusError>)
    ensures
        status == match Status::parsed(value@) {
            Some(found) => Ok::<Status, ParseStatusError>(found),
            None => Err(ParseStatusError),
        },
{
    Status::from_str(value)
}

/// What is read from texts written out for a list: what each names, in its
/// place. One text that names nothing makes the error.
pub fn deserialize_statuses(values: &Vec<String>) -> (statuses: Result<Vec<Status>, ParseStatusError>)
    ensures
        match statuses {
            Ok(found) => statuses_named(values.deep_view()) == Some(found@),
            Err(_) => statuses_named(values.deep_view()) is None,
        },
{
    let mut found: Vec<Status> = Vec::new();
    let mut i: usize = 0;
    while i < values.len()
        invariant
            i <= values.len(),
            found.len() == i,
            forall|j: int|
                0 <= j < i ==> Status::parsed(values@[j]@) == Some(#[trigger] found@[j]),
        decreases values.len() - i,
    {
        match Status::from_str(values[i].as_str()) {
            Ok(one) => found.push(one),
            Err(e) => {
                assert(Status::parsed(values.deep_view()[i as int]) is None);
                return Err(e);
            },
        }
        i += 1;
    }
    proof {
        let texts = values.deep_view();
        assert forall|j: int| 0 <= j < texts.len() implies Status::parsed(
            #[trigger] texts[j],
        ) is Some by {
            assert(Status::parsed(values@[j]@) == Some(found@[j]));
        }
        assert(statuses_named(texts)->Some_0 =~= found@) by {
            assert forall|j: int| 0 <= j < texts.len() implies statuses_named(texts)->Some_0[j]
                == found@[j] by {
                assert(Status::parsed(values@[j]@) == Some(found@[j]));
            }
        }
    }
    Ok(found)
}

/// What is written out for a list is read back as that list.
pub proof fn lemma_statuses_round_trip(statuses: Seq<Status>)
    ensures
        statuses_named(status_texts(statuses)) == Some(statuses),
{
    let texts = status_texts(statuses);
    assert forall|i: int| 0 <= i < texts.len() implies Status::parsed(#[trigger] texts[i]) == Some(
        statuses[i],
    ) by {
        statuses[i].lemma_text_round_trip();
    }
    assert(statuses_named(texts)->Some_0 =~= statuses);
}

} // verus!
