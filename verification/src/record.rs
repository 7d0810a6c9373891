//! Records of the request store: named attributes, each a text, a number
//! written as text, a list, or something this library does not read.

use crate::text::same_text;
use vstd::prelude::*;

verus! {

/// One attribute value of a stored record.
#[derive(Debug)]
pub enum Attribute {
    /// A text.
    S(String),
    /// A number, as the store hands it out: in text.
    N(String),
    /// A list of values.
    L(Vec<Attribute>),
    /// A value of any other kind. Nothing here reads such a value.
    Other,
}

/// What an [`Attribute`] holds.
pub enum AttributeView {
    S(Seq<char>),
    N(Seq<char>),
    L(Seq<AttributeView>),
    Other,
}

impl View for Attribute {
    type V = AttributeView;

    open spec fn view(&self) -> AttributeView
        decreases self,
    {
        match self {
            Attribute::S(text) => AttributeView::S(text@),
            Attribute::N(text) => AttributeView::N(text@),
            Attribute::L(items) => AttributeView::L(
                Seq::new(
                    items.len() as nat,
                    |i: int|
                        if 0 <= i < items.len() {
                            items[i].view()
                        } else {
                            AttributeView::Other
                        },
                ),
            ),
            Attribute::Other => AttributeView::Other,
        }
    }
}

/// The texts of a list whose items are all texts; `None` where one is not.
pub open spec fn texts_of(items: Seq<AttributeView>) -> Option<Seq<Seq<char>>> {
    if forall|i: int| 0 <= i < items.len() ==> #[trigger] items[i] is S {
        Some(Seq::new(items.len(), |i: int| items[i]->S_0))
    } else {
        None
    }
}

impl Attribute {
    /// A text attribute.
    pub fn text(value: &str) -> (attribute: Attribute)
        ensures
            attribute@ == AttributeView::S(value@),
    {
        Attribute::S(value.to_owned())
    }

    /// A number attribute, from the number's text.
    pub fn number(value: &str) -> (attribute: Attribute)
        ensures
            attribute@ == AttributeView::N(value@),
    {
        Attribute::N(value.to_owned())
    }

    /// A list attribute that holds the given texts in their order.
    pub fn text_list(values: &Vec<String>) -> (attribute: Attribute)
        ensures
            attribute@ matches AttributeView::L(items) && texts_of(items) == Some(
                values.deep_view(),
            ),
    {
        let mut items: Vec<Attribute> = Vec::new();
        let mut i: usize = 0;
        while i < values.len()
            invariant
                i <= values.len(),
                items.len() == i,
                forall|j: int| 0 <= j < i ==> (#[trigger] items@[j])@ == AttributeView::S(values@[j]@),
            decreases values.len() - i,
        {
            items.push(Attribute::S(values[i].clone()));
            i += 1;
        }
        let attribute = Attribute::L(items);
        proof {
            let seen = attribute@->L_0;
            assert(seen.len() == values.len());
            assert forall|j: int| 0 <= j < seen.len() implies #[trigger] seen[j] is S by {
                assert(seen[j] == items@[j]@);
            }
            assert(texts_of(seen)->Some_0 =~= values.deep_view()) by {
                assert forall|j: int| 0 <= j < seen.len() implies texts_of(seen)->Some_0[j]
                    == values.deep_view()[j] by {
                    assert(seen[j] == items@[j]@);
                }
            }
        }
        attribute
    }

    /// The text of a text attribute.
    pub fn as_s(&self) -> (text: Option<&String>)
        ensures
            match text {
                Some(found) => self@ == AttributeView::S(found@),
                None => !(self@ is S),
            },
    {
        match self {
            Attribute::S(text) => Some(text),
            _ => None,
        }
    }

    /// The text of a number attribute.
    pub fn as_n(&self) -> (text: Option<&String>)
        ensures
            match text {
                Some(found) => self@ == AttributeView::N(found@),
                None => !(self@ is N),
            },
    {
        match self {
            Attribute::N(text) => Some(text),
            _ => None,
        }
    }

    /// The items of a list attribute.
    pub fn as_l(&self) -> (items: Option<&Vec<Attribute>>)
        ensures
            match items {
                Some(found) => self@ matches AttributeView::L(seen) && seen.len() == found.len()
                    && forall|i: int| 0 <= i < seen.len() ==> seen[i] == (#[trigger] found@[i])@,
                None => !(self@ is L),
            },
    {
        match self {
            Attribute::L(items) => Some(items),
            _ => None,
        }
    }

    /// A copy of `self`.
    pub fn duplicate(&self) -> (copy: Attribute)
        ensures
            copy@ == self@,
        decreases self,
    {
        match self {
            Attribute::S(text) => Attribute::S(text.clone()),
            Attribute::N(text) => Attribute::N(text.clone()),
            Attribute::L(items) => {
                let copies = duplicate_all(items);
                let copy = Attribute::L(copies);
                assert(copy@->L_0 =~= self@->L_0);
                copy
            },
            Attribute::Other => Attribute::Other,
        }
    }
}

/// A copy of each of `items`, in their order.
fn duplicate_all(items: &Vec<Attribute>) -> (copies: Vec<Attribute>)
    ensures
        copies.len() == items.len(),
        forall|j: int| 0 <= j < items.len() ==> (#[trigger] copies@[j])@ == items@[j]@,
    decreases items,
{
    let mut copies: Vec<Attribute> = Vec::new();
    let mut i: usize = 0;
    while i < items.len()
        invariant
            i <= items.len(),
            copies.len() == i,
            forall|j: int| 0 <= j < i ==> (#[trigger] copies@[j])@ == items@[j]@,
        decreases items.len() - i,
    {
        copies.push(items[i].duplicate());
        i += 1;
    }
    copies
}

/// A stored record: attributes by name, each name once.
#[derive(Debug)]
pub struct Record {
    fields: Vec<(String, Attribute)>,
}

/// Whether no name occurs twice among `fields`.
spec fn distinct_names(fields: Seq<(String, Attribute)>) -> bool {
    forall|i: int, j: int|
        0 <= i < j < fields.len() ==> (#[trigger] fields[i]).0@ != (#[trigger] fields[j]).0@
}

/// Whether `fields` holds `name`.
spec fn names(fields: Seq<(String, Attribute)>, name: Seq<char>) -> bool {
    exists|i: int| 0 <= i < fields.len() && (#[trigger] fields[i]).0@ == name
}

/// A place where `fields` holds `name`.
spec fn place_of(fields: Seq<(String, Attribute)>, name: Seq<char>) -> int {
    choose|i: int| 0 <= i < fields.len() && (#[trigger] fields[i]).0@ == name
}

impl View for Record {
    type V = Map<Seq<char>, AttributeView>;

    closed spec fn view(&self) -> Map<Seq<char>, AttributeView> {
        Map::new(
            |name: Seq<char>| names(self.fields@, name),
            |name: Seq<char>| self.fields@[place_of(self.fields@, name)].1@,
        )
    }
}

/// The first place of `name` among `fields`.
fn position(fields: &Vec<(String, Attribute)>, name: &str) -> (place: Option<usize>)
    ensures
        match place {
            Some(at) => at < fields.len() && fields@[at as int].0@ == name@,
            None => !names(fields@, name@),
        },
{
    let mut i: usize = 0;
    while i < fields.len()
        invariant
            i <= fields.len(),
            forall|j: int| 0 <= j < i ==> (#[trigger] fields@[j]).0@ != name@,
        decreases fields.len() - i,
    {
        if same_text(fields[i].0.as_str(), name) {
            return Some(i);
        }
        i += 1;
    }
    None
}

impl Record {
    #[verifier::type_invariant]
    spec fn well_formed(&self) -> bool {
        distinct_names(self.fields@)
    }

    /// A record without attributes.
    pub fn new() -> (record: Record)
        ensures
            record@ == Map::<Seq<char>, AttributeView>::empty(),
    {
        let record = Record { fields: Vec::new() };
        assert(record@ =~= Map::<Seq<char>, AttributeView>::empty());
        record
    }

    /// The attribute called `name`, if the record has one.
    pub fn get(&self, name: &str) -> (value: Option<&Attribute>)
        ensures
            match value {
                Some(found) => self@.dom().contains(name@) && self@[name@] == found@,
                None => !self@.dom().contains(name@),
            },
    {
        proof {
            use_type_invariant(self);
        }
        match position(&self.fields, name) {
            Some(at) => Some(&self.fields[at].1),
            None => None,
        }
    }

    /// The attribute called `name`, of a record that has one.
    pub fn value(&self, name: &str) -> (value: &Attribute)
        requires
            self@.dom().contains(name@),
        ensures
            value@ == self@[name@],
    {
        proof {
            use_type_invariant(self);
        }
        let ghost at = place_of(self.fields@, name@);
        let mut i: usize = 0;
        while !same_text(self.fields[i].0.as_str(), name)
            invariant
                i <= at < self.fields.len(),
                self.fields@[at].0@ == name@,
            decreases self.fields.len() - i,
        {
            i += 1;
        }
        &self.fields[i].1
    }

    /// Whether the record has an attribute called `name`.
    pub fn contains_key(&self, name: &str) -> (held: bool)
        ensures
            held == self@.dom().contains(name@),
    {
        position(&self.fields, name).is_some()
    }

    /// Sets the attribute called `name`, in place of the one the record had
    /// under that name, if it had one.
    pub fn insert(&mut self, name: &str, value: Attribute)
        ensures
            final(self)@ == old(self)@.insert(name@, value@),
    {
        proof {
            use_type_invariant(&*self);
        }
        let ghost before = self.fields@;
        let ghost held = value@;
        let mut fields: Vec<(String, Attribute)> = Vec::new();
        std::mem::swap(&mut self.fields, &mut fields);
        match position(&fields, name) {
            Some(at) => {
                fields.set(at, (name.to_owned(), value));
                proof {
                    let after = fields@;
                    assert forall|k: Seq<char>| names(after, k) == names(before, k) by {
                        if names(before, k) {
                            let i = place_of(before, k);
                            assert(after[i].0@ == k);
                        }
                        if names(after, k) {
                            let i = place_of(after, k);
                            assert(before[i].0@ == k);
                        }
                    }
                    assert(distinct_names(after)) by {
                        assert forall|i: int, j: int| 0 <= i < j < after.len() implies (
                        #[trigger] after[i]).0@ != (#[trigger] after[j]).0@ by {
                            assert(before[i].0@ != before[j].0@);
                        }
                    }
                    assert forall|k: Seq<char>| names(after, k) implies after[place_of(after, k)].1@
                        == (if k == name@ {
                        held
                    } else {
                        before[place_of(before, k)].1@
                    }) by {
                        let i = place_of(after, k);
                        let j = place_of(before, k);
                        assert(before[i].0@ == k);
                        assert(before[j].0@ == k);
                        if i != j {
                            if i < j {
                                assert(before[i].0@ != before[j].0@);
                            } else {
                                assert(before[j].0@ != before[i].0@);
                            }
                        }
                        if k == name@ {
                            if i != at {
                                if i < at {
                                    assert(before[i].0@ != before[at as int].0@);
                                } else {
                                    assert(before[at as int].0@ != before[i].0@);
                                }
                            }
                        }
                    }
                }
            },
            None => {
                fields.push((name.to_owned(), value));
                proof {
                    let after = fields@;
                    assert(after[after.len() - 1].0@ == name@);
                    assert forall|k: Seq<char>| names(after, k) == (names(before, k) || k
                        == name@) by {
                        if names(before, k) {
                            let i = place_of(before, k);
                            assert(after[i].0@ == k);
                        }
                        if names(after, k) && k != name@ {
                            let i = place_of(after, k);
                            assert(before[i].0@ == k);
                        }
                    }
                    assert(distinct_names(after)) by {
                        assert forall|i: int, j: int| 0 <= i < j < after.len() implies (
                        #[trigger] after[i]).0@ != (#[trigger] after[j]).0@ by {
                            if j < before.len() {
                                assert(before[i].0@ != before[j].0@);
                            } else {
                                assert(before[i].0@ != name@);
                            }
                        }
                    }
                    assert forall|k: Seq<char>| names(after, k) implies after[place_of(after, k)].1@
                        == (if k == name@ {
                        held
                    } else {
                        before[place_of(before, k)].1@
                    }) by {
                        let i = place_of(after, k);
                        if k == name@ {
                            if i < before.len() {
                                assert(before[i].0@ == name@);
                            }
                        } else {
                            let j = place_of(before, k);
                            assert(before[i].0@ == k);
                            assert(before[j].0@ == k);
                            if i != j {
                                if i < j {
                                    assert(before[i].0@ != before[j].0@);
                                } else {
                                    assert(before[j].0@ != before[i].0@);
                                }
                            }
                        }
                    }
                }
            },
        }
        self.fields = fields;
        assert(self@ =~= old(self)@.insert(name@, held));
    }

    /// How many attributes the record has.
    pub fn len(&self) -> (count: usize)
        ensures
            count == self@.dom().len(),
            self@.dom().finite(),
    {
        proof {
            use_type_invariant(self);
            lemma_names_counted(self.fields@);
            assert(self@.dom() =~= name_set(self.fields@));
        }
        self.fields.len()
    }

    /// A copy of `self`.
    pub fn duplicate(&self) -> (copy: Record)
        ensures
            copy@ == self@,
    {
        proof {
            use_type_invariant(self);
        }
        let mut fields: Vec<(String, Attribute)> = Vec::new();
        let mut i: usize = 0;
        while i < self.fields.len()
            invariant
                i <= self.fields.len(),
                fields.len() == i,
                forall|j: int|
                    0 <= j < i ==> (#[trigger] fields@[j]).0@ == self.fields@[j].0@ && fields@[j].1@
                        == self.fields@[j].1@,
            decreases self.fields.len() - i,
        {
            fields.push((self.fields[i].0.clone(), self.fields[i].1.duplicate()));
            i += 1;
        }
        proof {
            let mine = self.fields@;
            let theirs = fields@;
            assert(distinct_names(theirs)) by {
                assert forall|a: int, b: int| 0 <= a < b < theirs.len() implies (
                #[trigger] theirs[a]).0@ != (#[trigger] theirs[b]).0@ by {
                    assert(mine[a].0@ != mine[b].0@);
                }
            }
        }
        let copy = Record { fields };
        proof {
            let mine = self.fields@;
            let theirs = copy.fields@;
            assert forall|k: Seq<char>| names(theirs, k) == names(mine, k) by {
                if names(mine, k) {
                    let a = place_of(mine, k);
                    assert(theirs[a].0@ == k);
                }
                if names(theirs, k) {
                    let a = place_of(theirs, k);
                    assert(mine[a].0@ == k);
                }
            }
            assert forall|k: Seq<char>| names(theirs, k) implies theirs[place_of(theirs, k)].1@
                == mine[place_of(mine, k)].1@ by {
                let a = place_of(theirs, k);
                let b = place_of(mine, k);
                assert(mine[a].0@ == k);
                if a != b {
                    if a < b {
                        assert(mine[a].0@ != mine[b].0@);
                    } else {
                        assert(mine[b].0@ != mine[a].0@);
                    }
                }
            }
            assert(copy@ =~= self@);
        }
        copy
    }
}

/// The names that `fields` holds.
spec fn name_set(fields: Seq<(String, Attribute)>) -> Set<Seq<char>> {
    Set::new(|name: Seq<char>| names(fields, name))
}

/// Fields with distinct names hold as many names as there are fields.
proof fn lemma_names_counted(fields: Seq<(String, Attribute)>)
    requires
        distinct_names(fields),
    ensures
        name_set(fields).finite(),
        name_set(fields).len() == fields.len(),
    decreases fields.len(),
{
    if fields.len() == 0 {
        assert(name_set(fields) =~= Set::<Seq<char>>::empty());
    } else {
        let front = fields.drop_last();
        let last = fields.last().0@;
        assert(distinct_names(front)) by {
            assert forall|i: int, j: int| 0 <= i < j < front.len() implies (#[trigger] front[i]).0@
                != (#[trigger] front[j]).0@ by {
                assert(fields[i].0@ != fields[j].0@);
            }
        }
        lemma_names_counted(front);
        assert(!name_set(front).contains(last)) by {
            if names(front, last) {
                let i = place_of(front, last);
                assert(fields[i].0@ != fields[fields.len() - 1].0@);
            }
        }
        assert(name_set(fields) =~= name_set(front).insert(last)) by {
            assert forall|k: Seq<char>| names(fields, k) == (names(front, k) || k == last) by {
                if names(front, k) {
                    let i = place_of(front, k);
                    assert(fields[i].0@ == k);
                }
                if names(fields, k) && k != last {
                    let i = place_of(fields, k);
                    assert(front[i].0@ == k);
                }
                if k == last {
                    assert(fields[fields.len() - 1].0@ == k);
                }
            }
        }
    }
}

} // verus!
