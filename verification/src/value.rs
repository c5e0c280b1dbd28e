//! Schema-less document values: what a JSON or YAML document holds, and what
//! a proxy descriptor carries as protocol parameters.

use crate::text::{decimal_digits, push_decimal, same_text, text_of};
use vstd::prelude::*;
use vstd::string::StringExecFns;

verus! {

/// A document value. Numbers are kept as their decimal text, so that
/// integers of any size and reals share one representation.
#[derive(Debug, PartialEq, Eq)]
pub enum DocValue {
    Null,
    Flag(bool),
    Number(String),
    Text(String),
    List(Vec<DocValue>),
    Mapping(Vec<(DocValue, DocValue)>),
    Tagged(String, Box<DocValue>),
}

/// The mathematical model of a [`DocValue`].
pub enum DocModel {
    Null,
    Flag(bool),
    Number(Seq<char>),
    Text(Seq<char>),
    List(Seq<DocModel>),
    Mapping(Seq<(DocModel, DocModel)>),
    Tagged(Seq<char>, Box<DocModel>),
}

/// The model of a value, variant by variant.
pub open spec fn doc_model(v: DocValue) -> DocModel
    decreases v,
{
    match v {
        DocValue::Null => DocModel::Null,
        DocValue::Flag(b) => DocModel::Flag(b),
        DocValue::Number(n) => DocModel::Number(n@),
        DocValue::Text(t) => DocModel::Text(t@),
        DocValue::List(items) => DocModel::List(
            Seq::new(
                items@.len(),
                |i: int|
                    if 0 <= i < items@.len() {
                        doc_model(items@[i])
                    } else {
                        DocModel::Null
                    },
            ),
        ),
        DocValue::Mapping(entries) => DocModel::Mapping(
            Seq::new(
                entries@.len(),
                |i: int|
                    if 0 <= i < entries@.len() {
                        (doc_model(entries@[i].0), doc_model(entries@[i].1))
                    } else {
                        (DocModel::Null, DocModel::Null)
                    },
            ),
        ),
        DocValue::Tagged(tag, inner) => DocModel::Tagged(tag@, Box::new(doc_model(*inner))),
    }
}

impl View for DocValue {
    type V = DocModel;

    open spec fn view(&self) -> DocModel {
        doc_model(*self)
    }
}

/// The models of a mapping's entries.
pub open spec fn entries_model(entries: Seq<(DocValue, DocValue)>) -> Seq<(DocModel, DocModel)> {
    Seq::new(entries.len(), |i: int| (entries[i].0@, entries[i].1@))
}

/// The value that a mapping gives for the text key `key`: that of its first
/// entry with this key.
pub open spec fn lookup(entries: Seq<(DocModel, DocModel)>, key: Seq<char>) -> Option<
    DocModel,
>
    decreases entries.len(),
{
    if entries.len() == 0 {
        None
    } else if entries.first().0 == DocModel::Text(key) {
        Some(entries.first().1)
    } else {
        lookup(entries.drop_first(), key)
    }
}

/// The value under its tags: a tagged value stands for what it tags.
pub open spec fn untagged(v: DocModel) -> DocModel
    decreases v,
{
    match v {
        DocModel::Tagged(_, inner) => untagged(*inner),
        _ => v,
    }
}

/// The text that a value is, tags aside, if it is one.
pub open spec fn as_text(v: DocModel) -> Option<Seq<char>> {
    match untagged(v) {
        DocModel::Text(t) => Some(t),
        _ => None,
    }
}

/// The text that a mapping gives for `key`, if it gives a text.
pub open spec fn lookup_text(entries: Seq<(DocModel, DocModel)>, key: Seq<char>) -> Option<
    Seq<char>,
> {
    match lookup(entries, key) {
        Some(v) => as_text(v),
        None => None,
    }
}

/// The entries of a value, where it is a mapping, tags aside; none otherwise.
pub open spec fn entries_of(v: DocModel) -> Seq<(DocModel, DocModel)> {
    match untagged(v) {
        DocModel::Mapping(entries) => entries,
        _ => Seq::empty(),
    }
}

/// The models of a list's items.
pub open spec fn items_model(items: Seq<DocValue>) -> Seq<DocModel> {
    Seq::new(items.len(), |i: int| items[i]@)
}

impl DocValue {
    /// The mapping with these entries.
    pub fn mapping_of(entries: Vec<(DocValue, DocValue)>) -> (r: DocValue)
        ensures
            r@ == DocModel::Mapping(entries_model(entries@)),
    {
        let r = DocValue::Mapping(entries);
        assert(doc_model(r)->Mapping_0 =~= entries_model(entries@));
        r
    }

    /// The list with these items.
    pub fn list_of(items: Vec<DocValue>) -> (r: DocValue)
        ensures
            r@ == DocModel::List(items_model(items@)),
    {
        let r = DocValue::List(items);
        assert(doc_model(r)->List_0 =~= items_model(items@));
        r
    }

    /// The text value that holds the characters of `text`.
    pub fn text(text: &str) -> (r: DocValue)
        ensures
            r@ == DocModel::Text(text@),
    {
        DocValue::Text(String::from_str(text))
    }

    /// The number `n`, as a value.
    pub fn number(n: u64) -> (r: DocValue)
        ensures
            r@ == DocModel::Number(decimal_digits(n as nat)),
    {
        let mut digits: Vec<char> = Vec::new();
        push_decimal(&mut digits, n);
        assert(digits@ =~= decimal_digits(n as nat));
        DocValue::Number(text_of(&digits))
    }

    /// The value under the tags of `self`.
    pub fn untag(&self) -> (r: &DocValue)
        ensures
            r@ == untagged(self@),
            !(r is Tagged),
        decreases self,
    {
        match self {
            DocValue::Tagged(_, inner) => inner.untag(),
            _ => self,
        }
    }

    /// The text that `self` is, tags aside, if it is one.
    pub fn as_text(&self) -> (r: Option<&String>)
        ensures
            match r {
                Some(t) => as_text(self@) == Some(t@),
                None => as_text(self@) is None,
            },
    {
        match self.untag() {
            DocValue::Text(t) => Some(t),
            _ => None,
        }
    }

    /// The entry for the text key `key`, where `self` is, tags aside, a
    /// mapping that has one.
    pub fn get(&self, key: &str) -> (r: Option<&DocValue>)
        ensures
            match r {
                Some(v) => lookup(entries_of(self@), key@) == Some(v@),
                None => lookup(entries_of(self@), key@) is None,
            },
    {
        match self.untag() {
            DocValue::Mapping(entries) => {
                let mut i: usize = 0;
                assert(entries_of(self@).skip(0) =~= entries_of(self@));
                while i < entries.len()
                    invariant
                        i <= entries@.len(),
                        entries_of(self@) =~= entries_model(entries@),
                        lookup(entries_of(self@), key@) == lookup(
                            entries_of(self@).skip(i as int),
                            key@,
                        ),
                    decreases entries@.len() - i,
                {
                    let ghost rest = entries_of(self@).skip(i as int);
                    assert(rest.first() == (entries@[i as int].0@, entries@[i as int].1@));
                    assert(rest.drop_first() =~= entries_of(self@).skip(i + 1));
                    let hit = match &entries[i].0 {
                        DocValue::Text(k) => same_text(k.as_str(), key),
                        _ => false,
                    };
                    if hit {
                        return Some(&entries[i].1);
                    }
                    i = i + 1;
                }
                None
            },
            _ => None,
        }
    }

    /// A deep copy of this value.
    pub fn duplicate(&self) -> (r: DocValue)
        ensures
            r@ == self@,
        decreases self,
    {
        match self {
            DocValue::Null => DocValue::Null,
            DocValue::Flag(b) => DocValue::Flag(*b),
            DocValue::Number(n) => DocValue::Number(n.clone()),
            DocValue::Text(t) => DocValue::Text(t.clone()),
            DocValue::List(items) => {
                let mut out: Vec<DocValue> = Vec::new();
                let mut i: usize = 0;
                while i < items.len()
                    invariant
                        *self == DocValue::List(*items),
                        i <= items@.len(),
                        out@.len() == i,
                        forall|j: int| 0 <= j < i ==> (#[trigger] out@[j])@ == items@[j]@,
                    decreases items@.len() - i,
                {
                    assert(decreases_to!(*self => self->List_0));
                    assert(decreases_to!(*items => items[i as int]));
                    let copy = items[i].duplicate();
                    out.push(copy);
                    i = i + 1;
                }
                assert(doc_model(DocValue::List(out))->List_0 =~= doc_model(*self)->List_0);
                DocValue::List(out)
            },
            DocValue::Mapping(entries) => {
                let mut out: Vec<(DocValue, DocValue)> = Vec::new();
                let mut i: usize = 0;
                while i < entries.len()
                    invariant
                        *self == DocValue::Mapping(*entries),
                        i <= entries@.len(),
                        out@.len() == i,
                        forall|j: int|
                            0 <= j < i ==> (#[trigger] out@[j]).0@ == entries@[j].0@ && out@[j].1@
                                == entries@[j].1@,
                    decreases entries@.len() - i,
                {
                    assert(decreases_to!(*self => self->Mapping_0));
                    assert(decreases_to!(*entries => entries[i as int]));
                    assert(decreases_to!(entries[i as int] => entries[i as int].0));
                    assert(decreases_to!(entries[i as int] => entries[i as int].1));
                    let key = entries[i].0.duplicate();
                    let value = entries[i].1.duplicate();
                    out.push((key, value));
                    i = i + 1;
                }
                assert(doc_model(DocValue::Mapping(out))->Mapping_0 =~= doc_model(
                    *self,
                )->Mapping_0);
                DocValue::Mapping(out)
            },
            DocValue::Tagged(tag, inner) => DocValue::Tagged(
                tag.clone(),
                Box::new(inner.duplicate()),
            ),
        }
    }

    /// The text under `key`: `get(key)` where that is, tags aside, a text.
    pub fn get_text(&self, key: &str) -> (r: Option<&String>)
        ensures
            match r {
                Some(t) => lookup_text(entries_of(self@), key@) == Some(t@),
                None => lookup_text(entries_of(self@), key@) is None,
            },
    {
        match self.get(key) {
            Some(v) => v.as_text(),
            None => None,
        }
    }
}

} // verus!
