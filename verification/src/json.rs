//! A structured document: the parameters of a request, the payload of a
//! cached result.

use vstd::prelude::*;

verus! {

broadcast use vstd::std_specs::vec::axiom_vec_index_decreases;

/// A JSON document. A number is held by its literal text, an object as its
/// members in the order in which they are walked.
#[derive(Debug, PartialEq, Eq)]
pub enum Json {
    Null,
    Bool(bool),
    Number(String),
    String(String),
    Array(Vec<Json>),
    Object(Vec<(String, Json)>),
}

/// A member of an object as a value: its name and its document.
pub struct MemberView {
    pub name: Seq<char>,
    pub value: JsonView,
}

/// A document as a value of texts and sequences.
pub enum JsonView {
    Null,
    Bool(bool),
    Number(Seq<char>),
    String(Seq<char>),
    Array(Seq<JsonView>),
    Object(Seq<MemberView>),
}

impl View for Json {
    type V = JsonView;

    open spec fn view(&self) -> JsonView
        decreases self,
    {
        match self {
            Json::Null => JsonView::Null,
            Json::Bool(flag) => JsonView::Bool(*flag),
            Json::Number(literal) => JsonView::Number(literal@),
            Json::String(text) => JsonView::String(text@),
            Json::Array(items) => JsonView::Array(
                Seq::new(
                    items@.len(),
                    |i: int|
                        if 0 <= i < items@.len() {
                            items@[i]@
                        } else {
                            JsonView::Null
                        },
                ),
            ),
            Json::Object(members) => JsonView::Object(
                Seq::new(
                    members@.len(),
                    |i: int|
                        if 0 <= i < members@.len() {
                            MemberView { name: members@[i].0@, value: members@[i].1@ }
                        } else {
                            MemberView { name: Seq::empty(), value: JsonView::Null }
                        },
                ),
            ),
        }
    }
}

impl Json {
    /// Whether two documents are the same: of one kind, with equal texts,
    /// and with equal elements or members in the same order. Numbers are
    /// the same where their literal texts are.
    pub fn same_as(&self, other: &Json) -> (same: bool)
        ensures
            same == (self@ == other@),
        decreases self,
    {
        match (self, other) {
            (Json::Null, Json::Null) => true,
            (Json::Bool(mine), Json::Bool(theirs)) => *mine == *theirs,
            (Json::Number(mine), Json::Number(theirs)) => *mine == *theirs,
            (Json::String(mine), Json::String(theirs)) => *mine == *theirs,
            (Json::Array(mine), Json::Array(theirs)) => {
                if mine.len() != theirs.len() {
                    assert(self@->Array_0.len() != other@->Array_0.len());
                    return false;
                }
                let mut i: usize = 0;
                while i < mine.len()
                    invariant
                        i <= mine.len(),
                        mine.len() == theirs.len(),
                        *self == Json::Array(*mine),
                        *other == Json::Array(*theirs),
                        forall|k: int| 0 <= k < i ==> mine@[k]@ == theirs@[k]@,
                    decreases mine.len() - i,
                {
                    assert(self->Array_0 == *mine);
                    if !mine[i].same_as(&theirs[i]) {
                        assert(self@->Array_0[i as int] != other@->Array_0[i as int]);
                        return false;
                    }
                    i += 1;
                }
                assert(self@->Array_0 =~= other@->Array_0);
                true
            },
            (Json::Object(mine), Json::Object(theirs)) => {
                if mine.len() != theirs.len() {
                    assert(self@->Object_0.len() != other@->Object_0.len());
                    return false;
                }
                let mut i: usize = 0;
                while i < mine.len()
                    invariant
                        i <= mine.len(),
                        mine.len() == theirs.len(),
                        *self == Json::Object(*mine),
                        *other == Json::Object(*theirs),
                        forall|k: int|
                            0 <= k < i ==> mine@[k].0@ == theirs@[k].0@ && mine@[k].1@
                                == theirs@[k].1@,
                    decreases mine.len() - i,
                {
                    assert(self->Object_0 == *mine);
                    if !(mine[i].0 == theirs[i].0) || !mine[i].1.same_as(&theirs[i].1) {
                        assert(self@->Object_0[i as int] != other@->Object_0[i as int]);
                        return false;
                    }
                    i += 1;
                }
                assert(self@->Object_0 =~= other@->Object_0);
                true
            },
            _ => false,
        }
    }

    /// A copy of the document.
    pub fn duplicate(&self) -> (copy: Json)
        ensures
            copy@ == self@,
        decreases self,
    {
        match self {
            Json::Null => Json::Null,
            Json::Bool(flag) => Json::Bool(*flag),
            Json::Number(literal) => Json::Number(literal.clone()),
            Json::String(text) => Json::String(text.clone()),
            Json::Array(items) => {
                let mut copies: Vec<Json> = Vec::new();
                let mut i: usize = 0;
                while i < items.len()
                    invariant
                        i <= items.len(),
                        *self == Json::Array(*items),
                        copies@.len() == i,
                        forall|k: int| 0 <= k < i ==> copies@[k]@ == items@[k]@,
                    decreases items.len() - i,
                {
                    assert(self->Array_0 == *items);
                    copies.push(items[i].duplicate());
                    i += 1;
                }
                let copy = Json::Array(copies);
                assert(copy@->Array_0 =~= self@->Array_0);
                copy
            },
            Json::Object(members) => {
                let mut copies: Vec<(String, Json)> = Vec::new();
                let mut i: usize = 0;
                while i < members.len()
                    invariant
                        i <= members.len(),
                        *self == Json::Object(*members),
                        copies@.len() == i,
                        forall|k: int|
                            0 <= k < i ==> copies@[k].0@ == members@[k].0@ && copies@[k].1@
                                == members@[k].1@,
                    decreases members.len() - i,
                {
                    assert(self->Object_0 == *members);
                    copies.push((members[i].0.clone(), members[i].1.duplicate()));
                    i += 1;
                }
                let copy = Json::Object(copies);
                assert(copy@->Object_0 =~= self@->Object_0);
                copy
            },
        }
    }
}

impl Clone for Json {
    fn clone(&self) -> (copy: Json)
        ensures
            copy@ == self@,
    {
        self.duplicate()
    }
}

} // verus!
