//! A whole JSON value, as the store's sanitising reads it.

use crate::frame::{clean_unicode_escapes, cleaned};
use vstd::prelude::*;

verus! {

/// A JSON value with everything below it.
#[derive(Debug, PartialEq, Eq)]
pub enum JsonTree {
    Null,
    Bool(bool),
    /// A number, as its JSON text.
    Number(String),
    Text(String),
    Array(Vec<JsonTree>),
    /// The members of an object, in order.
    Object(Vec<(String, JsonTree)>),
}

/// What a `JsonTree` stands for.
pub enum JsonTreeView {
    Null,
    Bool(bool),
    Number(Seq<char>),
    Text(Seq<char>),
    Array(Seq<JsonTreeView>),
    Object(Seq<(Seq<char>, JsonTreeView)>),
}

impl View for JsonTree {
    type V = JsonTreeView;

    open spec fn view(&self) -> JsonTreeView
        decreases self,
    {
        match self {
            JsonTree::Null => JsonTreeView::Null,
            JsonTree::Bool(b) => JsonTreeView::Bool(*b),
            JsonTree::Number(text) => JsonTreeView::Number(text@),
            JsonTree::Text(text) => JsonTreeView::Text(text@),
            JsonTree::Array(items) => JsonTreeView::Array(
                Seq::new(items@.len(), |i: int| if 0 <= i < items@.len() { items@[i].view() } else { JsonTreeView::Null }),
            ),
            JsonTree::Object(members) => JsonTreeView::Object(
                Seq::new(
                    members@.len(),
                    |i: int| if 0 <= i < members@.len() { (members@[i].0@, members@[i].1.view()) } else { (Seq::empty(), JsonTreeView::Null) },
                ),
            ),
        }
    }
}

impl DeepView for JsonTree {
    type V = JsonTreeView;

    open spec fn deep_view(&self) -> JsonTreeView {
        self.view()
    }
}

/// The value with every text at any depth cleaned. Keys, order, numbers,
/// booleans and null stay as they are.
pub open spec fn cleaned_tree(value: JsonTreeView) -> JsonTreeView
    decreases value,
{
    match value {
        JsonTreeView::Text(text) => JsonTreeView::Text(cleaned(text)),
        JsonTreeView::Array(items) => JsonTreeView::Array(
            Seq::new(
                items.len(),
                |i: int|
                    if 0 <= i < items.len() {
                        cleaned_tree(items[i])
                    } else {
                        JsonTreeView::Null
                    },
            ),
        ),
        JsonTreeView::Object(members) => JsonTreeView::Object(
            Seq::new(
                members.len(),
                |i: int|
                    if 0 <= i < members.len() {
                        (members[i].0, cleaned_tree(members[i].1))
                    } else {
                        (Seq::empty(), JsonTreeView::Null)
                    },
            ),
        ),
        other => other,
    }
}

/// A cleaned copy of a value.
#[verifier::loop_isolation(false)]
fn clean_tree(value: &JsonTree) -> (r: JsonTree)
    ensures
        r@ == cleaned_tree(value@),
    decreases value,
{
    match value {
        JsonTree::Null => JsonTree::Null,
        JsonTree::Bool(b) => JsonTree::Bool(*b),
        JsonTree::Number(text) => JsonTree::Number(text.clone()),
        JsonTree::Text(text) => JsonTree::Text(clean_unicode_escapes(text.as_str())),
        JsonTree::Array(items) => {
            let mut out: Vec<JsonTree> = Vec::new();
            let mut i: usize = 0;
            while i < items.len()
                invariant
                    i <= items.len(),
                    out.len() == i,
                    forall|k: int| 0 <= k < i ==> out@[k]@ == cleaned_tree(items@[k]@),
                decreases items.len() - i,
            {
                out.push(clean_tree(&items[i]));
                i += 1;
            }
            let r = JsonTree::Array(out);
            assert(r@ == cleaned_tree(value@)) by {
                assert(r@->Array_0 =~= cleaned_tree(value@)->Array_0);
            }
            r
        },
        JsonTree::Object(members) => {
            let mut out: Vec<(String, JsonTree)> = Vec::new();
            let mut i: usize = 0;
            while i < members.len()
                invariant
                    i <= members.len(),
                    out.len() == i,
                    forall|k: int|
                        0 <= k < i ==> out@[k].0@ == members@[k].0@ && out@[k].1@ == cleaned_tree(
                            members@[k].1@,
                        ),
                decreases members.len() - i,
            {
                out.push((members[i].0.clone(), clean_tree(&members[i].1)));
                i += 1;
            }
            let r = JsonTree::Object(out);
            assert(r@ == cleaned_tree(value@)) by {
                assert(r@->Object_0 =~= cleaned_tree(value@)->Object_0);
            }
            r
        },
    }
}

/// Cleans every text of a value, at any depth, as a payload text is
/// cleaned; keys, order, numbers, booleans and null stay as they are.
pub fn clean_json_value(value: JsonTree) -> (r: JsonTree)
    ensures
        r@ == cleaned_tree(value@),
{
    clean_tree(&value)
}

} // verus!
