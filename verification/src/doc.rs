//! JSON documents that the adapter sends, as plain values.

use vstd::prelude::*;

verus! {

/// A JSON document to be written. Doubles are given by their IEEE 754 bits.
pub enum Doc {
    Null,
    Bool(bool),
    Int(i64),
    Count(usize),
    Double(u64),
    Text(String),
    List(Vec<Doc>),
    Fields(Vec<(String, Doc)>),
}

/// The mathematical counterpart of `Doc`.
pub enum DocTree {
    Null,
    Bool(bool),
    Int(i64),
    Count(usize),
    Double(u64),
    Text(Seq<char>),
    List(Seq<DocTree>),
    Fields(Seq<(Seq<char>, DocTree)>),
}

impl Doc {
    /// The tree that this document stands for.
    pub open spec fn tree(self) -> DocTree
        decreases self,
    {
        match self {
            Doc::Null => DocTree::Null,
            Doc::Bool(b) => DocTree::Bool(b),
            Doc::Int(n) => DocTree::Int(n),
            Doc::Count(n) => DocTree::Count(n),
            Doc::Double(bits) => DocTree::Double(bits),
            Doc::Text(s) => DocTree::Text(s@),
            Doc::List(items) => DocTree::List(
                Seq::new(
                    items@.len(),
                    |i: int|
                        if 0 <= i < items@.len() {
                            items@[i].tree()
                        } else {
                            DocTree::Null
                        },
                ),
            ),
            Doc::Fields(fields) => DocTree::Fields(
                Seq::new(
                    fields@.len(),
                    |i: int|
                        if 0 <= i < fields@.len() {
                            (fields@[i].0@, fields@[i].1.tree())
                        } else {
                            (Seq::<char>::empty(), DocTree::Null)
                        },
                ),
            ),
        }
    }
}

impl View for Doc {
    type V = DocTree;

    open spec fn view(&self) -> DocTree {
        self.tree()
    }
}

/// The trees of a list of documents.
pub open spec fn item_trees(items: Seq<Doc>) -> Seq<DocTree> {
    items.map_values(|d: Doc| d@)
}

/// The trees of a list of fields.
pub open spec fn field_trees(fields: Seq<(String, Doc)>) -> Seq<(Seq<char>, DocTree)> {
    fields.map_values(|f: (String, Doc)| (f.0@, f.1@))
}

/// An optional text, or null.
pub open spec fn text_or_null(s: Option<Seq<char>>) -> DocTree {
    match s {
        Some(t) => DocTree::Text(t),
        None => DocTree::Null,
    }
}

/// An optional integer, or null.
pub open spec fn int_or_null(n: Option<i64>) -> DocTree {
    match n {
        Some(v) => DocTree::Int(v),
        None => DocTree::Null,
    }
}

/// An optional double, or null.
pub open spec fn double_or_null(bits: Option<u64>) -> DocTree {
    match bits {
        Some(v) => DocTree::Double(v),
        None => DocTree::Null,
    }
}

/// What an optional string holds.
pub open spec fn opt_text(s: Option<String>) -> Option<Seq<char>> {
    match s {
        Some(t) => Some(t@),
        None => None,
    }
}

/// A document that is an object with the given fields.
pub fn object(fields: Vec<(String, Doc)>) -> (r: Doc)
    ensures
        r@ == DocTree::Fields(field_trees(fields@)),
{
    let ghost trees = field_trees(fields@);
    let r = Doc::Fields(fields);
    assert(r@->Fields_0 =~= trees);
    r
}

/// A document that is a list of the given items.
pub fn list(items: Vec<Doc>) -> (r: Doc)
    ensures
        r@ == DocTree::List(item_trees(items@)),
{
    let ghost trees = item_trees(items@);
    let r = Doc::List(items);
    assert(r@->List_0 =~= trees);
    r
}

/// No fields yet.
pub fn no_fields() -> (r: Vec<(String, Doc)>)
    ensures
        field_trees(r@) == Seq::<(Seq<char>, DocTree)>::empty(),
{
    let fields: Vec<(String, Doc)> = Vec::new();
    assert(field_trees(fields@) =~= Seq::empty());
    fields
}

/// Adds a field.
pub fn put(fields: &mut Vec<(String, Doc)>, key: &str, value: Doc)
    ensures
        field_trees(final(fields)@) == field_trees(old(fields)@).push((key@, value@)),
{
    let ghost before = fields@;
    fields.push((key.to_owned(), value));
    assert(field_trees(fields@) =~= field_trees(before).push((key@, value@)));
}

/// A text.
pub fn text(s: &str) -> (r: Doc)
    ensures
        r@ == DocTree::Text(s@),
{
    Doc::Text(s.to_owned())
}

pub fn maybe_text(s: &Option<String>) -> (r: Doc)
    ensures
        r@ == text_or_null(opt_text(*s)),
{
    match s {
        Some(t) => Doc::Text(t.clone()),
        None => Doc::Null,
    }
}

pub fn maybe_int(n: Option<i64>) -> (r: Doc)
    ensures
        r@ == int_or_null(n),
{
    match n {
        Some(v) => Doc::Int(v),
        None => Doc::Null,
    }
}

pub fn maybe_double(bits: Option<u64>) -> (r: Doc)
    ensures
        r@ == double_or_null(bits),
{
    match bits {
        Some(v) => Doc::Double(v),
        None => Doc::Null,
    }
}

} // verus!
