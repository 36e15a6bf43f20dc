//! What the library asks of the directory and what the directory answers,
//! as plain values. The caller carries each request to the directory and
//! hands the reply back.

use vstd::prelude::*;
use crate::common::entry::{
    attributes, blobs, Attribute, AttributeView, Entry, EntryView,
};
use crate::text::texts;

verus! {

/// One change to the text values of an attribute.
pub enum Mod {
    /// Adds the values to the attribute.
    Add(String, Vec<String>),
    /// Removes the values; with no values, removes the attribute.
    Delete(String, Vec<String>),
    /// Puts the values in place of the attribute's values.
    Replace(String, Vec<String>),
}

/// One change to the binary values of an attribute.
pub enum BinaryMod {
    Add(String, Vec<Vec<u8>>),
    Delete(String, Vec<Vec<u8>>),
    Replace(String, Vec<Vec<u8>>),
}

pub enum ModView {
    Add(Seq<char>, Seq<Seq<char>>),
    Delete(Seq<char>, Seq<Seq<char>>),
    Replace(Seq<char>, Seq<Seq<char>>),
}

pub enum BinaryModView {
    Add(Seq<char>, Seq<Seq<u8>>),
    Delete(Seq<char>, Seq<Seq<u8>>),
    Replace(Seq<char>, Seq<Seq<u8>>),
}

impl ModView {
    /// The attribute that the change is about.
    pub open spec fn attribute(self) -> Seq<char> {
        match self {
            ModView::Add(name, _) => name,
            ModView::Delete(name, _) => name,
            ModView::Replace(name, _) => name,
        }
    }
}

impl View for Mod {
    type V = ModView;

    open spec fn view(&self) -> ModView {
        match self {
            Mod::Add(name, values) => ModView::Add(name@, texts(values@)),
            Mod::Delete(name, values) => ModView::Delete(name@, texts(values@)),
            Mod::Replace(name, values) => ModView::Replace(name@, texts(values@)),
        }
    }
}

impl View for BinaryMod {
    type V = BinaryModView;

    open spec fn view(&self) -> BinaryModView {
        match self {
            BinaryMod::Add(name, values) => BinaryModView::Add(name@, blobs(values@)),
            BinaryMod::Delete(name, values) => BinaryModView::Delete(name@, blobs(values@)),
            BinaryMod::Replace(name, values) => BinaryModView::Replace(name@, blobs(values@)),
        }
    }
}

/// The changes that a list holds.
pub open spec fn mods(v: Seq<Mod>) -> Seq<ModView> {
    Seq::new(v.len(), |i: int| v[i]@)
}

/// The binary changes that a list holds.
pub open spec fn binary_mods(v: Seq<BinaryMod>) -> Seq<BinaryModView> {
    Seq::new(v.len(), |i: int| v[i]@)
}

/// Why an exchange with the directory gave nothing.
#[derive(Clone, Copy, Debug, PartialEq, Eq, Structural)]
pub enum DirectoryError {
    /// The directory could not be reached, or did not let the library in.
    Connection,
    /// The directory answered otherwise than the operation can use.
    Protocol,
}

/// A search below `base`, through the whole subtree, for the entries that
/// `filter` admits, asking for the attributes `attrs`.
pub struct Search {
    pub base: String,
    pub filter: String,
    pub attrs: Vec<String>,
}

pub struct SearchView {
    pub base: Seq<char>,
    pub filter: Seq<char>,
    pub attrs: Seq<Seq<char>>,
}

impl View for Search {
    type V = SearchView;

    open spec fn view(&self) -> SearchView {
        SearchView { base: self.base@, filter: self.filter@, attrs: texts(self.attrs@) }
    }
}

/// What the library asks of the directory.
pub enum Request {
    Search(Search),
    /// Adds an entry under a distinguished name, with text attributes.
    Add(String, Vec<Attribute>),
    /// Changes text attributes of an entry.
    Modify(String, Vec<Mod>),
    /// Changes binary attributes of an entry.
    ModifyBinary(String, Vec<BinaryMod>),
    /// Deletes an entry.
    Delete(String),
}

pub enum RequestView {
    Search(SearchView),
    Add(Seq<char>, Seq<AttributeView>),
    Modify(Seq<char>, Seq<ModView>),
    ModifyBinary(Seq<char>, Seq<BinaryModView>),
    Delete(Seq<char>),
}

impl View for Request {
    type V = RequestView;

    open spec fn view(&self) -> RequestView {
        match self {
            Request::Search(search) => RequestView::Search(search@),
            Request::Add(dn, attrs) => RequestView::Add(dn@, attributes(attrs@)),
            Request::Modify(dn, changes) => RequestView::Modify(dn@, mods(changes@)),
            Request::ModifyBinary(dn, changes) => RequestView::ModifyBinary(
                dn@,
                binary_mods(changes@),
            ),
            Request::Delete(dn) => RequestView::Delete(dn@),
        }
    }
}

/// What the directory answered.
pub enum Reply {
    /// A search went through and found these entries.
    Entries(Vec<Entry>),
    /// The directory carried out an addition, a change or a deletion.
    Done,
    /// The directory turned an addition, a change or a deletion down.
    Refused,
    /// The exchange itself failed.
    Failed(DirectoryError),
}

pub enum ReplyView {
    Entries(Seq<EntryView>),
    Done,
    Refused,
    Failed(DirectoryError),
}

/// The entries that a list holds.
pub open spec fn entries(v: Seq<Entry>) -> Seq<EntryView> {
    Seq::new(v.len(), |i: int| v[i]@)
}

impl View for Reply {
    type V = ReplyView;

    open spec fn view(&self) -> ReplyView {
        match self {
            Reply::Entries(found) => ReplyView::Entries(entries(found@)),
            Reply::Done => ReplyView::Done,
            Reply::Refused => ReplyView::Refused,
            Reply::Failed(error) => ReplyView::Failed(*error),
        }
    }
}

/// What an operation does next: it asks something of the directory, or it
/// ends and says whether it changed anything.
pub enum Step {
    Call(Request),
    Finish(Result<bool, DirectoryError>),
}

pub enum StepView {
    Call(RequestView),
    Finish(Result<bool, DirectoryError>),
}

impl View for Step {
    type V = StepView;

    open spec fn view(&self) -> StepView {
        match self {
            Step::Call(request) => StepView::Call(request@),
            Step::Finish(outcome) => StepView::Finish(*outcome),
        }
    }
}

/// The changes of `changes` that are about `attribute`, in their order.
pub open spec fn changes_on(changes: Seq<ModView>, attribute: Seq<char>) -> Seq<ModView>
    decreases changes.len(),
{
    if changes.len() == 0 {
        Seq::empty()
    } else if changes.last().attribute() == attribute {
        changes_on(changes.drop_last(), attribute).push(changes.last())
    } else {
        changes_on(changes.drop_last(), attribute)
    }
}

/// The changes about an attribute in two lists put together are those of
/// the first followed by those of the second.
pub proof fn lemma_changes_on_concat(a: Seq<ModView>, b: Seq<ModView>, attribute: Seq<char>)
    ensures
        changes_on(a + b, attribute) == changes_on(a, attribute) + changes_on(b, attribute),
    decreases b.len(),
{
    if b.len() == 0 {
        assert(a + b =~= a);
        assert(changes_on(a, attribute) + changes_on(b, attribute) =~= changes_on(a, attribute));
    } else {
        assert((a + b).drop_last() =~= a + b.drop_last());
        assert((a + b).last() == b.last());
        lemma_changes_on_concat(a, b.drop_last(), attribute);
        if b.last().attribute() == attribute {
            assert(changes_on(a, attribute) + changes_on(b.drop_last(), attribute).push(b.last())
                =~= (changes_on(a, attribute) + changes_on(b.drop_last(), attribute)).push(
                b.last(),
            ));
        }
    }
}

} // verus!
