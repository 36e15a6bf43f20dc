//! A directory entry as plain values: its distinguished name and the
//! attributes that a search handed back for it.

use vstd::prelude::*;
use crate::text::texts;

verus! {

/// An attribute with text values.
pub struct Attribute {
    pub name: String,
    pub values: Vec<String>,
}

/// An attribute with binary values.
pub struct BinaryAttribute {
    pub name: String,
    pub values: Vec<Vec<u8>>,
}

/// One entry of a search result. No two attributes of an entry that the
/// directory sends share a name; where a list holds a name twice, the later
/// attribute counts.
pub struct Entry {
    pub dn: String,
    pub attrs: Vec<Attribute>,
    pub bin_attrs: Vec<BinaryAttribute>,
}

pub struct AttributeView {
    pub name: Seq<char>,
    pub values: Seq<Seq<char>>,
}

pub struct BinaryAttributeView {
    pub name: Seq<char>,
    pub values: Seq<Seq<u8>>,
}

pub struct EntryView {
    pub dn: Seq<char>,
    pub attrs: Seq<AttributeView>,
    pub bin_attrs: Seq<BinaryAttributeView>,
}

/// The byte strings that a list of vectors holds.
pub open spec fn blobs(v: Seq<Vec<u8>>) -> Seq<Seq<u8>> {
    Seq::new(v.len(), |i: int| v[i]@)
}

impl View for Attribute {
    type V = AttributeView;

    open spec fn view(&self) -> AttributeView {
        AttributeView { name: self.name@, values: texts(self.values@) }
    }
}

impl View for BinaryAttribute {
    type V = BinaryAttributeView;

    open spec fn view(&self) -> BinaryAttributeView {
        BinaryAttributeView { name: self.name@, values: blobs(self.values@) }
    }
}

/// The attributes that a list holds.
pub open spec fn attributes(v: Seq<Attribute>) -> Seq<AttributeView> {
    Seq::new(v.len(), |i: int| v[i]@)
}

/// The binary attributes that a list holds.
pub open spec fn binary_attributes(v: Seq<BinaryAttribute>) -> Seq<BinaryAttributeView> {
    Seq::new(v.len(), |i: int| v[i]@)
}

impl View for Entry {
    type V = EntryView;

    open spec fn view(&self) -> EntryView {
        EntryView {
            dn: self.dn@,
            attrs: attributes(self.attrs@),
            bin_attrs: binary_attributes(self.bin_attrs@),
        }
    }
}

/// The values of the last of the first `upto` attributes that is named
/// `name` and, where `filled` is set, has a value.
pub open spec fn last_named(
    attrs: Seq<AttributeView>,
    name: Seq<char>,
    filled: bool,
    upto: int,
) -> Option<Seq<Seq<char>>>
    decreases upto,
{
    if upto <= 0 || upto > attrs.len() {
        None
    } else if attrs[upto - 1].name == name && (!filled || attrs[upto - 1].values.len() > 0) {
        Some(attrs[upto - 1].values)
    } else {
        last_named(attrs, name, filled, upto - 1)
    }
}

/// The values of the last of the first `upto` binary attributes that is
/// named `name` and has a value.
pub open spec fn last_named_binary(
    attrs: Seq<BinaryAttributeView>,
    name: Seq<char>,
    upto: int,
) -> Option<Seq<Seq<u8>>>
    decreases upto,
{
    if upto <= 0 || upto > attrs.len() {
        None
    } else if attrs[upto - 1].name == name && attrs[upto - 1].values.len() > 0 {
        Some(attrs[upto - 1].values)
    } else {
        last_named_binary(attrs, name, upto - 1)
    }
}

/// The first value of the attribute `name`, or the empty text where the
/// entry has no value for it.
pub open spec fn first_value(attrs: Seq<AttributeView>, name: Seq<char>) -> Seq<char> {
    match last_named(attrs, name, true, attrs.len() as int) {
        Some(values) => values[0],
        None => Seq::empty(),
    }
}

/// All values of the attribute `name`, or none where the entry lacks it.
pub open spec fn all_values(attrs: Seq<AttributeView>, name: Seq<char>) -> Seq<Seq<char>> {
    match last_named(attrs, name, false, attrs.len() as int) {
        Some(values) => values,
        None => Seq::empty(),
    }
}

/// Where one attribute alone is named `name`, it is the one that counts,
/// wherever it stands in the list.
pub proof fn lemma_single_attribute(
    attrs: Seq<AttributeView>,
    name: Seq<char>,
    filled: bool,
    at: int,
)
    requires
        0 <= at < attrs.len(),
        attrs[at].name == name,
        forall|j: int| 0 <= j < attrs.len() && j != at ==> attrs[j].name != name,
    ensures
        last_named(attrs, name, filled, attrs.len() as int) == if !filled || attrs[at].values.len()
            > 0 {
            Some(attrs[at].values)
        } else {
            None
        },
{
    lemma_last_named_skips(attrs, name, filled, attrs.len() as int, at);
    lemma_last_named_absent(attrs, name, filled, at);
}

/// Attributes under other names after `at` do not count.
proof fn lemma_last_named_skips(
    attrs: Seq<AttributeView>,
    name: Seq<char>,
    filled: bool,
    upto: int,
    at: int,
)
    requires
        0 <= at < upto <= attrs.len(),
        forall|j: int| at < j < upto ==> attrs[j].name != name,
    ensures
        last_named(attrs, name, filled, upto) == last_named(attrs, name, filled, at + 1),
    decreases upto,
{
    if upto > at + 1 {
        lemma_last_named_skips(attrs, name, filled, upto - 1, at);
    }
}

/// Where none of the first `upto` attributes is named `name`, none counts.
proof fn lemma_last_named_absent(
    attrs: Seq<AttributeView>,
    name: Seq<char>,
    filled: bool,
    upto: int,
)
    requires
        0 <= upto <= attrs.len(),
        forall|j: int| 0 <= j < upto ==> attrs[j].name != name,
    ensures
        last_named(attrs, name, filled, upto) is None,
    decreases upto,
{
    if upto > 0 {
        lemma_last_named_absent(attrs, name, filled, upto - 1);
    }
}

/// Finds the last attribute of the list that is named `name` and, where
/// `filled` is set, has a value.
pub fn last_attribute(attrs: &Vec<Attribute>, name: &str, filled: bool) -> (at: Option<usize>)
    ensures
        match at {
            Some(i) => i < attrs@.len() && last_named(
                attributes(attrs@),
                name@,
                filled,
                attrs@.len() as int,
            ) == Some(texts(attrs@[i as int].values@)) && (filled ==> attrs@[i as int].values@.len()
                > 0),
            None => last_named(attributes(attrs@), name@, filled, attrs@.len() as int) is None,
        },
{
    let mut end: usize = attrs.len();
    while end > 0
        invariant
            end <= attrs@.len(),
            last_named(attributes(attrs@), name@, filled, attrs@.len() as int) == last_named(
                attributes(attrs@),
                name@,
                filled,
                end as int,
            ),
        decreases end,
    {
        let attribute = &attrs[end - 1];
        assert(attributes(attrs@)[end - 1] == attribute@);
        if attribute.name.as_str().eq(name) && (!filled || attribute.values.len() > 0) {
            return Some(end - 1);
        }
        end -= 1;
    }
    None
}

/// A copy of a text.
pub fn copy_text(s: &String) -> (out: String)
    ensures
        out@ == s@,
{
    s.clone()
}

/// A copy of a list of texts.
pub fn copy_texts(v: &Vec<String>) -> (out: Vec<String>)
    ensures
        texts(out@) == texts(v@),
{
    let mut out: Vec<String> = Vec::new();
    let mut i: usize = 0;
    while i < v.len()
        invariant
            i <= v@.len(),
            out@.len() == i,
            forall|j: int| 0 <= j < i ==> out@[j]@ == v@[j]@,
        decreases v@.len() - i,
    {
        out.push(v[i].clone());
        i += 1;
    }
    assert(texts(out@) =~= texts(v@));
    out
}

/// A copy of a byte string.
pub fn copy_bytes(v: &Vec<u8>) -> (out: Vec<u8>)
    ensures
        out@ == v@,
{
    let mut out: Vec<u8> = Vec::new();
    let mut i: usize = 0;
    while i < v.len()
        invariant
            i <= v@.len(),
            out@ == v@.take(i as int),
        decreases v@.len() - i,
    {
        out.push(v[i]);
        i += 1;
    }
    assert(v@.take(v@.len() as int) == v@);
    out
}

/// What counts of an attribute in two lists put together is what counts in
/// the second, and where nothing counts there, what counts in the first.
pub proof fn lemma_last_named_concat(
    a: Seq<AttributeView>,
    b: Seq<AttributeView>,
    name: Seq<char>,
    filled: bool,
)
    ensures
        last_named(a + b, name, filled, (a + b).len() as int) == match last_named(
            b,
            name,
            filled,
            b.len() as int,
        ) {
            Some(values) => Some(values),
            None => last_named(a, name, filled, a.len() as int),
        },
    decreases b.len(),
{
    lemma_last_named_prefix(a, b, name, filled, b.len() as int);
}

/// The same, for the first `upto` attributes of the second list.
proof fn lemma_last_named_prefix(
    a: Seq<AttributeView>,
    b: Seq<AttributeView>,
    name: Seq<char>,
    filled: bool,
    upto: int,
)
    requires
        0 <= upto <= b.len(),
    ensures
        last_named(a + b, name, filled, a.len() + upto) == match last_named(b, name, filled, upto) {
            Some(values) => Some(values),
            None => last_named(a, name, filled, a.len() as int),
        },
    decreases upto,
{
    if upto > 0 {
        assert((a + b)[a.len() + upto - 1] == b[upto - 1]);
        lemma_last_named_prefix(a, b, name, filled, upto - 1);
    } else {
        lemma_last_named_front(a, b, name, filled, a.len() as int);
    }
}

/// What counts among the first attributes of a list does not depend on
/// what follows them.
proof fn lemma_last_named_front(
    a: Seq<AttributeView>,
    b: Seq<AttributeView>,
    name: Seq<char>,
    filled: bool,
    upto: int,
)
    requires
        0 <= upto <= a.len(),
    ensures
        last_named(a + b, name, filled, upto) == last_named(a, name, filled, upto),
    decreases upto,
{
    if upto > 0 {
        assert((a + b)[upto - 1] == a[upto - 1]);
        lemma_last_named_front(a, b, name, filled, upto - 1);
    }
}

} // verus!
