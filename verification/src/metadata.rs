//! The key/value side table that a node may carry.
//!
//! The tree only carries metadata along; it never looks inside a table.

use vstd::prelude::*;

verus! {

/// One metadata value. Floating-point values are held as their IEEE 754 bit
/// patterns, so that a copy is exact.
#[derive(Debug, PartialEq, Eq)]
pub enum MetaDataValue {
    Bool(bool),
    Int(i32),
    Long(u64),
    /// Bit pattern of a single-precision number.
    Float(u32),
    /// Bit pattern of a double-precision number.
    Double(u64),
    Text(String),
}

/// What a [`MetaDataValue`] stands for.
pub enum MetaDataValueView {
    Bool(bool),
    Int(i32),
    Long(u64),
    Float(u32),
    Double(u64),
    Text(Seq<char>),
}

impl View for MetaDataValue {
    type V = MetaDataValueView;

    open spec fn view(&self) -> MetaDataValueView {
        match *self {
            MetaDataValue::Bool(b) => MetaDataValueView::Bool(b),
            MetaDataValue::Int(i) => MetaDataValueView::Int(i),
            MetaDataValue::Long(l) => MetaDataValueView::Long(l),
            MetaDataValue::Float(f) => MetaDataValueView::Float(f),
            MetaDataValue::Double(d) => MetaDataValueView::Double(d),
            MetaDataValue::Text(t) => MetaDataValueView::Text(t@),
        }
    }
}

impl Clone for MetaDataValue {
    fn clone(&self) -> (copy: MetaDataValue)
        ensures
            copy@ == self@,
    {
        match self {
            MetaDataValue::Bool(b) => MetaDataValue::Bool(*b),
            MetaDataValue::Int(i) => MetaDataValue::Int(*i),
            MetaDataValue::Long(l) => MetaDataValue::Long(*l),
            MetaDataValue::Float(f) => MetaDataValue::Float(*f),
            MetaDataValue::Double(d) => MetaDataValue::Double(*d),
            MetaDataValue::Text(t) => MetaDataValue::Text(t.clone()),
        }
    }
}

/// One row of a metadata table.
#[derive(Debug, PartialEq, Eq)]
pub struct MetaDataEntry {
    pub key: String,
    pub value: MetaDataValue,
}

/// What a [`MetaDataEntry`] stands for.
pub struct MetaDataEntryView {
    pub key: Seq<char>,
    pub value: MetaDataValueView,
}

impl View for MetaDataEntry {
    type V = MetaDataEntryView;

    open spec fn view(&self) -> MetaDataEntryView {
        MetaDataEntryView { key: self.key@, value: self.value@ }
    }
}

impl Clone for MetaDataEntry {
    fn clone(&self) -> (copy: MetaDataEntry)
        ensures
            copy@ == self@,
    {
        MetaDataEntry { key: self.key.clone(), value: self.value.clone() }
    }
}

/// A metadata table: its rows, in the order in which they were supplied.
/// Keys need not be unique.
#[derive(Debug, PartialEq, Eq)]
pub struct MetaData {
    pub entries: Vec<MetaDataEntry>,
}

impl View for MetaData {
    type V = Seq<MetaDataEntryView>;

    open spec fn view(&self) -> Seq<MetaDataEntryView> {
        self.entries@.map_values(|e: MetaDataEntry| e@)
    }
}

impl Clone for MetaData {
    fn clone(&self) -> (copy: MetaData)
        ensures
            copy@ == self@,
    {
        let mut entries: Vec<MetaDataEntry> = Vec::new();
        let mut i: usize = 0;
        while i < self.entries.len()
            invariant
                i <= self.entries.len(),
                entries@.len() == i,
                forall|j: int| 0 <= j < i ==> (#[trigger] entries@[j])@ == self.entries@[j]@,
            decreases self.entries.len() - i,
        {
            entries.push(self.entries[i].clone());
            i += 1;
        }
        let copy = MetaData { entries };
        assert(copy@ =~= self@);
        copy
    }
}

/// What an optional metadata table stands for: absent, or the table's rows.
pub open spec fn metadata_view(metadata: Option<MetaData>) -> Option<Seq<MetaDataEntryView>> {
    match metadata {
        Some(table) => Some(table@),
        None => None,
    }
}

/// Copies an optional metadata table. An absent table stays absent.
pub fn clone_metadata(metadata: &Option<MetaData>) -> (copy: Option<MetaData>)
    ensures
        metadata_view(copy) == metadata_view(*metadata),
{
    match metadata {
        Some(table) => Some(table.clone()),
        None => None,
    }
}

} // verus!
