//! The DATACLASSIFICATION token.
use vstd::prelude::*;

verus! {

/// A DATACLASSIFICATION token in the stream.
#[derive(Debug, Clone, Copy)]
pub struct DataClassificationSpan<'a> {
    pub bytes: &'a [u8],
}

impl<'a> DataClassificationSpan<'a> {
    /// The token byte.
    pub fn ty(&self) -> (r: u8)
        requires
            self.bytes@.len() >= 1,
        ensures
            r == self.bytes@[0],
    {
        self.bytes[0]
    }
}

/// How sensitive a classified column is.
#[derive(Debug, Clone, Copy, PartialEq, Eq)]
pub enum SensitivityRank {
    NotDefined,
    Unclassified,
    Low,
    Medium,
    High,
    Critical,
}

/// A DATACLASSIFICATION token held by value.
#[derive(Debug, Clone)]
pub struct DataClassificationToken {
    pub(crate) sensitivity_labels: Vec<SensitivityLabel>,
    pub(crate) information_types: Vec<InformationType>,
    pub(crate) sensitivity_rank: Vec<SensitivityRank>,
    pub(crate) data_classification_per_column_data: Vec<ColumnSensitivity>,
}

/// A sensitivity label.
#[derive(Debug, Clone)]
pub struct SensitivityLabel {
    name: String,
    label_id: String,
}

/// An information type.
#[derive(Debug, Clone)]
pub struct InformationType {
    name: String,
    type_id: String,
}

/// The classification of one column.
#[derive(Debug, Clone)]
pub struct ColumnSensitivity {
    properties: Vec<SensitivityProperty>,
}

/// One classification of a column.
#[derive(Debug, Clone)]
pub struct SensitivityProperty {
    label_index: u16,
    type_index: u16,
    sensitivity_rank: SensitivityRank,
}

} // verus!
