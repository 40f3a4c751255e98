//! What can go wrong while points become a record batch.

use datafusion::arrow::error::ArrowError;
use vstd::prelude::*;

use crate::text::{decimal, decimal_text};

verus! {

/// An error that Arrow reported: carried through, never looked into.
#[verifier::external_type_specification]
#[verifier::external_body]
pub struct ExArrowError(ArrowError);

/// Flat vector data whose length its vector count does not divide.
#[derive(Debug)]
pub struct MalformedMultiVector {
    pub data_len: usize,
    pub vectors_count: u32,
}

/// Why a record batch could not be built.
#[derive(Debug)]
pub enum Error {
    /// Flat vector data does not split evenly.
    MalformedMultiVector(MalformedMultiVector),
    /// A column has no room left for a row: its data would outgrow 32-bit offsets.
    ColumnOverflow,
    /// Arrow refused to assemble the columns under the schema.
    Arrow(ArrowError),
}

impl MalformedMultiVector {
    /// The text of [`MalformedMultiVector::message`].
    pub open spec fn text(self) -> Seq<char> {
        "Malformed multi vector: data length "@ + decimal(self.data_len as nat)
            + " is not divisible by vectors count "@ + decimal(self.vectors_count as nat)
    }

    /// Describes the error.
    pub fn message(&self) -> (message: String)
        ensures
            message@ == self.text(),
    {
        let mut message = "Malformed multi vector: data length ".to_owned();
        message.append(decimal_text(self.data_len as u64).as_str());
        message.append(" is not divisible by vectors count ");
        message.append(decimal_text(self.vectors_count as u64).as_str());
        message
    }
}

} // verus!
