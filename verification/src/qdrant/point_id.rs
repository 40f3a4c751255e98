//! The two forms of a point identifier.

use vstd::prelude::*;

use super::IdView;

verus! {

/// A point identifier: a number or a UUID.
pub enum PointIdOptions {
    Num(u64),
    Uuid(String),
}

impl View for PointIdOptions {
    type V = IdView;

    open spec fn view(&self) -> IdView {
        match self {
            PointIdOptions::Num(n) => IdView::Num(*n),
            PointIdOptions::Uuid(s) => IdView::Uuid(s@),
        }
    }
}

} // verus!
