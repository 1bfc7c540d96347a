//! Identifiers and qualified identifiers.

use crate::cache::StringKey;
use vstd::prelude::*;

verus! {

/// Identifier.
#[derive(Copy, Clone, Debug, Hash, PartialEq, Eq, Structural)]
pub enum Ident {
    Ident(StringKey),
    Error,
}

/// Qualified identifier.
#[derive(Clone, Debug, PartialEq, Eq)]
pub struct QualifiedIdent(pub Vec<Ident>);

impl View for QualifiedIdent {
    type V = Seq<Ident>;

    open spec fn view(&self) -> Seq<Ident> {
        self.0@
    }
}

impl QualifiedIdent {
    /// The qualified name of one segment.
    pub fn from_ident(v: Ident) -> (q: QualifiedIdent)
        ensures
            q@ == seq![v],
    {
        let mut segments = Vec::new();
        segments.push(v);
        QualifiedIdent(segments)
    }

    /// The qualified name whose one segment has the given key.
    pub fn from_key(v: StringKey) -> (q: QualifiedIdent)
        ensures
            q@ == seq![Ident::Ident(v)],
    {
        QualifiedIdent::from_ident(Ident::Ident(v))
    }
}

} // verus!
