//! Names of transports.
use vstd::prelude::*;

verus! {

/// The transport that accepted a connection, by its label.
#[derive(Debug, Clone, Copy)]
pub struct NacelleTransport(&'static str);

impl View for NacelleTransport {
    type V = Seq<char>;

    closed spec fn view(&self) -> Seq<char> {
        self.0@
    }
}

impl NacelleTransport {
    /// The transport with this label.
    pub closed spec fn named(label: &'static str) -> NacelleTransport {
        NacelleTransport(label)
    }

    /// A transport with a stable, low-cardinality label.
    pub fn new(label: &'static str) -> (transport: Self)
        ensures
            transport == Self::named(label),
            transport@ == label@,
    {
        Self(label)
    }

    /// The transport's label.
    pub fn as_str(self) -> (label: &'static str)
        ensures
            label@ == self@,
    {
        self.0
    }
}

/// A transport is seen by the label that it was made with.
pub proof fn law_transports_show_their_label(label: &'static str)
    ensures
        NacelleTransport::named(label)@ == label@,
{
}

} // verus!
