//! The labels that the metrics of one listener share.
use vstd::prelude::*;

use super::metric::{attributes_with_label, label_texts, Label};
use crate::text::same_text;
use crate::transport::NacelleTransport;

verus! {

/// Whether phases of a request can be timed.
pub const PHASE_TIMING: bool = true;

/// The labels that the metrics of one listener share.
#[derive(Debug)]
pub struct NacelleMetricsContext {
    pub transport: NacelleTransport,
    pub listener: String,
    pub protocol: &'static str,
    pub tls: &'static str,
}

/// The status that a request's metrics are labelled with.
pub open spec fn status_label(status: Seq<char>) -> Seq<char> {
    if status == "error"@ {
        "error"@
    } else {
        "ok"@
    }
}

/// Whether `phase` is a phase of a request that is timed.
pub open spec fn is_phase(phase: Seq<char>) -> bool {
    ||| phase == "socket_read"@
    ||| phase == "decode"@
    ||| phase == "request_body_read"@
    ||| phase == "handler"@
    ||| phase == "response_encode"@
    ||| phase == "socket_write"@
}

/// Whether `phase` is a phase of a request that is timed.
pub fn known_phase(phase: &str) -> (known: bool)
    ensures
        known == is_phase(phase@),
{
    same_text(phase, "socket_read") || same_text(phase, "decode") || same_text(
        phase,
        "request_body_read",
    ) || same_text(phase, "handler") || same_text(phase, "response_encode") || same_text(
        phase,
        "socket_write",
    )
}

impl NacelleMetricsContext {
    /// The labels of a connection's metrics.
    pub open spec fn connection_labels(&self) -> Seq<(Seq<char>, Seq<char>)> {
        seq![
            ("listener"@, self.listener@),
            ("transport"@, self.transport@),
            ("tls"@, self.tls@),
        ]
    }

    /// The labels of a request's metrics.
    pub open spec fn request_labels(&self) -> Seq<(Seq<char>, Seq<char>)> {
        self.connection_labels().push(("protocol"@, self.protocol@))
    }

    /// The labels of a finished request's metrics.
    pub open spec fn outcome_labels(&self, status: Seq<char>) -> Seq<(Seq<char>, Seq<char>)> {
        self.request_labels().push(("status"@, status_label(status)))
    }

    /// The labels of one listener.
    pub fn new(
        transport: NacelleTransport,
        listener: String,
        protocol: &'static str,
        tls: &'static str,
    ) -> (context: Self)
        ensures
            context == (NacelleMetricsContext { transport, listener, protocol, tls }),
    {
        Self { transport, listener, protocol, tls }
    }

    /// The labels of a connection's metrics.
    pub fn connection_attributes(&self) -> (labels: Vec<Label>)
        ensures
            label_texts(labels@) == self.connection_labels(),
    {
        let mut labels: Vec<Label> = Vec::new();
        labels.push(Label::new("listener", self.listener.as_str()));
        labels.push(Label::new("transport", self.transport.as_str()));
        labels.push(Label::new("tls", self.tls));
        assert(label_texts(labels@) =~= self.connection_labels());
        labels
    }

    /// The labels of a request's metrics.
    pub fn request_attributes(&self) -> (labels: Vec<Label>)
        ensures
            label_texts(labels@) == self.request_labels(),
    {
        attributes_with_label(&self.connection_attributes(), "protocol", self.protocol)
    }

    /// The labels of a finished request's metrics.
    pub fn outcome_attributes(&self, status: &str) -> (labels: Vec<Label>)
        ensures
            label_texts(labels@) == self.outcome_labels(status@),
    {
        let label = if same_text(status, "error") {
            "error"
        } else {
            "ok"
        };
        attributes_with_label(&self.request_attributes(), "status", label)
    }
}

} // verus!
