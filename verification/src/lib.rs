//! Conformance checks for Kafka-protocol servers and clients.
//!
//! The library holds what the suite decides: what each check asks, in which
//! order, and what it makes of the answers; what the reference subject
//! answers, and how each injected fault makes it wrong; what a client's
//! traffic says about the client; and how a report compares with a
//! baseline. Sockets, clocks and the message codec are the harness's: the
//! library tells it what to do next and is told what came back.

use vstd::prelude::*;

pub mod args;
pub mod checks;
pub mod control;
pub mod raw;
pub mod report;
pub mod subject;
pub mod table;
pub mod text;
pub mod wire;

verus! {

/// Which side of the protocol a check is about.
#[derive(Debug, Clone, Copy, PartialEq, Eq, Structural)]
pub enum SubjectRole {
    Server,
    Client,
}

impl SubjectRole {
    /// The role as reports name it.
    pub fn text(self) -> (r: &'static str)
        ensures
            r@ == (match self {
                SubjectRole::Server => "server"@,
                SubjectRole::Client => "client"@,
            }),
    {
        match self {
            SubjectRole::Server => "server",
            SubjectRole::Client => "client",
        }
    }
}

/// The stable name of a check.
#[derive(Debug, Clone, PartialEq, Eq, Hash)]
pub struct CheckId(pub String);

impl View for CheckId {
    type V = Seq<char>;

    open spec fn view(&self) -> Seq<char> {
        self.0@
    }
}

/// What a check concluded.
#[derive(Debug, Clone, PartialEq, Eq)]
pub enum Verdict {
    /// The requirement held.
    Pass,
    /// The requirement was violated.
    Fail { details: String },
    /// The subject cannot be asked.
    Skipped { reason: String },
    /// The check could not be run.
    Error { details: String },
}

/// A verdict by its characters.
#[verifier::ext_equal]
pub enum VerdictView {
    Pass,
    Fail(Seq<char>),
    Skipped(Seq<char>),
    Error(Seq<char>),
}

impl View for Verdict {
    type V = VerdictView;

    open spec fn view(&self) -> VerdictView {
        match self {
            Verdict::Pass => VerdictView::Pass,
            Verdict::Fail { details } => VerdictView::Fail(details@),
            Verdict::Skipped { reason } => VerdictView::Skipped(reason@),
            Verdict::Error { details } => VerdictView::Error(details@),
        }
    }
}

impl Verdict {
    /// The same verdict again.
    pub fn copy(&self) -> (r: Verdict)
        ensures
            r@ == self@,
    {
        match self {
            Verdict::Pass => Verdict::Pass,
            Verdict::Fail { details } => Verdict::Fail { details: details.clone() },
            Verdict::Skipped { reason } => Verdict::Skipped { reason: reason.clone() },
            Verdict::Error { details } => Verdict::Error { details: details.clone() },
        }
    }
}

} // verus!
