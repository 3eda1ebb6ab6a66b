//! The checks: what each one asks and what it makes of the answers.
//!
//! Checks are data. Every check the suite can run is listed by
//! [`server::server_checks`] or [`client_checks::client_checks`], with its
//! stable id, the requirement it verifies, and the runner that verifies it.

use vstd::prelude::*;

use crate::checks::client_checks::ClientCheck;
use crate::checks::server::ServerCheck;
use crate::SubjectRole;

pub mod asks;
pub mod batch;
pub mod calibration;
pub mod calibration_groups;
pub mod calibration_log;
pub mod calibration_sasl;
pub mod calibration_state;
pub mod calibration_txn;
pub mod client;
pub mod client_checks;
pub mod collector;
pub mod conformance;
pub mod conformance_all;
pub mod conformance_basic;
pub mod conformance_cluster;
pub mod conformance_ends;
pub mod conformance_failover;
pub mod conformance_fenced;
pub mod conformance_groups;
pub mod conformance_log;
pub mod conformance_members;
pub mod conformance_misplaced;
pub mod conformance_reads;
pub mod conformance_sasl;
pub mod conformance_strays;
pub mod conformance_txn;
pub mod conformance_versions;
pub mod conformance_wire;
pub mod ctx;
pub mod find;
pub mod flows;
pub mod group_flows;
pub mod harness;
pub mod log_flows;
pub mod naming;
pub mod questions;
pub mod reach;
pub mod rulings;
pub mod server;
pub mod server_basic;
pub mod server_cluster;
pub mod server_groups;
pub mod server_log;
pub mod server_sasl;
pub mod server_txn;
pub mod server_versions;
pub mod sightings;
pub mod tape;
pub mod trial;
pub mod txn_flows;
pub mod verdicts;
pub mod verdicts_basic;
pub mod verdicts_client;
pub mod verdicts_cluster;
pub mod verdicts_groups;
pub mod verdicts_log;
pub mod verdicts_sasl;
pub mod verdicts_txn;

verus! {

/// How a catalogued check executes. The variant is the check's subject role:
/// a server check drives connections to the subject, a client check judges a
/// recorded session.
#[derive(Debug, Clone, Copy, PartialEq, Eq, Structural)]
pub enum Runner {
    Server(ServerCheck),
    Client(ClientCheck),
}

impl Runner {
    /// The stable name of the check that runs.
    pub open spec fn spec_id(self) -> Seq<char> {
        match self {
            Runner::Server(check) => check.spec_id(),
            Runner::Client(check) => check.spec_id(),
        }
    }

    /// What that check requires.
    pub open spec fn spec_requirement(self) -> Seq<char> {
        match self {
            Runner::Server(check) => check.spec_requirement(),
            Runner::Client(check) => check.spec_requirement(),
        }
    }

    /// The role that the runner puts under scrutiny.
    pub open spec fn spec_role(self) -> SubjectRole {
        match self {
            Runner::Server(_) => SubjectRole::Server,
            Runner::Client(_) => SubjectRole::Client,
        }
    }
}

/// A catalogued check: a stable, citable id, the protocol requirement it
/// verifies, and the runner that verifies it.
#[derive(Debug, Clone, Copy)]
#[non_exhaustive]
pub struct Check {
    /// Stable identifier, for example `api-versions/v0-basic`. Baselines and
    /// reports key on this.
    pub id: &'static str,
    /// The requirement, phrased as a claim about the subject.
    pub requirement: &'static str,
    pub runner: Runner,
}

impl Check {
    /// What a catalogued check says of itself is what its runner is.
    pub open spec fn wf(self) -> bool {
        &&& self.id@ == self.runner.spec_id()
        &&& self.requirement@ == self.runner.spec_requirement()
    }

    /// Which side of the wire this check subjects to scrutiny. Derived from
    /// the runner, so a check cannot claim one role and run as the other.
    pub fn role(&self) -> (r: SubjectRole)
        ensures
            r == self.runner.spec_role(),
    {
        match self.runner {
            Runner::Server(_) => SubjectRole::Server,
            Runner::Client(_) => SubjectRole::Client,
        }
    }

    /// The entry for a runner.
    fn of(runner: Runner) -> (r: Check)
        ensures
            r.wf(),
            r.runner == runner,
    {
        match runner {
            Runner::Server(check) => Check {
                id: check.id(),
                requirement: check.requirement(),
                runner,
            },
            Runner::Client(check) => Check {
                id: check.id(),
                requirement: check.requirement(),
                runner,
            },
        }
    }
}

/// The runners of every check the suite knows, server checks first, in run
/// order.
pub open spec fn spec_runners() -> Seq<Runner> {
    server::spec_server_checks().map_values(|c: ServerCheck| Runner::Server(c))
        + client_checks::spec_client_checks().map_values(|c: ClientCheck| Runner::Client(c))
}

/// Every check the suite knows, server checks first, in run order.
pub fn catalog() -> (r: Vec<Check>)
    ensures
        r@.len() == spec_runners().len(),
        forall|i: int|
            0 <= i < r@.len() ==> (#[trigger] r@[i]).wf() && r@[i].runner == spec_runners()[i],
{
    let server_side = server::server_checks();
    let client_side = client_checks::client_checks();
    let mut checks: Vec<Check> = Vec::new();
    let mut i: usize = 0;
    while i < server_side.len()
        invariant
            i <= server_side@.len(),
            server_side@ == server::spec_server_checks(),
            checks@.len() == i,
            forall|j: int|
                0 <= j < i ==> (#[trigger] checks@[j]).wf() && checks@[j].runner == Runner::Server(
                    server_side@[j],
                ),
        decreases server_side@.len() - i,
    {
        checks.push(Check::of(Runner::Server(server_side[i])));
        i = i + 1;
    }
    let mut k: usize = 0;
    let ghost first = server_side@.len();
    while k < client_side.len()
        invariant
            k <= client_side@.len(),
            client_side@ == client_checks::spec_client_checks(),
            server_side@ == server::spec_server_checks(),
            first == server_side@.len(),
            checks@.len() == first + k,
            forall|j: int|
                0 <= j < first + k ==> (#[trigger] checks@[j]).wf() && checks@[j].runner == (if j
                    < first {
                    Runner::Server(server_side@[j])
                } else {
                    Runner::Client(client_side@[j - first])
                }),
        decreases client_side@.len() - k,
    {
        checks.push(Check::of(Runner::Client(client_side[k])));
        k = k + 1;
    }
    checks
}

/// No two catalogued checks go by the same name: reports and baselines,
/// which key on it, speak of one check.
pub proof fn law_catalog_ids_unique(i: int, j: int)
    requires
        0 <= i < j < spec_runners().len(),
    ensures
        spec_runners()[i].spec_id() != spec_runners()[j].spec_id(),
{
    let a = spec_runners()[i];
    let b = spec_runners()[j];
    match (a, b) {
        (Runner::Server(x), Runner::Server(y)) => {
            server::law_server_ids_differ(x, y);
            server::law_server_checks_complete(x);
            assert(x == server::spec_server_checks()[i]);
            assert(y == server::spec_server_checks()[j]);
        },
        (Runner::Client(x), Runner::Client(y)) => {
            let first = server::spec_server_checks().len();
            client_checks::law_client_ids_differ(x, y, ServerCheck::V0Basic);
            assert(x == client_checks::spec_client_checks()[i - first]);
            assert(y == client_checks::spec_client_checks()[j - first]);
            client_checks::law_client_checks_complete(x);
        },
        (Runner::Server(x), Runner::Client(y)) => {
            client_checks::law_client_ids_differ(y, y, x);
        },
        (Runner::Client(x), Runner::Server(y)) => {
            client_checks::law_client_ids_differ(x, x, y);
        },
    }
}

/// Every check stands in the catalog, in its place.
pub proof fn law_catalog_complete(runner: Runner)
    ensures
        spec_runners().contains(runner),
{
    match runner {
        Runner::Server(check) => {
            let all = server::spec_server_checks();
            server::law_server_checks_complete(check);
            let k = choose|k: int| 0 <= k < all.len() && #[trigger] all[k] == check;
            assert(spec_runners()[k] == runner);
        },
        Runner::Client(check) => {
            let first = server::spec_server_checks().len();
            let all = client_checks::spec_client_checks();
            client_checks::law_client_checks_complete(check);
            let k = choose|k: int| 0 <= k < all.len() && #[trigger] all[k] == check;
            assert(spec_runners()[first + k] == runner);
        },
    }
}

} // verus!
