//! Conformance reports and baselines.
//!
//! A baseline records the expected status of every check for one subject
//! implementation, so that conformance runs become regression tests: a new
//! failure is a defect, and an unexpected pass means that a known deviation
//! was fixed.

use vstd::prelude::*;
use vstd::string::*;

use crate::text;
use crate::text::{contains_text, line, same_text};
use crate::{CheckId, Verdict, VerdictView};

verus! {

/// The schema version this suite writes, and the only one it reads.
pub const FORMAT: u32 = 1;

pub open spec fn spec_suite() -> Seq<char> {
    "0.1.0"@
}

/// The suite version stamped into reports and baselines.
pub fn suite() -> (r: &'static str)
    ensures
        r@ == spec_suite(),
{
    "0.1.0"
}

/// The result of one check, together with what it verified.
#[derive(Debug, Clone, PartialEq, Eq)]
pub struct CheckOutcome {
    pub id: CheckId,
    /// The protocol requirement this check verifies, phrased as a claim
    /// about the subject.
    pub requirement: String,
    pub verdict: Verdict,
}

impl CheckOutcome {
    pub fn new(id: CheckId, requirement: String, verdict: Verdict) -> (r: CheckOutcome)
        ensures
            r.id == id,
            r.requirement == requirement,
            r.verdict == verdict,
    {
        CheckOutcome { id, requirement, verdict }
    }
}

/// All outcomes from running a suite against one subject.
#[derive(Debug, Clone, PartialEq, Eq)]
pub struct Report {
    /// Schema version; see [`FORMAT`].
    pub format: u32,
    /// The suite version that produced this report.
    pub suite: String,
    /// The subject, e.g. `server localhost:9092`.
    pub subject: String,
    pub outcomes: Vec<CheckOutcome>,
}

/// The status of a check, stripped of details, as stored in baselines.
#[derive(Debug, Clone, Copy, PartialEq, Eq, Structural)]
pub enum BaselineStatus {
    Pass,
    Fail,
    Skipped,
    /// The check could not run. In a baseline this means that it was
    /// recorded during an outage; it never matches a run.
    Error,
}

/// The status a verdict amounts to.
pub open spec fn status_of(verdict: VerdictView) -> BaselineStatus {
    match verdict {
        VerdictView::Pass => BaselineStatus::Pass,
        VerdictView::Fail(_) => BaselineStatus::Fail,
        VerdictView::Skipped(_) => BaselineStatus::Skipped,
        VerdictView::Error(_) => BaselineStatus::Error,
    }
}

impl BaselineStatus {
    pub open spec fn spec_text(self) -> Seq<char> {
        match self {
            BaselineStatus::Pass => "pass"@,
            BaselineStatus::Fail => "fail"@,
            BaselineStatus::Skipped => "skipped"@,
            BaselineStatus::Error => "error"@,
        }
    }

    /// The status as baselines and readers see it.
    pub fn text(&self) -> (r: &'static str)
        ensures
            r@ == self.spec_text(),
    {
        match self {
            BaselineStatus::Pass => "pass",
            BaselineStatus::Fail => "fail",
            BaselineStatus::Skipped => "skipped",
            BaselineStatus::Error => "error",
        }
    }

    /// The status a verdict amounts to.
    pub fn of(verdict: &Verdict) -> (r: BaselineStatus)
        ensures
            r == status_of(verdict@),
    {
        match verdict {
            Verdict::Pass => BaselineStatus::Pass,
            Verdict::Fail { .. } => BaselineStatus::Fail,
            Verdict::Skipped { .. } => BaselineStatus::Skipped,
            Verdict::Error { .. } => BaselineStatus::Error,
        }
    }
}

/// Whether one text comes before another, character by character.
pub open spec fn comes_before(a: Seq<char>, b: Seq<char>) -> bool
    decreases b.len(),
{
    if b.len() == 0 {
        false
    } else if a.len() == 0 {
        true
    } else if a[0] != b[0] {
        a[0] < b[0]
    } else {
        comes_before(a.skip(1), b.skip(1))
    }
}

proof fn lemma_order_total(a: Seq<char>, b: Seq<char>)
    ensures
        comes_before(a, b) || a == b || comes_before(b, a),
        a == b ==> !comes_before(a, b),
        comes_before(a, b) ==> !comes_before(b, a),
    decreases b.len(),
{
    if a.len() > 0 && b.len() > 0 {
        if a[0] == b[0] {
            lemma_order_total(a.skip(1), b.skip(1));
            if a.skip(1) == b.skip(1) {
                assert(a =~= seq![a[0]] + a.skip(1));
                assert(b =~= seq![b[0]] + b.skip(1));
            }
        }
    } else if a.len() == 0 && b.len() == 0 {
        assert(a =~= b);
    }
}

proof fn lemma_order_transitive(a: Seq<char>, b: Seq<char>, c: Seq<char>)
    requires
        comes_before(a, b),
        comes_before(b, c),
    ensures
        comes_before(a, c),
    decreases c.len(),
{
    if a.len() > 0 {
        if a[0] == b[0] && b[0] == c[0] {
            lemma_order_transitive(a.skip(1), b.skip(1), c.skip(1));
        }
    }
}

/// Whether one text comes before another.
fn is_before(a: &str, b: &str) -> (r: bool)
    ensures
        r == comes_before(a@, b@),
{
    let n: usize = a.unicode_len();
    let m: usize = b.unicode_len();
    let mut i: usize = 0;
    assert(a@.skip(0) =~= a@);
    assert(b@.skip(0) =~= b@);
    while i < n && i < m
        invariant
            n == a@.len(),
            m == b@.len(),
            i <= n,
            i <= m,
            comes_before(a@, b@) == comes_before(a@.skip(i as int), b@.skip(i as int)),
        decreases n - i,
    {
        let x = a.get_char(i);
        let y = b.get_char(i);
        assert(a@.skip(i as int).skip(1) =~= a@.skip(i + 1));
        assert(b@.skip(i as int).skip(1) =~= b@.skip(i + 1));
        if x != y {
            return x < y;
        }
        i = i + 1;
    }
    i < m
}

/// One expectation of a baseline.
#[derive(Debug, Clone, PartialEq, Eq)]
pub struct BaselineEntry {
    pub id: String,
    pub status: BaselineStatus,
}

/// Expected statuses for one subject implementation, by check, in the order
/// of their names.
#[derive(Debug, Clone, PartialEq, Eq)]
pub struct Baseline {
    /// Schema version; see [`FORMAT`].
    pub format: u32,
    /// The suite version that recorded this baseline.
    pub suite: String,
    pub checks: Vec<BaselineEntry>,
}

/// Entries in the order of their names, each name once.
pub open spec fn in_order(entries: Seq<BaselineEntry>) -> bool {
    forall|i: int, j: int|
        0 <= i < j < entries.len() ==> comes_before(#[trigger] entries[i].id@, #[trigger] entries[j].id@)
}

pub open spec fn names(entries: Seq<BaselineEntry>, id: Seq<char>) -> bool {
    exists|i: int| 0 <= i < entries.len() && #[trigger] entries[i].id@ == id
}

/// What the entries expect, by name.
pub open spec fn expectations(entries: Seq<BaselineEntry>) -> Map<Seq<char>, BaselineStatus> {
    Map::new(
        |id: Seq<char>| names(entries, id),
        |id: Seq<char>|
            entries[choose|i: int| 0 <= i < entries.len() && #[trigger] entries[i].id@ == id].status,
    )
}

proof fn lemma_expectation(entries: Seq<BaselineEntry>, i: int)
    requires
        in_order(entries),
        0 <= i < entries.len(),
    ensures
        expectations(entries).dom().contains(entries[i].id@),
        expectations(entries)[entries[i].id@] == entries[i].status,
{
    let id = entries[i].id@;
    let k = choose|k: int| 0 <= k < entries.len() && #[trigger] entries[k].id@ == id;
    lemma_order_total(entries[i].id@, entries[k].id@);
    if i < k {
        assert(comes_before(entries[i].id@, entries[k].id@));
    }
    if k < i {
        assert(comes_before(entries[k].id@, entries[i].id@));
    }
}

impl Baseline {
    /// The entries are in the order of their names, each name once.
    pub open spec fn wf(self) -> bool {
        in_order(self.checks@)
    }

    /// What the baseline expects, by name.
    pub open spec fn spec_checks(self) -> Map<Seq<char>, BaselineStatus> {
        expectations(self.checks@)
    }

    /// A baseline that expects nothing.
    pub fn empty(format: u32, suite: String) -> (r: Baseline)
        ensures
            r.format == format,
            r.suite == suite,
            r.wf(),
            r.spec_checks() == Map::<Seq<char>, BaselineStatus>::empty(),
    {
        let baseline = Baseline { format, suite, checks: Vec::new() };
        assert(baseline.spec_checks() =~= Map::<Seq<char>, BaselineStatus>::empty());
        baseline
    }

    /// What is expected of a check, if anything.
    pub fn expected(&self, id: &str) -> (r: Option<BaselineStatus>)
        requires
            self.wf(),
        ensures
            r == (if self.spec_checks().dom().contains(id@) {
                Some(self.spec_checks()[id@])
            } else {
                None
            }),
    {
        let mut i: usize = 0;
        while i < self.checks.len()
            invariant
                i <= self.checks@.len(),
                self.wf(),
                forall|j: int| 0 <= j < i ==> #[trigger] self.checks@[j].id@ != id@,
            decreases self.checks@.len() - i,
        {
            if same_text(self.checks[i].id.as_str(), id) {
                proof {
                    lemma_expectation(self.checks@, i as int);
                }
                return Some(self.checks[i].status);
            }
            i = i + 1;
        }
        None
    }

    /// Expects a status of a check, in place of what was expected before.
    pub fn expect(&mut self, id: String, status: BaselineStatus)
        requires
            old(self).wf(),
        ensures
            final(self).wf(),
            final(self).format == old(self).format,
            final(self).suite == old(self).suite,
            final(self).spec_checks() == old(self).spec_checks().insert(id@, status),
    {
        let ghost before = self.checks@;
        let mut i: usize = 0;
        while i < self.checks.len() && is_before(self.checks[i].id.as_str(), id.as_str())
            invariant
                i <= self.checks@.len(),
                self.checks@ == before,
                in_order(before),
                self.format == old(self).format,
                self.suite == old(self).suite,
                forall|j: int| 0 <= j < i ==> comes_before(#[trigger] before[j].id@, id@),
            decreases self.checks@.len() - i,
        {
            i = i + 1;
        }
        if i < self.checks.len() && same_text(self.checks[i].id.as_str(), id.as_str()) {
            let ghost name = id@;
            self.checks.set(i, BaselineEntry { id, status });
            proof {
                let after = self.checks@;
                assert forall|j: int, k: int| 0 <= j < k < after.len() implies comes_before(
                    #[trigger] after[j].id@,
                    #[trigger] after[k].id@,
                ) by {
                    assert(after[j].id@ == before[j].id@);
                    assert(after[k].id@ == before[k].id@);
                }
                lemma_replaced(before, after, i as int, name, status);
            }
        } else {
            let ghost name = id@;
            self.checks.insert(i, BaselineEntry { id, status });
            proof {
                let after = self.checks@;
                if i < before.len() {
                    lemma_order_total(before[i as int].id@, name);
                }
                lemma_inserted(before, after, i as int, name, status);
            }
        }
    }
}

proof fn lemma_replaced(
    before: Seq<BaselineEntry>,
    after: Seq<BaselineEntry>,
    i: int,
    id: Seq<char>,
    status: BaselineStatus,
)
    requires
        in_order(before),
        in_order(after),
        0 <= i < before.len(),
        before[i].id@ == id,
        after.len() == before.len(),
        after[i].id@ == id,
        after[i].status == status,
        forall|j: int| 0 <= j < before.len() && j != i ==> #[trigger] after[j] == before[j],
    ensures
        expectations(after) == expectations(before).insert(id, status),
{
    let a = expectations(after);
    let b = expectations(before).insert(id, status);
    assert forall|k: Seq<char>| a.dom().contains(k) == b.dom().contains(k) by {
        if a.dom().contains(k) {
            let j = choose|j: int| 0 <= j < after.len() && #[trigger] after[j].id@ == k;
            assert(before[j].id@ == k);
        }
        if names(before, k) {
            let j = choose|j: int| 0 <= j < before.len() && #[trigger] before[j].id@ == k;
            assert(after[j].id@ == k);
        }
    }
    assert forall|k: Seq<char>| a.dom().contains(k) implies #[trigger] a[k] == b[k] by {
        let j = choose|j: int| 0 <= j < after.len() && #[trigger] after[j].id@ == k;
        lemma_expectation(after, j);
        lemma_expectation(after, i);
        if j != i {
            lemma_expectation(before, j);
            lemma_order_total(after[i].id@, after[j].id@);
            lemma_order_total(after[j].id@, after[i].id@);
            if i < j {
                assert(comes_before(after[i].id@, after[j].id@));
            } else {
                assert(comes_before(after[j].id@, after[i].id@));
            }
        }
    }
    assert(a =~= b);
}

proof fn lemma_inserted(
    before: Seq<BaselineEntry>,
    after: Seq<BaselineEntry>,
    i: int,
    id: Seq<char>,
    status: BaselineStatus,
)
    requires
        in_order(before),
        0 <= i <= before.len(),
        after.len() == before.len() + 1,
        forall|j: int| 0 <= j < i ==> #[trigger] after[j] == before[j],
        after[i].id@ == id,
        after[i].status == status,
        forall|j: int| i < j < after.len() ==> #[trigger] after[j] == before[j - 1],
        forall|j: int| 0 <= j < i ==> comes_before(#[trigger] before[j].id@, id),
        i < before.len() ==> comes_before(id, before[i].id@),
    ensures
        in_order(after),
        expectations(after) == expectations(before).insert(id, status),
{
    assert forall|j: int, k: int| 0 <= j < k < after.len() implies comes_before(
        #[trigger] after[j].id@,
        #[trigger] after[k].id@,
    ) by {
        if j == i {
            assert(after[k] == before[k - 1]);
            if k - 1 > i {
                assert(comes_before(before[i].id@, before[k - 1].id@));
                lemma_order_transitive(id, before[i].id@, before[k - 1].id@);
            }
        } else if k == i {
            assert(comes_before(before[j].id@, id));
        } else {
            let x = if j < i { j } else { j - 1 };
            let y = if k < i { k } else { k - 1 };
            assert(after[j] == before[x]);
            assert(after[k] == before[y]);
            assert(comes_before(before[x].id@, before[y].id@));
        }
    }
    let a = expectations(after);
    let b = expectations(before).insert(id, status);
    assert forall|k: Seq<char>| a.dom().contains(k) == b.dom().contains(k) by {
        if a.dom().contains(k) {
            let j = choose|j: int| 0 <= j < after.len() && #[trigger] after[j].id@ == k;
            if j < i {
                assert(before[j].id@ == k);
            } else if j > i {
                assert(before[j - 1].id@ == k);
            }
        }
        if names(before, k) {
            let j = choose|j: int| 0 <= j < before.len() && #[trigger] before[j].id@ == k;
            if j < i {
                assert(after[j].id@ == k);
            } else {
                assert(after[j + 1].id@ == k);
            }
        }
        if k == id {
            assert(after[i].id@ == k);
        }
    }
    assert forall|k: Seq<char>| a.dom().contains(k) implies #[trigger] a[k] == b[k] by {
        let j = choose|j: int| 0 <= j < after.len() && #[trigger] after[j].id@ == k;
        lemma_expectation(after, j);
        lemma_expectation(after, i);
        if j < i {
            assert(comes_before(after[j].id@, after[i].id@));
            lemma_order_total(after[j].id@, after[i].id@);
            lemma_expectation(before, j);
        } else if j > i {
            assert(comes_before(after[i].id@, after[j].id@));
            lemma_order_total(after[i].id@, after[j].id@);
            lemma_expectation(before, j - 1);
        }
    }
    assert(a =~= b);
}

/// One discrepancy between a run and a baseline, over texts `S`.
#[derive(Debug, Clone, PartialEq, Eq)]
pub enum BaselineDiffOf<S> {
    /// The check ran in both; its outcome changed.
    Regression { id: S, expected: BaselineStatus, actual: BaselineStatus },
    /// The check ran but the baseline has no entry for it.
    NotInBaseline { id: S, actual: BaselineStatus },
    /// The baseline names a check that did not run.
    RemovedCheck { id: S, expected: BaselineStatus },
    /// The check could not run this time. Never counts as matching, but is
    /// not evidence of nonconformance.
    Infrastructure { id: S, details: S },
}

pub type BaselineDiff = BaselineDiffOf<String>;

impl View for BaselineDiffOf<String> {
    type V = BaselineDiffOf<Seq<char>>;

    open spec fn view(&self) -> BaselineDiffOf<Seq<char>> {
        match *self {
            BaselineDiffOf::Regression { id, expected, actual } =>
                BaselineDiffOf::Regression { id: id@, expected, actual },
            BaselineDiffOf::NotInBaseline { id, actual } =>
                BaselineDiffOf::NotInBaseline { id: id@, actual },
            BaselineDiffOf::RemovedCheck { id, expected } =>
                BaselineDiffOf::RemovedCheck { id: id@, expected },
            BaselineDiffOf::Infrastructure { id, details } =>
                BaselineDiffOf::Infrastructure { id: id@, details: details@ },
        }
    }
}

/// A discrepancy as a reader sees it.
pub open spec fn spec_diff_text(diff: BaselineDiffOf<Seq<char>>) -> Seq<char> {
    match diff {
        BaselineDiffOf::Regression { id, expected, actual } => id + ": expected "@
            + expected.spec_text() + ", got "@ + actual.spec_text(),
        BaselineDiffOf::NotInBaseline { id, actual } => id + ": ran ("@ + actual.spec_text()
            + ") but the baseline has no entry — re-record the baseline to adopt the new check"@,
        BaselineDiffOf::RemovedCheck { id, expected } => id + ": baseline expects "@
            + expected.spec_text()
            + ", but no such check exists any more — re-record the baseline"@,
        BaselineDiffOf::Infrastructure { id, details } => id
            + ": infrastructure — the check could not run ("@ + details
            + "); not evidence of nonconformance"@,
    }
}

impl BaselineDiffOf<String> {
    /// The discrepancy as a reader sees it.
    pub fn text(&self) -> (r: String)
        ensures
            r@ == spec_diff_text(self@),
    {
        match self {
            BaselineDiffOf::Regression { id, expected, actual } => line(id.as_str()).lit(
                ": expected ",
            ).lit(expected.text()).lit(", got ").lit(actual.text()).done(),
            BaselineDiffOf::NotInBaseline { id, actual } => line(id.as_str()).lit(": ran (").lit(
                actual.text(),
            ).lit(
                ") but the baseline has no entry — re-record the baseline to adopt the new check",
            ).done(),
            BaselineDiffOf::RemovedCheck { id, expected } => line(id.as_str()).lit(
                ": baseline expects ",
            ).lit(expected.text()).lit(
                ", but no such check exists any more — re-record the baseline",
            ).done(),
            BaselineDiffOf::Infrastructure { id, details } => line(id.as_str()).lit(
                ": infrastructure — the check could not run (",
            ).lit(details.as_str()).lit("); not evidence of nonconformance").done(),
        }
    }
}

/// Several discrepancies by their characters.
pub open spec fn diff_views(diffs: Seq<BaselineDiff>) -> Seq<BaselineDiffOf<Seq<char>>> {
    diffs.map_values(|d: BaselineDiff| d@)
}

/// How one outcome differs from what was expected, if it does.
pub open spec fn outcome_diff(
    outcome: CheckOutcome,
    expected: Map<Seq<char>, BaselineStatus>,
) -> Option<BaselineDiffOf<Seq<char>>> {
    let id = outcome.id@;
    match outcome.verdict@ {
        VerdictView::Error(details) => Some(BaselineDiffOf::Infrastructure { id, details }),
        verdict => {
            let actual = status_of(verdict);
            if !expected.dom().contains(id) {
                Some(BaselineDiffOf::NotInBaseline { id, actual })
            } else if expected[id] != actual {
                Some(BaselineDiffOf::Regression { id, expected: expected[id], actual })
            } else {
                None
            }
        },
    }
}

/// How the outcomes differ, in run order.
pub open spec fn run_diffs(
    outcomes: Seq<CheckOutcome>,
    expected: Map<Seq<char>, BaselineStatus>,
) -> Seq<BaselineDiffOf<Seq<char>>>
    decreases outcomes.len(),
{
    if outcomes.len() == 0 {
        Seq::empty()
    } else {
        let rest = run_diffs(outcomes.drop_last(), expected);
        match outcome_diff(outcomes.last(), expected) {
            Some(diff) => rest.push(diff),
            None => rest,
        }
    }
}

/// Whether a check is among the outcomes.
pub open spec fn was_run(outcomes: Seq<CheckOutcome>, id: Seq<char>) -> bool {
    exists|i: int| 0 <= i < outcomes.len() && #[trigger] outcomes[i].id@ == id
}

/// The expected checks that did not run, in the order of their names.
pub open spec fn removed_diffs(
    entries: Seq<BaselineEntry>,
    outcomes: Seq<CheckOutcome>,
) -> Seq<BaselineDiffOf<Seq<char>>>
    decreases entries.len(),
{
    if entries.len() == 0 {
        Seq::empty()
    } else {
        let rest = removed_diffs(entries.drop_last(), outcomes);
        let entry = entries.last();
        if was_run(outcomes, entry.id@) {
            rest
        } else {
            rest.push(BaselineDiffOf::RemovedCheck { id: entry.id@, expected: entry.status })
        }
    }
}

/// Whether nothing failed.
pub open spec fn conformant(report: Report) -> bool {
    forall|i: int|
        0 <= i < report.outcomes@.len() ==> !((#[trigger] report.outcomes@[i]).verdict@ is Fail)
}

/// The outcomes with a given status.
pub open spec fn tally(outcomes: Seq<CheckOutcome>, status: BaselineStatus) -> nat
    decreases outcomes.len(),
{
    if outcomes.len() == 0 {
        0
    } else {
        tally(outcomes.drop_last(), status) + (if status_of(outcomes.last().verdict@) == status {
            1nat
        } else {
            0nat
        })
    }
}

/// What a run reduces to as a baseline: of a check that ran twice, the later
/// outcome counts.
pub open spec fn outcomes_map(outcomes: Seq<CheckOutcome>) -> Map<Seq<char>, BaselineStatus>
    decreases outcomes.len(),
{
    if outcomes.len() == 0 {
        Map::empty()
    } else {
        outcomes_map(outcomes.drop_last()).insert(
            outcomes.last().id@,
            status_of(outcomes.last().verdict@),
        )
    }
}

/// The verdict of the first outcome with the given name.
pub open spec fn first_verdict(outcomes: Seq<CheckOutcome>, id: Seq<char>) -> Option<Verdict>
    decreases outcomes.len(),
{
    if outcomes.len() == 0 {
        None
    } else if outcomes[0].id@ == id {
        Some(outcomes[0].verdict)
    } else {
        first_verdict(outcomes.skip(1), id)
    }
}

/// One outcome's lines in a report.
pub open spec fn outcome_text(outcome: CheckOutcome) -> Seq<char> {
    match outcome.verdict@ {
        VerdictView::Pass => "  PASS "@ + outcome.id@ + "\n"@,
        VerdictView::Fail(details) => "  FAIL "@ + outcome.id@ + "\n       requirement: "@
            + outcome.requirement@ + "\n       observed: "@ + details + "\n"@,
        VerdictView::Skipped(reason) => "  SKIP "@ + outcome.id@ + " ("@ + reason + ")\n"@,
        VerdictView::Error(details) => "  ERROR "@ + outcome.id@ + "\n        could not run: "@
            + details + "\n"@,
    }
}

/// A report up to and including its outcomes.
pub open spec fn outcomes_text(subject: Seq<char>, outcomes: Seq<CheckOutcome>) -> Seq<char>
    decreases outcomes.len(),
{
    if outcomes.len() == 0 {
        "conformance report for "@ + subject + "\n"@
    } else {
        outcomes_text(subject, outcomes.drop_last()) + outcome_text(outcomes.last())
    }
}

fn text_of_outcome(outcome: &CheckOutcome) -> (r: String)
    ensures
        r@ == outcome_text(*outcome),
{
    let id = outcome.id.0.as_str();
    match &outcome.verdict {
        Verdict::Pass => line("  PASS ").lit(id).lit("\n").done(),
        Verdict::Fail { details } => line("  FAIL ").lit(id).lit("\n       requirement: ").lit(
            outcome.requirement.as_str(),
        ).lit("\n       observed: ").lit(details.as_str()).lit("\n").done(),
        Verdict::Skipped { reason } => line("  SKIP ").lit(id).lit(" (").lit(
            reason.as_str(),
        ).lit(")\n").done(),
        Verdict::Error { details } => line("  ERROR ").lit(id).lit(
            "\n        could not run: ",
        ).lit(details.as_str()).lit("\n").done(),
    }
}

impl Report {
    /// Assembles a report for one run, stamping the envelope.
    pub fn new(subject: String, outcomes: Vec<CheckOutcome>) -> (r: Report)
        ensures
            r.format == FORMAT,
            r.suite@ == spec_suite(),
            r.subject == subject,
            r.outcomes == outcomes,
    {
        Report { format: FORMAT, suite: String::from_str(suite()), subject, outcomes }
    }

    fn count(&self, status: BaselineStatus) -> (r: usize)
        ensures
            r == tally(self.outcomes@, status),
    {
        let mut n: usize = 0;
        let mut i: usize = 0;
        while i < self.outcomes.len()
            invariant
                i <= self.outcomes@.len(),
                n <= i,
                n == tally(self.outcomes@.take(i as int), status),
            decreases self.outcomes@.len() - i,
        {
            assert(self.outcomes@.take(i + 1).drop_last() =~= self.outcomes@.take(i as int));
            if BaselineStatus::of(&self.outcomes[i].verdict) == status {
                n = n + 1;
            }
            i = i + 1;
        }
        assert(self.outcomes@.take(i as int) =~= self.outcomes@);
        n
    }

    /// How many checks passed.
    pub fn passed(&self) -> (r: usize)
        ensures
            r == tally(self.outcomes@, BaselineStatus::Pass),
    {
        self.count(BaselineStatus::Pass)
    }

    /// How many checks the subject failed.
    pub fn failed(&self) -> (r: usize)
        ensures
            r == tally(self.outcomes@, BaselineStatus::Fail),
    {
        self.count(BaselineStatus::Fail)
    }

    /// How many checks did not apply.
    pub fn skipped(&self) -> (r: usize)
        ensures
            r == tally(self.outcomes@, BaselineStatus::Skipped),
    {
        self.count(BaselineStatus::Skipped)
    }

    /// How many checks could not run, as distinct from those the subject
    /// failed.
    pub fn errored(&self) -> (r: usize)
        ensures
            r == tally(self.outcomes@, BaselineStatus::Error),
    {
        self.count(BaselineStatus::Error)
    }

    /// Whether nothing failed. A skip does not fail a run, and an error
    /// proves neither conformance nor nonconformance.
    pub fn is_conformant(&self) -> (r: bool)
        ensures
            r == conformant(*self),
    {
        proof {
            lemma_tally_zero(self.outcomes@, BaselineStatus::Fail);
        }
        self.failed() == 0
    }

    /// One check's verdict by name.
    pub fn verdict(&self, id: &str) -> (r: Option<&Verdict>)
        ensures
            (match r {
                Some(v) => Some(*v),
                None => None,
            }) == first_verdict(self.outcomes@, id@),
    {
        let mut i: usize = 0;
        assert(self.outcomes@.skip(0) =~= self.outcomes@);
        while i < self.outcomes.len()
            invariant
                i <= self.outcomes@.len(),
                first_verdict(self.outcomes@, id@) == first_verdict(
                    self.outcomes@.skip(i as int),
                    id@,
                ),
            decreases self.outcomes@.len() - i,
        {
            assert(self.outcomes@.skip(i as int).skip(1) =~= self.outcomes@.skip(i + 1));
            if same_text(self.outcomes[i].id.0.as_str(), id) {
                return Some(&self.outcomes[i].verdict);
            }
            i = i + 1;
        }
        None
    }

    /// Reduces this run to a baseline.
    pub fn to_baseline(&self) -> (r: Baseline)
        ensures
            r.wf(),
            r.format == self.format,
            r.suite@ == self.suite@,
            r.spec_checks() == outcomes_map(self.outcomes@),
    {
        let mut baseline = Baseline::empty(self.format, self.suite.clone());
        let mut i: usize = 0;
        while i < self.outcomes.len()
            invariant
                i <= self.outcomes@.len(),
                baseline.wf(),
                baseline.format == self.format,
                baseline.suite@ == self.suite@,
                baseline.spec_checks() == outcomes_map(self.outcomes@.take(i as int)),
            decreases self.outcomes@.len() - i,
        {
            assert(self.outcomes@.take(i + 1).drop_last() =~= self.outcomes@.take(i as int));
            baseline.expect(
                self.outcomes[i].id.0.clone(),
                BaselineStatus::of(&self.outcomes[i].verdict),
            );
            i = i + 1;
        }
        assert(self.outcomes@.take(i as int) =~= self.outcomes@);
        baseline
    }

    fn ran(&self, id: &str) -> (r: bool)
        ensures
            r == was_run(self.outcomes@, id@),
    {
        let mut i: usize = 0;
        while i < self.outcomes.len()
            invariant
                i <= self.outcomes@.len(),
                forall|j: int| 0 <= j < i ==> #[trigger] self.outcomes@[j].id@ != id@,
            decreases self.outcomes@.len() - i,
        {
            if same_text(self.outcomes[i].id.0.as_str(), id) {
                assert(self.outcomes@[i as int].id@ == id@);
                return true;
            }
            i = i + 1;
        }
        false
    }

    fn compare(outcome: &CheckOutcome, baseline: &Baseline) -> (r: Option<BaselineDiff>)
        requires
            baseline.wf(),
        ensures
            (match r {
                Some(diff) => Some(diff@),
                None => None,
            }) == outcome_diff(*outcome, baseline.spec_checks()),
    {
        if let Verdict::Error { details } = &outcome.verdict {
            return Some(
                BaselineDiffOf::Infrastructure {
                    id: outcome.id.0.clone(),
                    details: details.clone(),
                },
            );
        }
        let actual = BaselineStatus::of(&outcome.verdict);
        match baseline.expected(outcome.id.0.as_str()) {
            None => Some(BaselineDiffOf::NotInBaseline { id: outcome.id.0.clone(), actual }),
            Some(expected) => if expected != actual {
                Some(BaselineDiffOf::Regression { id: outcome.id.0.clone(), expected, actual })
            } else {
                None
            },
        }
    }

    /// Compares this run against a baseline. Nothing to say means that the
    /// run matches expectations exactly, known deviations included. A check
    /// that could not run never matches.
    pub fn diff_against(&self, baseline: &Baseline) -> (r: Vec<BaselineDiff>)
        requires
            baseline.wf(),
        ensures
            diff_views(r@) == run_diffs(self.outcomes@, baseline.spec_checks()) + removed_diffs(
                baseline.checks@,
                self.outcomes@,
            ),
    {
        let mut diffs: Vec<BaselineDiff> = Vec::new();
        let mut i: usize = 0;
        assert(diff_views(diffs@) =~= Seq::empty());
        while i < self.outcomes.len()
            invariant
                i <= self.outcomes@.len(),
                baseline.wf(),
                diff_views(diffs@) == run_diffs(
                    self.outcomes@.take(i as int),
                    baseline.spec_checks(),
                ),
            decreases self.outcomes@.len() - i,
        {
            assert(self.outcomes@.take(i + 1).drop_last() =~= self.outcomes@.take(i as int));
            let ghost before = diffs@;
            if let Some(diff) = Report::compare(&self.outcomes[i], baseline) {
                diffs.push(diff);
                assert(diff_views(diffs@) =~= diff_views(before).push(diff@));
            }
            i = i + 1;
        }
        assert(self.outcomes@.take(i as int) =~= self.outcomes@);
        let ghost ran = diff_views(diffs@);
        let mut j: usize = 0;
        assert(ran + Seq::empty() =~= ran);
        while j < baseline.checks.len()
            invariant
                j <= baseline.checks@.len(),
                ran == run_diffs(self.outcomes@, baseline.spec_checks()),
                diff_views(diffs@) == ran + removed_diffs(
                    baseline.checks@.take(j as int),
                    self.outcomes@,
                ),
            decreases baseline.checks@.len() - j,
        {
            assert(baseline.checks@.take(j + 1).drop_last() =~= baseline.checks@.take(j as int));
            let entry = &baseline.checks[j];
            let ghost before = diffs@;
            if !self.ran(entry.id.as_str()) {
                let diff = BaselineDiffOf::RemovedCheck {
                    id: entry.id.clone(),
                    expected: entry.status,
                };
                let ghost seen = diff@;
                diffs.push(diff);
                assert(diff_views(diffs@) =~= diff_views(before).push(seen));
                assert(diff_views(diffs@) =~= ran + removed_diffs(
                    baseline.checks@.take(j + 1),
                    self.outcomes@,
                ));
            }
            j = j + 1;
        }
        assert(baseline.checks@.take(j as int) =~= baseline.checks@);
        diffs
    }

    /// The report as a reader sees it.
    pub fn text(&self) -> (r: String)
        ensures
            r@ == outcomes_text(self.subject@, self.outcomes@) + text::dec(
                tally(self.outcomes@, BaselineStatus::Pass) as int,
            ) + " passed, "@ + text::dec(tally(self.outcomes@, BaselineStatus::Fail) as int)
                + " failed, "@ + text::dec(tally(self.outcomes@, BaselineStatus::Skipped) as int)
                + " skipped, "@ + text::dec(tally(self.outcomes@, BaselineStatus::Error) as int)
                + " errored"@,
    {
        let mut so_far: String = line("conformance report for ").lit(self.subject.as_str()).lit(
            "\n",
        ).done();
        let mut i: usize = 0;
        while i < self.outcomes.len()
            invariant
                i <= self.outcomes@.len(),
                so_far@ == outcomes_text(self.subject@, self.outcomes@.take(i as int)),
            decreases self.outcomes@.len() - i,
        {
            assert(self.outcomes@.take(i + 1).drop_last() =~= self.outcomes@.take(i as int));
            so_far = line(so_far.as_str()).lit(
                text_of_outcome(&self.outcomes[i]).as_str(),
            ).done();
            i = i + 1;
        }
        assert(self.outcomes@.take(i as int) =~= self.outcomes@);
        line(so_far.as_str()).count(self.passed() as u128).lit(" passed, ").count(
            self.failed() as u128,
        ).lit(" failed, ").count(self.skipped() as u128).lit(" skipped, ").count(
            self.errored() as u128,
        ).lit(" errored").done()
    }
}

/// The envelope a stored file must have.
pub fn check_format(format: u32) -> (r: Result<(), String>)
    ensures
        r is Ok <==> format == FORMAT,
        r matches Err(e) ==> e@ == "format "@ + text::dec(format as int)
            + " is not supported (this suite reads format "@ + text::dec(FORMAT as int)
            + "); re-record"@,
{
    if format == FORMAT {
        Ok(())
    } else {
        Err(
            line("format ").num(format as i64).lit(
                " is not supported (this suite reads format ",
            ).num(FORMAT as i64).lit("); re-record").done(),
        )
    }
}

/// What a parse error says to someone whose file is older than the envelope.
pub fn explain_parse_error(message: &str) -> (r: String)
    ensures
        r@ == (if text::has_text(message@, "missing field `format`"@) {
            message@ + " — the file predates the versioned envelope (format "@ + text::dec(
                FORMAT as int,
            ) + "); re-record"@
        } else {
            message@
        }),
{
    if contains_text(message, "missing field `format`") {
        line(message).lit(" — the file predates the versioned envelope (format ").num(
            FORMAT as i64,
        ).lit("); re-record").done()
    } else {
        String::from_str(message)
    }
}

proof fn lemma_tally_zero(outcomes: Seq<CheckOutcome>, status: BaselineStatus)
    ensures
        (tally(outcomes, status) == 0) == (forall|i: int|
            0 <= i < outcomes.len() ==> status_of((#[trigger] outcomes[i]).verdict@) != status),
    decreases outcomes.len(),
{
    if outcomes.len() > 0 {
        lemma_tally_zero(outcomes.drop_last(), status);
        assert forall|i: int| 0 <= i < outcomes.drop_last().len() implies outcomes.drop_last()[i]
            == #[trigger] outcomes[i] by {}
        if tally(outcomes.drop_last(), status) == 0 {
            assert forall|i: int|
                0 <= i < outcomes.len() && status_of(outcomes.last().verdict@) != status implies
                status_of((#[trigger] outcomes[i]).verdict@) != status by {
                if i < outcomes.len() - 1 {
                    assert(outcomes.drop_last()[i] == outcomes[i]);
                }
            }
        } else {
            let i = choose|i: int|
                0 <= i < outcomes.drop_last().len() && status_of(
                    (#[trigger] outcomes.drop_last()[i]).verdict@,
                ) == status;
            assert(status_of(outcomes[i].verdict@) == status);
        }
    }
}

/// Every outcome is counted once: passed, failed, skipped and errored add up
/// to all there are.
pub proof fn law_counts_add_up(report: Report)
    ensures
        tally(report.outcomes@, BaselineStatus::Pass) + tally(
            report.outcomes@,
            BaselineStatus::Fail,
        ) + tally(report.outcomes@, BaselineStatus::Skipped) + tally(
            report.outcomes@,
            BaselineStatus::Error,
        ) == report.outcomes@.len(),
{
    lemma_counts(report.outcomes@);
}

proof fn lemma_counts(outcomes: Seq<CheckOutcome>)
    ensures
        tally(outcomes, BaselineStatus::Pass) + tally(outcomes, BaselineStatus::Fail) + tally(
            outcomes,
            BaselineStatus::Skipped,
        ) + tally(outcomes, BaselineStatus::Error) == outcomes.len(),
    decreases outcomes.len(),
{
    if outcomes.len() > 0 {
        lemma_counts(outcomes.drop_last());
    }
}

/// Whether a run is exactly as expected: nothing failed to run, every check
/// that ran was expected to come out as it did, and every check that was
/// expected ran.
pub open spec fn as_expected(report: Report, baseline: Baseline) -> bool {
    &&& forall|i: int|
        0 <= i < report.outcomes@.len() ==> {
            let o = #[trigger] report.outcomes@[i];
            &&& !(o.verdict@ is Error)
            &&& baseline.spec_checks().dom().contains(o.id@)
            &&& baseline.spec_checks()[o.id@] == status_of(o.verdict@)
        }
    &&& forall|id: Seq<char>| #[trigger]
        baseline.spec_checks().dom().contains(id) ==> was_run(report.outcomes@, id)
}

/// The whole difference between a run and a baseline.
pub open spec fn spec_diffs(report: Report, baseline: Baseline) -> Seq<
    BaselineDiffOf<Seq<char>>,
> {
    run_diffs(report.outcomes@, baseline.spec_checks()) + removed_diffs(
        baseline.checks@,
        report.outcomes@,
    )
}

proof fn lemma_run_diffs(outcomes: Seq<CheckOutcome>, expected: Map<Seq<char>, BaselineStatus>)
    ensures
        (run_diffs(outcomes, expected).len() == 0) == (forall|i: int|
            0 <= i < outcomes.len() ==> outcome_diff(#[trigger] outcomes[i], expected) is None),
    decreases outcomes.len(),
{
    if outcomes.len() > 0 {
        let rest = outcomes.drop_last();
        lemma_run_diffs(rest, expected);
        if run_diffs(rest, expected).len() == 0 {
            assert forall|i: int|
                0 <= i < outcomes.len() && outcome_diff(outcomes.last(), expected) is None implies
                outcome_diff(#[trigger] outcomes[i], expected) is None by {
                if i < outcomes.len() - 1 {
                    assert(rest[i] == outcomes[i]);
                }
            }
        } else {
            let i = choose|i: int|
                0 <= i < rest.len() && outcome_diff(#[trigger] rest[i], expected) is Some;
            assert(outcome_diff(outcomes[i], expected) is Some);
        }
    }
}

proof fn lemma_removed_diffs(entries: Seq<BaselineEntry>, outcomes: Seq<CheckOutcome>)
    ensures
        (removed_diffs(entries, outcomes).len() == 0) == (forall|i: int|
            0 <= i < entries.len() ==> was_run(outcomes, #[trigger] entries[i].id@)),
    decreases entries.len(),
{
    if entries.len() > 0 {
        let rest = entries.drop_last();
        lemma_removed_diffs(rest, outcomes);
        if removed_diffs(rest, outcomes).len() == 0 {
            assert forall|i: int|
                0 <= i < entries.len() && was_run(outcomes, entries.last().id@) implies was_run(
                outcomes,
                #[trigger] entries[i].id@,
            ) by {
                if i < entries.len() - 1 {
                    assert(rest[i] == entries[i]);
                }
            }
        } else {
            let i = choose|i: int|
                0 <= i < rest.len() && !was_run(outcomes, #[trigger] rest[i].id@);
            assert(!was_run(outcomes, entries[i].id@));
        }
    }
}

/// A comparison has nothing to say exactly where the run is as expected. So
/// a check that could not run never matches, whatever the baseline says.
pub proof fn law_empty_diff_means_as_expected(report: Report, baseline: Baseline)
    requires
        baseline.wf(),
    ensures
        spec_diffs(report, baseline).len() == 0 <==> as_expected(report, baseline),
{
    let expected = baseline.spec_checks();
    lemma_run_diffs(report.outcomes@, expected);
    lemma_removed_diffs(baseline.checks@, report.outcomes@);
    if spec_diffs(report, baseline).len() == 0 {
        assert forall|i: int| 0 <= i < report.outcomes@.len() implies {
            let o = #[trigger] report.outcomes@[i];
            &&& !(o.verdict@ is Error)
            &&& expected.dom().contains(o.id@)
            &&& expected[o.id@] == status_of(o.verdict@)
        } by {
            assert(outcome_diff(report.outcomes@[i], expected) is None);
        }
        assert forall|id: Seq<char>| #[trigger] expected.dom().contains(id) implies was_run(
            report.outcomes@,
            id,
        ) by {
            let k = choose|k: int|
                0 <= k < baseline.checks@.len() && #[trigger] baseline.checks@[k].id@ == id;
            assert(was_run(report.outcomes@, baseline.checks@[k].id@));
        }
    }
    if as_expected(report, baseline) {
        assert forall|i: int| 0 <= i < report.outcomes@.len() implies outcome_diff(
            #[trigger] report.outcomes@[i],
            expected,
        ) is None by {}
        assert forall|k: int| 0 <= k < baseline.checks@.len() implies was_run(
            report.outcomes@,
            #[trigger] baseline.checks@[k].id@,
        ) by {
            lemma_expectation(baseline.checks@, k);
        }
    }
}

proof fn lemma_outcomes_map(outcomes: Seq<CheckOutcome>)
    ensures
        forall|id: Seq<char>| #[trigger]
            outcomes_map(outcomes).dom().contains(id) <==> was_run(outcomes, id),
    decreases outcomes.len(),
{
    if outcomes.len() > 0 {
        let rest = outcomes.drop_last();
        lemma_outcomes_map(rest);
        assert forall|id: Seq<char>| #[trigger]
            outcomes_map(outcomes).dom().contains(id) <==> was_run(outcomes, id) by {
            assert(outcomes_map(outcomes).dom().contains(id) == (id == outcomes.last().id@
                || outcomes_map(rest).dom().contains(id)));
            if was_run(rest, id) {
                let i = choose|i: int| 0 <= i < rest.len() && #[trigger] rest[i].id@ == id;
                assert(outcomes[i].id@ == id);
            }
            if id == outcomes.last().id@ {
                assert(outcomes[outcomes.len() - 1].id@ == id);
            }
            if was_run(outcomes, id) {
                let i = choose|i: int| 0 <= i < outcomes.len() && #[trigger] outcomes[i].id@ == id;
                if i < outcomes.len() - 1 {
                    assert(rest[i].id@ == id);
                }
            }
        }
    }
}

proof fn lemma_own_status(outcomes: Seq<CheckOutcome>, i: int)
    requires
        0 <= i < outcomes.len(),
        forall|j: int, k: int|
            0 <= j < k < outcomes.len() ==> #[trigger] outcomes[j].id@ != #[trigger] outcomes[k].id@,
    ensures
        outcomes_map(outcomes)[outcomes[i].id@] == status_of(outcomes[i].verdict@),
    decreases outcomes.len(),
{
    if i < outcomes.len() - 1 {
        let rest = outcomes.drop_last();
        assert(rest[i] == outcomes[i]);
        assert(outcomes[i].id@ != outcomes[outcomes.len() - 1].id@);
        lemma_own_status(rest, i);
    }
}

/// A run in which every check could run, each once, has no difference to the
/// baseline it reduces to.
pub proof fn law_run_matches_its_own_baseline(report: Report, baseline: Baseline)
    requires
        baseline.wf(),
        baseline.spec_checks() == outcomes_map(report.outcomes@),
        forall|i: int|
            0 <= i < report.outcomes@.len() ==> !((#[trigger] report.outcomes@[i]).verdict@
                is Error),
        forall|j: int, k: int|
            0 <= j < k < report.outcomes@.len() ==> #[trigger] report.outcomes@[j].id@
                != #[trigger] report.outcomes@[k].id@,
    ensures
        spec_diffs(report, baseline).len() == 0,
{
    lemma_outcomes_map(report.outcomes@);
    assert forall|i: int| 0 <= i < report.outcomes@.len() implies {
        let o = #[trigger] report.outcomes@[i];
        &&& !(o.verdict@ is Error)
        &&& baseline.spec_checks().dom().contains(o.id@)
        &&& baseline.spec_checks()[o.id@] == status_of(o.verdict@)
    } by {
        lemma_own_status(report.outcomes@, i);
    }
    law_empty_diff_means_as_expected(report, baseline);
}

/// A check that could not run surfaces as infrastructure trouble, never as a
/// regression of the subject and never as a match.
pub proof fn law_error_is_infrastructure(
    outcome: CheckOutcome,
    expected: Map<Seq<char>, BaselineStatus>,
)
    ensures
        outcome.verdict@ is Error <==> outcome_diff(outcome, expected) matches Some(
            BaselineDiffOf::Infrastructure { .. },
        ),
{
}

/// A count is zero exactly if no outcome has the status, and all of them exactly
/// if each has it.
pub proof fn law_counts_tell_of_each(outcomes: Seq<CheckOutcome>, status: BaselineStatus)
    ensures
        tally(outcomes, status) == 0 <==> forall|i: int|
            0 <= i < outcomes.len() ==> status_of((#[trigger] outcomes[i]).verdict@) != status,
        tally(outcomes, status) == outcomes.len() <==> forall|i: int|
            0 <= i < outcomes.len() ==> status_of((#[trigger] outcomes[i]).verdict@) == status,
        tally(outcomes, status) <= outcomes.len(),
    decreases outcomes.len(),
{
    lemma_tally_zero(outcomes, status);
    if outcomes.len() > 0 {
        let rest = outcomes.drop_last();
        law_counts_tell_of_each(rest, status);
        if tally(outcomes, status) == outcomes.len() {
            assert forall|i: int| 0 <= i < outcomes.len() implies status_of(
                (#[trigger] outcomes[i]).verdict@,
            ) == status by {
                if i < rest.len() {
                    assert(rest[i] == outcomes[i]);
                }
            }
        }
        if forall|i: int|
            0 <= i < outcomes.len() ==> status_of((#[trigger] outcomes[i]).verdict@) == status {
            assert forall|i: int| 0 <= i < rest.len() implies status_of(
                (#[trigger] rest[i]).verdict@,
            ) == status by {
                assert(rest[i] == outcomes[i]);
            }
            assert(status_of(outcomes[outcomes.len() - 1].verdict@) == status);
        }
    }
}

/// The status of a verdict says which of the four it is.
pub proof fn law_statuses_say_which(verdict: VerdictView)
    ensures
        status_of(verdict) is Pass <==> verdict is Pass,
        status_of(verdict) is Fail <==> verdict is Fail,
        status_of(verdict) is Skipped <==> verdict is Skipped,
        status_of(verdict) is Error <==> verdict is Error,
{
}

/// What differs about one outcome: nothing, exactly if it ran and the baseline
/// expects what it came to; otherwise which of three things it is, with the
/// outcome's own id, details and status.
pub proof fn law_diffs_say_what_changed(
    outcome: CheckOutcome,
    expected: Map<Seq<char>, BaselineStatus>,
)
    ensures
        match outcome_diff(outcome, expected) {
            None => !(outcome.verdict@ is Error) && expected.dom().contains(outcome.id@)
                && expected[outcome.id@] == status_of(outcome.verdict@),
            Some(BaselineDiffOf::Infrastructure { id, details }) => id == outcome.id@
                && outcome.verdict@ == VerdictView::Error(details),
            Some(BaselineDiffOf::NotInBaseline { id, actual }) => id == outcome.id@ && !(
            outcome.verdict@ is Error) && !expected.dom().contains(id) && actual == status_of(
                outcome.verdict@,
            ),
            Some(BaselineDiffOf::Regression { id, expected: wanted, actual }) => id == outcome.id@
                && !(outcome.verdict@ is Error) && expected.dom().contains(id) && wanted
                == expected[id] && actual == status_of(outcome.verdict@) && wanted != actual,
            Some(BaselineDiffOf::RemovedCheck { .. }) => false,
        },
{
}

/// The differences of a run: those of its outcomes, each of them, and nothing
/// else.
pub proof fn law_each_difference_is_listed(
    outcomes: Seq<CheckOutcome>,
    expected: Map<Seq<char>, BaselineStatus>,
    diff: BaselineDiffOf<Seq<char>>,
)
    ensures
        run_diffs(outcomes, expected).contains(diff) <==> exists|i: int|
            0 <= i < outcomes.len() && outcome_diff(#[trigger] outcomes[i], expected) == Some(diff),
        run_diffs(outcomes, expected).len() <= outcomes.len(),
    decreases outcomes.len(),
{
    if outcomes.len() > 0 {
        let rest = outcomes.drop_last();
        let before = run_diffs(rest, expected);
        let all = run_diffs(outcomes, expected);
        law_each_difference_is_listed(rest, expected, diff);
        if all.contains(diff) {
            let k = choose|k: int| 0 <= k < all.len() && all[k] == diff;
            if k < before.len() {
                assert(before[k] == diff);
                let i = choose|i: int|
                    0 <= i < rest.len() && outcome_diff(#[trigger] rest[i], expected) == Some(diff);
                assert(outcomes[i] == rest[i]);
            } else {
                assert(outcome_diff(outcomes[outcomes.len() - 1], expected) == Some(diff));
            }
        }
        if exists|i: int|
            0 <= i < outcomes.len() && outcome_diff(#[trigger] outcomes[i], expected) == Some(
                diff,
            ) {
            let i = choose|i: int|
                0 <= i < outcomes.len() && outcome_diff(#[trigger] outcomes[i], expected) == Some(
                    diff,
                );
            if i < rest.len() {
                assert(rest[i] == outcomes[i]);
                let k = choose|k: int| 0 <= k < before.len() && before[k] == diff;
                assert(all[k] == diff);
            } else {
                assert(all[all.len() - 1] == diff);
            }
        }
    }
}

/// The checks that a baseline expects and a run did not make: each of them, with
/// what was expected, and nothing else.
pub proof fn law_each_removed_check_is_listed(
    entries: Seq<BaselineEntry>,
    outcomes: Seq<CheckOutcome>,
    diff: BaselineDiffOf<Seq<char>>,
)
    ensures
        removed_diffs(entries, outcomes).contains(diff) <==> exists|i: int|
            0 <= i < entries.len() && !was_run(outcomes, #[trigger] entries[i].id@) && diff == (
            BaselineDiffOf::RemovedCheck { id: entries[i].id@, expected: entries[i].status }),
    decreases entries.len(),
{
    if entries.len() > 0 {
        let rest = entries.drop_last();
        let before = removed_diffs(rest, outcomes);
        let all = removed_diffs(entries, outcomes);
        let last = entries[entries.len() - 1];
        law_each_removed_check_is_listed(rest, outcomes, diff);
        if all.contains(diff) {
            let k = choose|k: int| 0 <= k < all.len() && all[k] == diff;
            if k < before.len() {
                assert(before[k] == diff);
                let i = choose|i: int|
                    0 <= i < rest.len() && !was_run(outcomes, #[trigger] rest[i].id@) && diff == (
                    BaselineDiffOf::RemovedCheck { id: rest[i].id@, expected: rest[i].status });
                assert(entries[i] == rest[i]);
                assert(!was_run(outcomes, entries[i].id@));
            } else {
                assert(!was_run(outcomes, entries[entries.len() - 1].id@));
            }
        }
        if exists|i: int|
            0 <= i < entries.len() && !was_run(outcomes, #[trigger] entries[i].id@) && diff == (
            BaselineDiffOf::RemovedCheck { id: entries[i].id@, expected: entries[i].status }) {
            let i = choose|i: int|
                0 <= i < entries.len() && !was_run(outcomes, #[trigger] entries[i].id@) && diff == (
                BaselineDiffOf::RemovedCheck { id: entries[i].id@, expected: entries[i].status });
            if i < rest.len() {
                assert(rest[i] == entries[i]);
                assert(!was_run(outcomes, rest[i].id@));
                let k = choose|k: int| 0 <= k < before.len() && before[k] == diff;
                assert(all[k] == diff);
            } else {
                assert(all[all.len() - 1] == diff);
            }
        }
    }
}

/// The verdict of a check is that of its first outcome.
pub proof fn law_verdicts_are_looked_up(outcomes: Seq<CheckOutcome>, id: Seq<char>, j: int)
    ensures
        (0 <= j < outcomes.len() && outcomes[j].id@ == id && forall|k: int|
            0 <= k < j ==> (#[trigger] outcomes[k]).id@ != id) ==> first_verdict(outcomes, id)
            == Some(outcomes[j].verdict),
        !was_run(outcomes, id) ==> first_verdict(outcomes, id) is None,
    decreases outcomes.len(),
{
    if outcomes.len() > 0 {
        let rest = outcomes.skip(1);
        law_verdicts_are_looked_up(rest, id, j - 1);
        if 0 < j < outcomes.len() && outcomes[j].id@ == id && (forall|k: int|
            0 <= k < j ==> (#[trigger] outcomes[k]).id@ != id) {
            assert(outcomes[0].id@ != id);
            assert(rest[j - 1] == outcomes[j]);
            assert forall|k: int| 0 <= k < j - 1 implies (#[trigger] rest[k]).id@ != id by {
                assert(rest[k] == outcomes[k + 1]);
            }
        }
        if !was_run(outcomes, id) {
            assert(outcomes[0].id@ != id);
            if was_run(rest, id) {
                let k = choose|k: int| 0 <= k < rest.len() && #[trigger] rest[k].id@ == id;
                assert(outcomes[k + 1].id@ == id);
            }
        }
    }
}

} // verus!
