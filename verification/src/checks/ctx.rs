//! What one server run knows from the start, and the versions and names the
//! checks derive from it.

use vstd::prelude::*;
use vstd::string::*;

use crate::checks::tape;
use crate::checks::tape::{stamp, Event, Flow, FlowView, Halt, HaltView};
use crate::text;
use crate::text::{hex_text, line};
use crate::wire::{ApiVersion, Schema, TopicId};
use crate::{Verdict, VerdictView};

verus! {

/// A span of time.
#[derive(Debug, Clone, Copy, PartialEq, Eq, Structural)]
pub struct Wait {
    pub nanos: u64,
}

impl Wait {
    pub open spec fn spec_millis(self) -> int {
        self.nanos as int / 1_000_000
    }
}

/// Limits for one server-side run.
///
/// The settle budget covers every wait on work a broker does after
/// acknowledging something; the recovery budget covers a cluster noticing
/// that a broker has gone. Every loop that uses one exits as soon as the
/// work lands.
#[derive(Debug, Clone, Copy)]
pub struct ProbeConfig {
    /// How long the flows tolerate retriable errors before calling them a
    /// failure.
    pub settle_budget: Wait,
    /// How long to wait between attempts within that budget.
    pub settle_delay: Wait,
    /// Whether there is a way to stop and start the subject's brokers.
    pub control: bool,
    /// How long to let a cluster notice a broker has gone.
    pub recovery_budget: Wait,
}

impl Default for ProbeConfig {
    fn default() -> (r: ProbeConfig)
        ensures
            r.settle_budget.nanos == 20_000_000_000,
            r.settle_delay.nanos == 100_000_000,
            !r.control,
            r.recovery_budget.nanos == 60_000_000_000,
    {
        ProbeConfig {
            settle_budget: Wait { nanos: 20_000_000_000 },
            settle_delay: Wait { nanos: 100_000_000 },
            control: false,
            recovery_budget: Wait { nanos: 60_000_000_000 },
        }
    }
}

/// How often `delay` goes into `budget`, in whole milliseconds; never less
/// than once, and a zero delay counts as one millisecond.
pub open spec fn spec_attempts(budget: Wait, delay: Wait) -> u32 {
    let step = if delay.spec_millis() < 1 { 1 } else { delay.spec_millis() };
    let times = budget.spec_millis() / step;
    if times < 1 {
        1
    } else if times > u32::MAX {
        u32::MAX
    } else {
        times as u32
    }
}

impl ProbeConfig {
    pub open spec fn spec_settle_attempts(self) -> u32 {
        spec_attempts(self.settle_budget, self.settle_delay)
    }

    pub open spec fn spec_recovery_attempts(self) -> u32 {
        spec_attempts(self.recovery_budget, self.settle_delay)
    }

    /// How many attempts the budget affords, `settle_delay` apart. Always at
    /// least one: a zero budget still gets a single try.
    pub fn settle_attempts(&self) -> (r: u32)
        ensures
            r == self.spec_settle_attempts(),
            r >= 1,
    {
        Self::attempts(self.settle_budget, self.settle_delay)
    }

    /// The same, over the recovery budget.
    pub fn recovery_attempts(&self) -> (r: u32)
        ensures
            r == self.spec_recovery_attempts(),
            r >= 1,
    {
        Self::attempts(self.recovery_budget, self.settle_delay)
    }

    /// How often `delay` goes into `budget`.
    pub fn attempts(budget: Wait, delay: Wait) -> (r: u32)
        ensures
            r == spec_attempts(budget, delay),
            r >= 1,
    {
        let whole: u64 = delay.nanos / 1_000_000;
        let step: u64 = if whole < 1 { 1 } else { whole };
        let budget_ms: u64 = budget.nanos / 1_000_000;
        let times: u64 = budget_ms / step;
        if times < 1 {
            1
        } else if times > 4_294_967_295 {
            4_294_967_295
        } else {
            times as u32
        }
    }
}

/// How the codes that the flows look for in a message are written.
#[derive(Debug)]
pub struct CodeNames {
    pub none: String,
    pub not_coordinator: String,
    pub offset_out_of_range: String,
    pub not_leader_or_follower: String,
    pub unknown_topic_or_partition: String,
    pub leader_not_available: String,
    pub unknown_topic_id: String,
    pub replica_not_available: String,
}

/// Discovery and shared state for one server run.
#[derive(Debug)]
pub struct ServerCtx {
    pub addr: String,
    /// `Err` when discovery could not run at all; an empty list when the
    /// exchange ran but yielded nothing usable.
    pub discovery: Result<Vec<ApiVersion>, String>,
    pub config: ProbeConfig,
    /// A second address with SASL configured, when one was supplied.
    pub sasl_addr: Option<String>,
    /// The versions the codec can speak.
    pub schema: Schema,
    pub names: CodeNames,
    /// The suite's process id.
    pub pid: u32,
    /// What distinguishes this run of the suite from every other.
    pub run_id: String,
}

/// The first range advertised for `api_key`.
pub open spec fn spec_advertised(keys: Seq<ApiVersion>, api_key: i16) -> Option<(i16, i16)>
    decreases keys.len(),
{
    if keys.len() == 0 {
        None
    } else if keys[0].api_key == api_key {
        Some((keys[0].min_version, keys[0].max_version))
    } else {
        spec_advertised(keys.skip(1), api_key)
    }
}

/// The first range advertised for `api_key`, if there is one.
pub fn advertised_range(keys: &Vec<ApiVersion>, api_key: i16) -> (r: Option<(i16, i16)>)
    ensures
        r == spec_advertised(keys@, api_key),
{
    let mut i: usize = 0;
    assert(keys@.skip(0) =~= keys@);
    while i < keys.len()
        invariant
            i <= keys@.len(),
            spec_advertised(keys@, api_key) == spec_advertised(keys@.skip(i as int), api_key),
        decreases keys@.len() - i,
    {
        let ghost rest = keys@.skip(i as int);
        assert(rest.skip(1) =~= keys@.skip(i + 1));
        assert(rest[0] == keys@[i as int]);
        if keys[i].api_key == api_key {
            return Some((keys[i].min_version, keys[i].max_version));
        }
        i = i + 1;
    }
    None
}

/// The newest version both sides speak, or why there is none.
pub open spec fn spec_negotiate(
    api: Seq<char>,
    advertised: Option<(i16, i16)>,
    check_min: i16,
    check_max: i16,
) -> Result<i16, VerdictView> {
    match advertised {
        None => Err(
            VerdictView::Skipped(
                "server does not advertise the "@ + api + " api (or discovery failed)"@,
            ),
        ),
        Some((min, max)) => {
            let version = if max <= check_max { max } else { check_max };
            if version < min || version < check_min {
                Err(
                    VerdictView::Skipped(
                        "no usable "@ + api + " version: server speaks "@ + text::dec(min as int) + "-"@
                            + text::dec(max as int) + ", check needs "@ + text::dec(check_min as int) + "-"@
                            + text::dec(check_max as int),
                    ),
                )
            } else {
                Ok(version)
            }
        },
    }
}

/// The verdict's characters, beside a value.
pub open spec fn judged<T>(r: Result<T, Verdict>) -> Result<T, VerdictView> {
    match r {
        Ok(value) => Ok(value),
        Err(verdict) => Err(verdict@),
    }
}

/// Picks the newest version of `api` both sides speak, bounded by what the
/// check itself can handle; a skip when there is none.
pub fn negotiate(
    api: &str,
    advertised: Option<(i16, i16)>,
    check_min: i16,
    check_max: i16,
) -> (r: Result<i16, Verdict>)
    ensures
        judged(r) == spec_negotiate(api@, advertised, check_min, check_max),
{
    match advertised {
        None => Err(
            Verdict::Skipped {
                reason: line("server does not advertise the ").lit(api).lit(
                    " api (or discovery failed)",
                ).done(),
            },
        ),
        Some((min, max)) => {
            let version: i16 = if max <= check_max { max } else { check_max };
            if version < min || version < check_min {
                return Err(
                    Verdict::Skipped {
                        reason: line("no usable ").lit(api).lit(" version: server speaks ").num(
                            min as i64,
                        ).lit("-").num(max as i64).lit(", check needs ").num(check_min as i64).lit(
                            "-",
                        ).num(check_max as i64).done(),
                    },
                );
            }
            Ok(version)
        },
    }
}

/// Every version from `low` to `high`, lowest first.
pub open spec fn version_run(low: i16, high: i16) -> Seq<i16> {
    Seq::new((high - low + 1) as nat, |i: int| (low + i) as i16)
}

pub open spec fn spec_negotiate_all(
    api: Seq<char>,
    advertised: Option<(i16, i16)>,
    check_min: i16,
    check_max: i16,
) -> Result<Seq<i16>, VerdictView> {
    match spec_negotiate(api, advertised, check_min, check_max) {
        Err(verdict) => Err(verdict),
        Ok(highest) => {
            let (min, _) = advertised->Some_0;
            Ok(version_run(if min >= check_min { min } else { check_min }, highest))
        },
    }
}

pub open spec fn judged_all(r: Result<Vec<i16>, Verdict>) -> Result<Seq<i16>, VerdictView> {
    match r {
        Ok(versions) => Ok(versions@),
        Err(verdict) => Err(verdict@),
    }
}

/// Every version a check and a subject both speak, lowest first. Skips carry
/// the same reason [`negotiate`] gives.
pub fn negotiate_all(
    api: &str,
    advertised: Option<(i16, i16)>,
    check_min: i16,
    check_max: i16,
) -> (r: Result<Vec<i16>, Verdict>)
    ensures
        judged_all(r) == spec_negotiate_all(api@, advertised, check_min, check_max),
{
    let highest: i16 = match negotiate(api, advertised, check_min, check_max) {
        Ok(v) => v,
        Err(verdict) => return Err(verdict),
    };
    let min: i16 = match advertised {
        Some((min, _)) => min,
        None => 0,
    };
    let lowest: i16 = if min >= check_min { min } else { check_min };
    let mut versions: Vec<i16> = Vec::new();
    let mut next: i32 = lowest as i32;
    while next <= highest as i32
        invariant
            lowest <= next <= highest + 1,
            versions@.len() == next - lowest,
            forall|i: int| 0 <= i < versions@.len() ==> versions@[i] == lowest + i,
        decreases highest + 1 - next,
    {
        versions.push(next as i16);
        next = next + 1;
    }
    assert(versions@ =~= version_run(lowest, highest));
    Ok(versions)
}

impl ServerCtx {
    pub open spec fn spec_range(self, api_key: i16) -> Result<Option<(i16, i16)>, VerdictView> {
        match self.discovery {
            Ok(keys) => Ok(spec_advertised(keys@, api_key)),
            Err(details) => Err(VerdictView::Error(details@)),
        }
    }

    /// The advertised range for `api_key`, or an error when discovery never
    /// ran.
    pub fn range(&self, api_key: i16) -> (r: Result<Option<(i16, i16)>, Verdict>)
        ensures
            judged(r) == self.spec_range(api_key),
    {
        match &self.discovery {
            Ok(keys) => Ok(advertised_range(keys, api_key)),
            Err(details) => Err(Verdict::Error { details: details.clone() }),
        }
    }

    pub open spec fn spec_pick(
        self,
        api: Seq<char>,
        api_key: i16,
        min: i16,
        max: i16,
    ) -> Result<i16, VerdictView> {
        match self.spec_range(api_key) {
            Err(verdict) => Err(verdict),
            Ok(range) => spec_negotiate(api, range, min, max),
        }
    }

    /// The version of an api to use, or the verdict that says why there is
    /// none.
    pub fn pick(&self, api: &str, api_key: i16, min: i16, max: i16) -> (r: Result<i16, Verdict>)
        ensures
            judged(r) == self.spec_pick(api@, api_key, min, max),
    {
        match self.range(api_key) {
            Err(verdict) => Err(verdict),
            Ok(range) => negotiate(api, range, min, max),
        }
    }

    pub open spec fn spec_pick_all(
        self,
        api: Seq<char>,
        api_key: i16,
        min: i16,
        max: i16,
    ) -> Result<Seq<i16>, VerdictView> {
        match self.spec_range(api_key) {
            Err(verdict) => Err(verdict),
            Ok(range) => spec_negotiate_all(api, range, min, max),
        }
    }

    pub open spec fn spec_version(
        self,
        at: int,
        api: Seq<char>,
        api_key: i16,
        min: i16,
        max: i16,
    ) -> Result<i16, HaltView> {
        match self.spec_pick(api, api_key, min, max) {
            Ok(version) => Ok(version),
            Err(verdict) => Err(HaltView::Stop(verdict, at)),
        }
    }

    /// The version of an api to use; a halt with the verdict where there is
    /// none.
    pub fn version(&self, at: usize, api: &str, api_key: i16, min: i16, max: i16) -> (r: Result<
        i16,
        Halt,
    >)
        ensures
            tape::held(r) == self.spec_version(at as int, api@, api_key, min, max),
    {
        match self.pick(api, api_key, min, max) {
            Ok(version) => Ok(version),
            Err(verdict) => Err(Halt::Stop(verdict, at)),
        }
    }

    pub open spec fn spec_versions(
        self,
        at: int,
        api: Seq<char>,
        api_key: i16,
        min: i16,
        max: i16,
    ) -> Result<Seq<i16>, HaltView> {
        match self.spec_pick_all(api, api_key, min, max) {
            Ok(versions) => Ok(versions),
            Err(verdict) => Err(HaltView::Stop(verdict, at)),
        }
    }

    /// Every version of an api to use, lowest first; a halt with the verdict
    /// where there is none.
    pub fn versions(&self, at: usize, api: &str, api_key: i16, min: i16, max: i16) -> (r: Result<
        Vec<i16>,
        Halt,
    >)
        ensures
            (match r {
                Ok(versions) => Ok::<Seq<i16>, HaltView>(versions@),
                Err(halt) => Err::<Seq<i16>, HaltView>(halt@),
            }) == self.spec_versions(at as int, api@, api_key, min, max),
    {
        match self.versions_of(api_key, api, min, max) {
            Ok(versions) => Ok(versions),
            Err(verdict) => Err(Halt::Stop(verdict, at)),
        }
    }

    /// The versions of `api_key` that both the subject advertises and a
    /// sweep can send.
    pub fn versions_of(&self, api_key: i16, api: &str, min: i16, max: i16) -> (r: Result<
        Vec<i16>,
        Verdict,
    >)
        ensures
            judged_all(r) == self.spec_pick_all(api@, api_key, min, max),
    {
        match self.range(api_key) {
            Err(verdict) => Err(verdict),
            Ok(range) => negotiate_all(api, range, min, max),
        }
    }

    /// A name for a group, fresh in every run of the suite.
    pub open spec fn spec_check_group(self, tag: Seq<char>) -> Seq<char> {
        tag + "-odradek-acceptance-"@ + self.run_id@
    }

    /// A group this suite commits under, stamped so that a rerun against a
    /// live cluster never meets its own leavings.
    pub fn check_group(&self, tag: &str) -> (r: String)
        ensures
            r@ == self.spec_check_group(tag@),
    {
        line(tag).lit("-odradek-acceptance-").lit(self.run_id.as_str()).done()
    }

    pub open spec fn spec_member_id(self, tag: Seq<char>) -> Seq<char> {
        "odradek-acceptance-"@ + tag + "-"@ + text::dec(self.pid as int)
    }

    /// The name a consumer-group member gives itself.
    pub fn mint_member_id(&self, tag: &str) -> (r: String)
        ensures
            r@ == self.spec_member_id(tag@),
    {
        line("odradek-acceptance-").lit(tag).lit("-").count(self.pid as u128).done()
    }
}

/// What distinguishes one process from every other run of the suite.
pub fn run_id(pid: u32, nanos: u128) -> (r: String)
    ensures
        r@ == dec_pair(pid, nanos),
{
    line("").count(pid as u128).lit("-").count(nanos).done()
}

pub open spec fn dec_pair(pid: u32, nanos: u128) -> Seq<char> {
    ""@ + text::dec(pid as int) + "-"@ + text::dec(nanos as int)
}

pub open spec fn spec_unique_topic(tag: Seq<char>, pid: u32, nanos: u128) -> Seq<char> {
    "odradek-accept-"@ + tag + "-"@ + text::dec(pid as int) + "-"@ + text::dec(nanos as int)
}

/// A topic name unique enough to never collide across runs or checks.
pub fn unique_topic(tag: &str, pid: u32, nanos: u128) -> (r: String)
    ensures
        r@ == spec_unique_topic(tag@, pid, nanos),
{
    line("odradek-accept-").lit(tag).lit("-").count(pid as u128).lit("-").count(nanos).done()
}

pub open spec fn spec_unique_transactional_id(tag: Seq<char>, pid: u32, nanos: u128) -> Seq<char> {
    "odradek-txn-"@ + tag + "-"@ + spec_unique_topic(tag, pid, nanos)
}

/// A transactional id nothing else will use.
pub fn unique_transactional_id(tag: &str, pid: u32, nanos: u128) -> (r: String)
    ensures
        r@ == spec_unique_transactional_id(tag@, pid, nanos),
{
    let topic = unique_topic(tag, pid, nanos);
    line("odradek-txn-").lit(tag).lit("-").lit(topic.as_str()).done()
}

/// A fresh topic name, stamped with the clock.
pub open spec fn spec_fresh_topic(ctx: ServerCtx, tape: Seq<Event>, at: int, tag: Seq<char>)
    -> FlowView<Seq<char>> {
    match tape::spec_stamp(tape, at) {
        Err(halt) => Err(halt),
        Ok((nanos, at)) => Ok((spec_unique_topic(tag, ctx.pid, nanos), at)),
    }
}

pub fn fresh_topic(ctx: &ServerCtx, tape: &Vec<Event>, at: usize, tag: &str) -> (r: Flow<String>)
    ensures
        tape::ran(r) == spec_fresh_topic(*ctx, tape@, at as int, tag@),
{
    let (nanos, at) = stamp(tape, at)?;
    Ok((unique_topic(tag, ctx.pid, nanos), at))
}

/// A fresh transactional id, stamped with the clock.
pub open spec fn spec_fresh_txn_id(ctx: ServerCtx, tape: Seq<Event>, at: int, tag: Seq<char>)
    -> FlowView<Seq<char>> {
    match tape::spec_stamp(tape, at) {
        Err(halt) => Err(halt),
        Ok((nanos, at)) => Ok((spec_unique_transactional_id(tag, ctx.pid, nanos), at)),
    }
}

pub fn fresh_txn_id(ctx: &ServerCtx, tape: &Vec<Event>, at: usize, tag: &str) -> (r: Flow<String>)
    ensures
        tape::ran(r) == spec_fresh_txn_id(*ctx, tape@, at as int, tag@),
{
    let (nanos, at) = stamp(tape, at)?;
    Ok((unique_transactional_id(tag, ctx.pid, nanos), at))
}

/// The verdict with the version it was reached at in front.
pub open spec fn spec_at_version(verdict: VerdictView, version: i16) -> VerdictView {
    match verdict {
        VerdictView::Fail(details) => VerdictView::Fail(
            "v"@ + text::dec(version as int) + ": "@ + details,
        ),
        VerdictView::Error(details) => VerdictView::Error(
            "v"@ + text::dec(version as int) + ": "@ + details,
        ),
        other => other,
    }
}

impl Verdict {
    /// Names the version a swept check was on when it failed.
    pub fn at_version(self, version: i16) -> (r: Verdict)
        ensures
            r@ == spec_at_version(self@, version),
    {
        match self {
            Verdict::Fail { details } => Verdict::Fail {
                details: line("v").num(version as i64).lit(": ").lit(details.as_str()).done(),
            },
            Verdict::Error { details } => Verdict::Error {
                details: line("v").num(version as i64).lit(": ").lit(details.as_str()).done(),
            },
            other => other,
        }
    }
}

/// A halt with the version in front of what it says.
pub open spec fn spec_halt_at_version(halt: HaltView, version: i16) -> HaltView {
    match halt {
        HaltView::Ask(action) => HaltView::Ask(action),
        HaltView::Stop(verdict, at) => HaltView::Stop(spec_at_version(verdict, version), at),
        HaltView::Broke(error, at) => HaltView::Stop(
            spec_at_version(error.spec_verdict(), version),
            at,
        ),
    }
}

pub fn halt_at_version(halt: Halt, version: i16) -> (r: Halt)
    ensures
        r@ == spec_halt_at_version(halt@, version),
{
    match halt {
        Halt::Ask(action) => Halt::Ask(action),
        Halt::Stop(verdict, at) => Halt::Stop(verdict.at_version(version), at),
        Halt::Broke(error, at) => Halt::Stop(error.into_verdict().at_version(version), at),
    }
}

/// A correlation id: the base, plus the attempt where that is a number a
/// correlation id can count to.
pub open spec fn spec_correlation(base: i32, attempt: int) -> i32 {
    if attempt <= i32::MAX {
        base.wrapping_add(attempt as i32)
    } else {
        base
    }
}

/// The correlation id of the `i`th of several requests.
pub fn nth_correlation(base: i32, i: usize) -> (r: i32)
    ensures
        r == spec_correlation(base, i as int),
{
    if i <= 0x7fff_ffff {
        base.wrapping_add(i as i32)
    } else {
        base
    }
}

pub fn correlation(base: i32, attempt: u32) -> (r: i32)
    ensures
        r == spec_correlation(base, attempt as int),
{
    if attempt <= 2_147_483_647 {
        base.wrapping_add(attempt as i32)
    } else {
        base
    }
}

pub open spec fn spec_span(versions: Seq<i16>) -> Seq<char> {
    if versions.len() == 0 {
        "none"@
    } else if versions.first() != versions.last() {
        "v"@ + text::dec(versions.first() as int) + "-"@ + text::dec(versions.last() as int)
    } else {
        "v"@ + text::dec(versions.first() as int)
    }
}

/// `v0-12`, or `v7` when there is only one.
pub fn span(versions: &Vec<i16>) -> (r: String)
    ensures
        r@ == spec_span(versions@),
{
    let n: usize = versions.len();
    if n == 0 {
        String::from_str("none")
    } else if versions[0] != versions[n - 1] {
        line("v").num(versions[0] as i64).lit("-").num(versions[n - 1] as i64).done()
    } else {
        line("v").num(versions[0] as i64).done()
    }
}

/// A topic id as hex, for a message a human has to compare two of.
pub fn hex16(id: &TopicId) -> (r: String)
    ensures
        r@ == text::hex(id@),
{
    hex_text(id.as_slice())
}

/// Where a version is settled on, both sides speak it, and no higher one is
/// spoken by both; where none is, no version is spoken by both.
pub proof fn law_negotiation_settles_on_the_highest(
    api: Seq<char>,
    min: i16,
    max: i16,
    check_min: i16,
    check_max: i16,
    other: i16,
)
    ensures
        match spec_negotiate(api, Some((min, max)), check_min, check_max) {
            Ok(version) => {
                &&& min <= version <= max
                &&& check_min <= version <= check_max
                &&& min <= other <= max && check_min <= other <= check_max ==> other <= version
            },
            Err(verdict) => {
                &&& verdict is Skipped
                &&& !(min <= other <= max && check_min <= other <= check_max)
            },
        },
{
}

/// A sweep goes over the versions that both sides speak, each once, lowest
/// first.
pub proof fn law_sweep_covers_the_common_versions(
    api: Seq<char>,
    min: i16,
    max: i16,
    check_min: i16,
    check_max: i16,
    version: i16,
)
    ensures
        match spec_negotiate_all(api, Some((min, max)), check_min, check_max) {
            Ok(versions) => {
                &&& versions.contains(version) <==> (min <= version <= max && check_min <= version
                    <= check_max)
                &&& forall|i: int, j: int|
                    0 <= i < j < versions.len() ==> versions[i] < versions[j]
            },
            Err(_) => !(min <= version <= max && check_min <= version <= check_max),
        },
{
    let low = if min >= check_min {
        min
    } else {
        check_min
    };
    match spec_negotiate_all(api, Some((min, max)), check_min, check_max) {
        Ok(versions) => {
            if min <= version <= max && check_min <= version <= check_max {
                assert(versions[version - low] == version);
            }
        },
        Err(_) => {},
    }
}

/// How many attempts a budget affords: at least one, and otherwise as many as
/// fit into it, a delay apart and never less than a millisecond.
pub proof fn law_attempts_fill_the_budget(budget: Wait, delay: Wait)
    ensures
        ({
            let n = spec_attempts(budget, delay);
            let step: int = if delay.nanos < 1_000_000 {
                1
            } else {
                delay.nanos as int / 1_000_000
            };
            let whole: int = budget.nanos as int / 1_000_000;
            &&& n >= 1
            &&& n > 1 ==> n * step <= whole
            &&& n < u32::MAX ==> whole < (n + 1) * step
        }),
{
    let step: int = if delay.nanos < 1_000_000 {
        1
    } else {
        delay.nanos as int / 1_000_000
    };
    let whole: int = budget.nanos as int / 1_000_000;
    let times = whole / step;
    assert(step >= 1);
    assert(times * step <= whole < (times + 1) * step) by (nonlinear_arith)
        requires
            times == whole / step,
            step >= 1,
    ;
    let n = spec_attempts(budget, delay);
    if times < 1 {
        assert((n + 1) * step >= (times + 1) * step) by (nonlinear_arith)
            requires
                n + 1 >= times + 1,
                step >= 1,
        ;
    } else if times > u32::MAX {
        assert(n * step <= times * step) by (nonlinear_arith)
            requires
                n <= times,
                step >= 1,
        ;
    }
}

} // verus!
