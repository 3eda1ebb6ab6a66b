//! The names a run leaves behind never meet those of another.

use vstd::prelude::*;
use vstd::string::*;

use crate::checks::ctx;
use crate::text;

verus! {

proof fn lemma_digit(d: int)
    requires
        0 <= d < 10,
    ensures
        text::digit_char(d) != '-',
        forall|e: int| 0 <= e < 10 && text::digit_char(e) == text::digit_char(d) ==> e == d,
{
}

/// A number is written in digits alone.
proof fn lemma_digits_only(n: nat)
    ensures
        text::dec_nat(n).len() > 0,
        forall|i: int| 0 <= i < text::dec_nat(n).len() ==> #[trigger] text::dec_nat(n)[i] != '-',
    decreases n,
{
    if n < 10 {
        lemma_digit(n as int);
    } else {
        lemma_digits_only(n / 10);
        lemma_digit((n % 10) as int);
    }
}

/// Numbers that are written alike are the same.
pub proof fn lemma_dec_tells_apart(a: nat, b: nat)
    requires
        text::dec_nat(a) == text::dec_nat(b),
    ensures
        a == b,
    decreases a,
{
    lemma_digits_only(a / 10);
    lemma_digits_only(b / 10);
    lemma_digit((a % 10) as int);
    lemma_digit((b % 10) as int);
    if a < 10 {
        lemma_digit(a as int);
    }
    if b < 10 {
        lemma_digit(b as int);
    }
    let s = text::dec_nat(a);
    if a >= 10 && b >= 10 {
        assert(s.drop_last() =~= text::dec_nat(a / 10));
        assert(s.drop_last() =~= text::dec_nat(b / 10));
        lemma_dec_tells_apart(a / 10, b / 10);
        assert(s.last() == text::digit_char((a % 10) as int));
        assert(s.last() == text::digit_char((b % 10) as int));
    } else {
        assert(s.last() == text::digit_char((a % 10) as int));
        assert(s.last() == text::digit_char((b % 10) as int));
        assert(a < 10 ==> s.len() == 1);
        assert(b < 10 ==> s.len() == 1);
        assert(a >= 10 ==> s.len() > 1);
        assert(b >= 10 ==> s.len() > 1);
    }
}

/// What follows the last dash, and what stands before it.
proof fn lemma_last_dash(x: Seq<char>, m: nat, y: Seq<char>, n: nat)
    requires
        x + "-"@ + text::dec_nat(m) == y + "-"@ + text::dec_nat(n),
    ensures
        x == y,
        m == n,
{
    reveal_strlit("-");
    lemma_digits_only(m);
    lemma_digits_only(n);
    let a = text::dec_nat(m);
    let b = text::dec_nat(n);
    let s = x + "-"@ + a;
    let t = y + "-"@ + b;
    assert(s == t);
    assert(s[x.len() as int] == '-');
    assert(t[y.len() as int] == '-');
    assert(s.len() == t.len());
    if x.len() < y.len() {
        let k = y.len() - (x + "-"@).len();
        assert(0 <= k < a.len());
        assert(s[y.len() as int] == a[k]);
    } else if y.len() < x.len() {
        let k = x.len() - (y + "-"@).len();
        assert(0 <= k < b.len());
        assert(t[x.len() as int] == b[k]);
    }
    assert(x =~= s.take(x.len() as int));
    assert(y =~= t.take(y.len() as int));
    assert(a =~= s.skip(x.len() as int + 1));
    assert(b =~= t.skip(y.len() as int + 1));
    lemma_dec_tells_apart(m, n);
}

/// Two runs that differ in process or in starting time have different ids.
pub proof fn law_runs_have_their_own_ids(pid: u32, nanos: u128, pid2: u32, nanos2: u128)
    ensures
        ctx::dec_pair(pid, nanos) == ctx::dec_pair(pid2, nanos2) ==> pid == pid2 && nanos
            == nanos2,
{
    if ctx::dec_pair(pid, nanos) == ctx::dec_pair(pid2, nanos2) {
        let x = ""@ + text::dec_nat(pid as nat);
        let y = ""@ + text::dec_nat(pid2 as nat);
        lemma_last_dash(x, nanos as nat, y, nanos2 as nat);
        reveal_strlit("");
        assert(x =~= text::dec_nat(pid as nat));
        assert(y =~= text::dec_nat(pid2 as nat));
        lemma_dec_tells_apart(pid as nat, pid2 as nat);
    }
}

/// A topic's name gives away its tag, process and stamp: names never collide
/// across runs or checks, whatever dashes their tags hold.
pub proof fn law_topic_names_never_collide(
    tag: Seq<char>,
    pid: u32,
    nanos: u128,
    tag2: Seq<char>,
    pid2: u32,
    nanos2: u128,
)
    ensures
        ctx::spec_unique_topic(tag, pid, nanos) == ctx::spec_unique_topic(tag2, pid2, nanos2)
            ==> tag == tag2 && pid == pid2 && nanos == nanos2,
{
    let lead = "odradek-accept-"@;
    if ctx::spec_unique_topic(tag, pid, nanos) == ctx::spec_unique_topic(tag2, pid2, nanos2) {
        let x = lead + tag;
        let y = lead + tag2;
        lemma_last_dash(
            x + "-"@ + text::dec_nat(pid as nat),
            nanos as nat,
            y + "-"@ + text::dec_nat(pid2 as nat),
            nanos2 as nat,
        );
        lemma_last_dash(x, pid as nat, y, pid2 as nat);
        assert(tag =~= x.skip(lead.len() as int));
        assert(tag2 =~= y.skip(lead.len() as int));
    }
}

proof fn lemma_regroup(lead: Seq<char>, body: Seq<char>, m: Seq<char>, n: Seq<char>)
    ensures
        lead + (body + "-"@ + m + "-"@ + n) == (lead + body) + "-"@ + m + "-"@ + n,
{
    let dash = "-"@;
    assert(lead + (body + dash) =~= (lead + body) + dash);
    assert(lead + (body + dash + m) =~= (lead + (body + dash)) + m);
    assert(lead + (body + dash + m + dash) =~= (lead + (body + dash + m)) + dash);
    assert(lead + (body + dash + m + dash + n) =~= (lead + (body + dash + m + dash)) + n);
}

proof fn lemma_twice(lead: Seq<char>, mid: Seq<char>, tag: Seq<char>, tag2: Seq<char>)
    requires
        lead + tag + "-"@ + (mid + tag) == lead + tag2 + "-"@ + (mid + tag2),
    ensures
        tag == tag2,
{
    let x = lead + tag + "-"@ + (mid + tag);
    let y = lead + tag2 + "-"@ + (mid + tag2);
    assert(x == y);
    assert(x.len() == lead.len() + tag.len() + "-"@.len() + mid.len() + tag.len());
    assert(y.len() == lead.len() + tag2.len() + "-"@.len() + mid.len() + tag2.len());
    assert(tag.len() == tag2.len());
    let from = lead.len() as int;
    assert(x.subrange(from, from + tag.len()) =~= tag);
    assert(y.subrange(from, from + tag2.len()) =~= tag2);
}

/// Nor do transactional ids.
pub proof fn law_transactional_ids_never_collide(
    tag: Seq<char>,
    pid: u32,
    nanos: u128,
    tag2: Seq<char>,
    pid2: u32,
    nanos2: u128,
)
    ensures
        ctx::spec_unique_transactional_id(tag, pid, nanos) == ctx::spec_unique_transactional_id(
            tag2,
            pid2,
            nanos2,
        ) ==> tag == tag2 && pid == pid2 && nanos == nanos2,
{
    let lead = "odradek-txn-"@;
    let mid = "odradek-accept-"@;
    let s = ctx::spec_unique_transactional_id(tag, pid, nanos);
    let t = ctx::spec_unique_transactional_id(tag2, pid2, nanos2);
    if s == t {
        let x = lead + tag + "-"@ + (mid + tag);
        let y = lead + tag2 + "-"@ + (mid + tag2);
        let a = x + "-"@ + text::dec_nat(pid as nat);
        let b = y + "-"@ + text::dec_nat(pid2 as nat);
        lemma_regroup(
            lead + tag + "-"@,
            mid + tag,
            text::dec_nat(pid as nat),
            text::dec_nat(nanos as nat),
        );
        lemma_regroup(
            lead + tag2 + "-"@,
            mid + tag2,
            text::dec_nat(pid2 as nat),
            text::dec_nat(nanos2 as nat),
        );
        lemma_last_dash(a, nanos as nat, b, nanos2 as nat);
        lemma_last_dash(x, pid as nat, y, pid2 as nat);
        lemma_twice(lead, mid, tag, tag2);
    }
}

/// A check's group is its own in every run.
pub proof fn law_groups_differ_between_runs(
    ctx: ctx::ServerCtx,
    other: ctx::ServerCtx,
    tag: Seq<char>,
)
    ensures
        ctx.spec_check_group(tag) == other.spec_check_group(tag) ==> ctx.run_id@
            == other.run_id@,
{
    let lead = tag + "-odradek-acceptance-"@;
    if ctx.spec_check_group(tag) == other.spec_check_group(tag) {
        assert(ctx.run_id@ =~= ctx.spec_check_group(tag).skip(lead.len() as int));
        assert(other.run_id@ =~= other.spec_check_group(tag).skip(lead.len() as int));
    }
}

} // verus!
