//! What the command line asks for, and what a run's outcome says to it.

use vstd::prelude::*;
use vstd::string::*;

use crate::checks;
use crate::checks::catalog;
use crate::checks::client::HarnessFault;
use crate::report;
use crate::report::{Baseline, Report};
use crate::text;
use crate::text::{line, same_text};
use crate::wire;
use crate::SubjectRole;

verus! {

/// What the command line asks for.
#[derive(Debug)]
pub struct Args {
    pub server: Option<String>,
    pub sasl_server: Option<String>,
    pub cluster_control: Option<String>,
    pub authenticate: Option<String>,
    pub tls_ca: Option<String>,
    pub tls_name: Option<String>,
    pub client_listen: Option<String>,
    pub list: bool,
    pub fault: Option<HarnessFault>,
    pub json: bool,
    pub baseline: Option<String>,
    pub write_baseline: Option<String>,
}

#[verifier::ext_equal]
pub struct ArgsView {
    pub server: Option<Seq<char>>,
    pub sasl_server: Option<Seq<char>>,
    pub cluster_control: Option<Seq<char>>,
    pub authenticate: Option<Seq<char>>,
    pub tls_ca: Option<Seq<char>>,
    pub tls_name: Option<Seq<char>>,
    pub client_listen: Option<Seq<char>>,
    pub list: bool,
    pub fault: Option<HarnessFault>,
    pub json: bool,
    pub baseline: Option<Seq<char>>,
    pub write_baseline: Option<Seq<char>>,
}

impl View for Args {
    type V = ArgsView;

    open spec fn view(&self) -> ArgsView {
        ArgsView {
            server: wire::opt_view(self.server),
            sasl_server: wire::opt_view(self.sasl_server),
            cluster_control: wire::opt_view(self.cluster_control),
            authenticate: wire::opt_view(self.authenticate),
            tls_ca: wire::opt_view(self.tls_ca),
            tls_name: wire::opt_view(self.tls_name),
            client_listen: wire::opt_view(self.client_listen),
            list: self.list,
            fault: self.fault,
            json: self.json,
            baseline: wire::opt_view(self.baseline),
            write_baseline: wire::opt_view(self.write_baseline),
        }
    }
}

/// A command line that asks for nothing.
pub open spec fn no_args() -> ArgsView {
    ArgsView {
        server: None,
        sasl_server: None,
        cluster_control: None,
        authenticate: None,
        tls_ca: None,
        tls_name: None,
        client_listen: None,
        list: false,
        fault: None,
        json: false,
        baseline: None,
        write_baseline: None,
    }
}

/// A flag that takes a text.
#[derive(Debug, Clone, Copy, PartialEq, Eq, Structural)]
pub enum TextFlag {
    Server,
    SaslServer,
    ClusterControl,
    Authenticate,
    TlsCa,
    TlsName,
    ClientListen,
    Baseline,
    WriteBaseline,
}

/// What one word of the command line is.
#[derive(Debug, Clone, Copy, PartialEq, Eq, Structural)]
pub enum Flag {
    Text(TextFlag),
    Fault,
    List,
    Json,
}

/// The flag that a word is.
pub open spec fn spec_flag(word: Seq<char>) -> Option<Flag> {
    if word == "--server"@ {
        Some(Flag::Text(TextFlag::Server))
    } else if word == "--sasl-server"@ {
        Some(Flag::Text(TextFlag::SaslServer))
    } else if word == "--cluster-control"@ {
        Some(Flag::Text(TextFlag::ClusterControl))
    } else if word == "--authenticate"@ {
        Some(Flag::Text(TextFlag::Authenticate))
    } else if word == "--tls-ca"@ {
        Some(Flag::Text(TextFlag::TlsCa))
    } else if word == "--tls-name"@ {
        Some(Flag::Text(TextFlag::TlsName))
    } else if word == "--client-listen"@ {
        Some(Flag::Text(TextFlag::ClientListen))
    } else if word == "--list"@ {
        Some(Flag::List)
    } else if word == "--fault"@ {
        Some(Flag::Fault)
    } else if word == "--json"@ {
        Some(Flag::Json)
    } else if word == "--baseline"@ {
        Some(Flag::Text(TextFlag::Baseline))
    } else if word == "--write-baseline"@ {
        Some(Flag::Text(TextFlag::WriteBaseline))
    } else {
        None
    }
}

fn flag_of(word: &str) -> (r: Option<Flag>)
    ensures
        r == spec_flag(word@),
{
    if same_text(word, "--server") {
        Some(Flag::Text(TextFlag::Server))
    } else if same_text(word, "--sasl-server") {
        Some(Flag::Text(TextFlag::SaslServer))
    } else if same_text(word, "--cluster-control") {
        Some(Flag::Text(TextFlag::ClusterControl))
    } else if same_text(word, "--authenticate") {
        Some(Flag::Text(TextFlag::Authenticate))
    } else if same_text(word, "--tls-ca") {
        Some(Flag::Text(TextFlag::TlsCa))
    } else if same_text(word, "--tls-name") {
        Some(Flag::Text(TextFlag::TlsName))
    } else if same_text(word, "--client-listen") {
        Some(Flag::Text(TextFlag::ClientListen))
    } else if same_text(word, "--list") {
        Some(Flag::List)
    } else if same_text(word, "--fault") {
        Some(Flag::Fault)
    } else if same_text(word, "--json") {
        Some(Flag::Json)
    } else if same_text(word, "--baseline") {
        Some(Flag::Text(TextFlag::Baseline))
    } else if same_text(word, "--write-baseline") {
        Some(Flag::Text(TextFlag::WriteBaseline))
    } else {
        None
    }
}

/// The fault that a name stands for.
pub open spec fn spec_fault(name: Seq<char>) -> Option<HarnessFault> {
    if name == "leader-move"@ {
        Some(HarnessFault::LeaderMove)
    } else if name == "throttle"@ {
        Some(HarnessFault::Throttle)
    } else if name == "unknown-tagged-field"@ {
        Some(HarnessFault::UnknownTaggedField)
    } else if name == "reject-sasl-token"@ {
        Some(HarnessFault::RejectSaslToken)
    } else {
        None
    }
}

fn fault_named(name: &str) -> (r: Option<HarnessFault>)
    ensures
        r == spec_fault(name@),
{
    if same_text(name, "leader-move") {
        Some(HarnessFault::LeaderMove)
    } else if same_text(name, "throttle") {
        Some(HarnessFault::Throttle)
    } else if same_text(name, "unknown-tagged-field") {
        Some(HarnessFault::UnknownTaggedField)
    } else if same_text(name, "reject-sasl-token") {
        Some(HarnessFault::RejectSaslToken)
    } else {
        None
    }
}

/// What is asked for once a text flag was read.
pub open spec fn with_text(args: ArgsView, flag: TextFlag, value: Seq<char>) -> ArgsView {
    match flag {
        TextFlag::Server => ArgsView { server: Some(value), ..args },
        TextFlag::SaslServer => ArgsView { sasl_server: Some(value), ..args },
        TextFlag::ClusterControl => ArgsView { cluster_control: Some(value), ..args },
        TextFlag::Authenticate => ArgsView { authenticate: Some(value), ..args },
        TextFlag::TlsCa => ArgsView { tls_ca: Some(value), ..args },
        TextFlag::TlsName => ArgsView { tls_name: Some(value), ..args },
        TextFlag::ClientListen => ArgsView { client_listen: Some(value), ..args },
        TextFlag::Baseline => ArgsView { baseline: Some(value), ..args },
        TextFlag::WriteBaseline => ArgsView { write_baseline: Some(value), ..args },
    }
}

/// What the words from the `i`th on make of what was asked for so far: none
/// where one is no flag, lacks its value, or names no fault.
pub open spec fn read_from(words: Seq<Seq<char>>, i: int, args: ArgsView) -> Option<ArgsView>
    decreases words.len() - i,
{
    if !(0 <= i < words.len()) {
        Some(args)
    } else {
        match spec_flag(words[i]) {
            None => None,
            Some(Flag::List) => read_from(words, i + 1, ArgsView { list: true, ..args }),
            Some(Flag::Json) => read_from(words, i + 1, ArgsView { json: true, ..args }),
            Some(Flag::Fault) => if i + 1 < words.len() {
                match spec_fault(words[i + 1]) {
                    Some(fault) => read_from(words, i + 2, ArgsView { fault: Some(fault), ..args }),
                    None => None,
                }
            } else {
                None
            },
            Some(Flag::Text(flag)) => if i + 1 < words.len() {
                read_from(words, i + 2, with_text(args, flag, words[i + 1]))
            } else {
                None
            },
        }
    }
}

/// Whether what is asked for makes sense: a list of the checks stands alone;
/// otherwise there is exactly one subject, and a fault needs a client to cope
/// with it.
pub open spec fn is_sensible(args: ArgsView) -> bool {
    if args.list {
        args == (ArgsView { list: true, ..no_args() })
    } else {
        &&& args.server is Some != args.client_listen is Some
        &&& args.fault is Some ==> args.client_listen is Some
    }
}

/// What a command line asks for, if it makes sense.
pub open spec fn spec_parse_args(words: Seq<Seq<char>>) -> Option<ArgsView> {
    match read_from(words, 0, no_args()) {
        Some(args) => if is_sensible(args) {
            Some(args)
        } else {
            None
        },
        None => None,
    }
}

fn put(args: &mut Args, flag: TextFlag, value: &String)
    ensures
        final(args)@ == with_text(old(args)@, flag, value@),
{
    match flag {
        TextFlag::Server => {
            args.server = Some(value.clone());
        },
        TextFlag::SaslServer => {
            args.sasl_server = Some(value.clone());
        },
        TextFlag::ClusterControl => {
            args.cluster_control = Some(value.clone());
        },
        TextFlag::Authenticate => {
            args.authenticate = Some(value.clone());
        },
        TextFlag::TlsCa => {
            args.tls_ca = Some(value.clone());
        },
        TextFlag::TlsName => {
            args.tls_name = Some(value.clone());
        },
        TextFlag::ClientListen => {
            args.client_listen = Some(value.clone());
        },
        TextFlag::Baseline => {
            args.baseline = Some(value.clone());
        },
        TextFlag::WriteBaseline => {
            args.write_baseline = Some(value.clone());
        },
    }
}

fn sensible(args: &Args) -> (r: bool)
    ensures
        r == is_sensible(args@),
{
    if args.list {
        let alone = args.server.is_none() && args.sasl_server.is_none()
            && args.cluster_control.is_none() && args.authenticate.is_none()
            && args.tls_ca.is_none() && args.tls_name.is_none() && args.client_listen.is_none()
            && args.fault.is_none() && !args.json && args.baseline.is_none()
            && args.write_baseline.is_none();
        assert(alone == (args@ =~= (ArgsView { list: true, ..no_args() })));
        alone
    } else {
        args.server.is_some() != args.client_listen.is_some() && (args.fault.is_none()
            || args.client_listen.is_some())
    }
}

/// Reads the command line, its own name left out.
pub fn parse_args(words: &Vec<String>) -> (r: Option<Args>)
    ensures
        (match r {
            Some(args) => Some(args@),
            None => None,
        }) == spec_parse_args(text::views(words@)),
{
    let ghost all = text::views(words@);
    let mut args = Args {
        server: None,
        sasl_server: None,
        cluster_control: None,
        authenticate: None,
        tls_ca: None,
        tls_name: None,
        client_listen: None,
        list: false,
        fault: None,
        json: false,
        baseline: None,
        write_baseline: None,
    };
    let mut i: usize = 0;
    while i < words.len()
        invariant
            i <= words@.len(),
            all == text::views(words@),
            read_from(all, 0, no_args()) == read_from(all, i as int, args@),
        decreases words@.len() - i,
    {
        assert(all[i as int] == words@[i as int]@);
        match flag_of(words[i].as_str()) {
            None => return None,
            Some(Flag::List) => {
                args.list = true;
                i = i + 1;
            },
            Some(Flag::Json) => {
                args.json = true;
                i = i + 1;
            },
            Some(Flag::Fault) => {
                if words.len() - i < 2 {
                    return None;
                }
                assert(all[i + 1] == words@[i + 1]@);
                match fault_named(words[i + 1].as_str()) {
                    Some(fault) => {
                        args.fault = Some(fault);
                    },
                    None => return None,
                }
                i = i + 2;
            },
            Some(Flag::Text(flag)) => {
                if words.len() - i < 2 {
                    return None;
                }
                assert(all[i + 1] == words@[i + 1]@);
                put(&mut args, flag, &words[i + 1]);
                i = i + 2;
            },
        }
    }
    if sensible(&args) {
        Some(args)
    } else {
        None
    }
}

/// Where a login's password begins: after its first colon, from the `i`th
/// character on.
pub open spec fn first_colon(login: Seq<char>, i: int) -> Option<int>
    decreases login.len() - i,
{
    if !(0 <= i < login.len()) {
        None
    } else if login[i] == ':' {
        Some(i)
    } else {
        first_colon(login, i + 1)
    }
}

/// Splits a login at its first colon: a password may hold one, a user name
/// may not.
pub fn split_login(login: &str) -> (r: Option<(String, String)>)
    ensures
        match (r, first_colon(login@, 0)) {
            (Some((user, password)), Some(k)) => user@ == login@.take(k) && password@
                == login@.skip(k + 1),
            (None, None) => true,
            _ => false,
        },
{
    let len: usize = login.unicode_len();
    let mut i: usize = 0;
    while i < len
        invariant
            i <= len,
            len == login@.len(),
            first_colon(login@, 0) == first_colon(login@, i as int),
        decreases len - i,
    {
        if login.get_char(i) == ':' {
            let user = String::from_str(login.substring_char(0, i));
            let password = String::from_str(login.substring_char(i + 1, len));
            assert(user@ =~= login@.take(i as int));
            assert(password@ =~= login@.skip(i + 1));
            return Some((user, password));
        }
        i = i + 1;
    }
    None
}

/// The two lines that stand for a check in the list of all.
pub open spec fn check_lines(runner: checks::Runner) -> Seq<Seq<char>> {
    let role = match runner.spec_role() {
        SubjectRole::Server => "server"@,
        SubjectRole::Client => "client"@,
    };
    seq!["["@ + role + "] "@ + runner.spec_id(), "    "@ + runner.spec_requirement()]
}

/// The lines that list some checks.
pub open spec fn listing(runners: Seq<checks::Runner>) -> Seq<Seq<char>>
    decreases runners.len(),
{
    if runners.len() == 0 {
        Seq::empty()
    } else {
        listing(runners.drop_last()) + check_lines(runners.last())
    }
}

/// Every catalogued check: its role and id, and its requirement below.
pub fn list_checks() -> (r: Vec<String>)
    ensures
        text::views(r@) == listing(checks::spec_runners()),
{
    let all = catalog();
    let ghost runners = checks::spec_runners();
    let mut lines: Vec<String> = Vec::new();
    let mut i: usize = 0;
    assert(text::views(lines@) =~= listing(runners.take(0)));
    while i < all.len()
        invariant
            i <= all@.len(),
            runners == checks::spec_runners(),
            all@.len() == runners.len(),
            forall|j: int|
                0 <= j < all@.len() ==> (#[trigger] all@[j]).wf() && all@[j].runner == runners[j],
            text::views(lines@) == listing(runners.take(i as int)),
        decreases all@.len() - i,
    {
        assert(runners.take(i + 1).drop_last() =~= runners.take(i as int));
        let check = all[i];
        assert(check.wf() && check.runner == runners[i as int]);
        let ghost before = text::views(lines@);
        let first = line("[").lit(check.role().text()).lit("] ").lit(check.id).done();
        let second = line("    ").lit(check.requirement).done();
        let ghost pair = seq![first@, second@];
        lines.push(first);
        lines.push(second);
        assert(text::views(lines@) =~= before + pair);
        assert(pair =~= check_lines(runners[i as int]));
        i = i + 1;
    }
    assert(runners.take(i as int) =~= runners);
    lines
}

/// How a run ends: whether it succeeded, and what is said about it.
#[derive(Debug)]
pub struct Ending {
    pub success: bool,
    pub lines: Vec<String>,
}

/// A baseline as it was read, or why it could not be.
pub type ReadBaseline = Result<Baseline, String>;

/// The lines of a divergence.
pub open spec fn diff_lines(diffs: Seq<report::BaselineDiffOf<Seq<char>>>) -> Seq<Seq<char>> {
    diffs.map_values(|d: report::BaselineDiffOf<Seq<char>>| "  "@ + report::spec_diff_text(d))
}

/// How a run ends that is held against a baseline.
pub open spec fn held_against(report: Report, path: Seq<char>, baseline: ReadBaseline) -> (
    bool,
    Seq<Seq<char>>,
) {
    match baseline {
        Err(why) => (false, seq!["cannot read baseline "@ + path + ": "@ + why@]),
        Ok(baseline) => {
            let diffs = report::spec_diffs(report, baseline);
            if diffs.len() == 0 {
                (true, seq!["run matches baseline "@ + path])
            } else {
                (
                    false,
                    seq!["run diverges from baseline "@ + path + ":"@] + diff_lines(diffs),
                )
            }
        },
    }
}

/// How a run ends that is held against nothing: a check that could not run
/// proves neither conformance nor the lack of it.
pub open spec fn on_its_own(report: Report) -> (bool, Seq<Seq<char>>) {
    let errored = report::tally(report.outcomes@, report::BaselineStatus::Error);
    if errored > 0 {
        (
            false,
            seq![
                text::dec(errored as int)
                    + " check(s) could not run (infrastructure) — the run proves neither conformance nor nonconformance"@,
            ],
        )
    } else {
        (report::conformant(report), Seq::empty())
    }
}

/// How a run ends without a baseline.
pub fn judge_alone(report: &Report) -> (r: Ending)
    ensures
        (r.success, text::views(r.lines@)) == on_its_own(*report),
{
    let errored: usize = report.errored();
    let mut lines: Vec<String> = Vec::new();
    if errored > 0 {
        let said = line("").count(errored as u128).lit(
            " check(s) could not run (infrastructure) — the run proves neither conformance nor nonconformance",
        ).done();
        lines.push(said);
        proof {
            reveal_strlit("");
            assert(text::views(lines@) =~= on_its_own(*report).1);
        }
        return Ending { success: false, lines };
    }
    assert(text::views(lines@) =~= Seq::empty());
    Ending { success: report.is_conformant(), lines }
}

/// How a run ends with a baseline.
pub fn judge_against(report: &Report, path: &str, baseline: &ReadBaseline) -> (r: Ending)
    requires
        baseline matches Ok(b) ==> b.wf(),
    ensures
        (r.success, text::views(r.lines@)) == held_against(*report, path@, *baseline),
{
    let mut lines: Vec<String> = Vec::new();
    match baseline {
        Err(why) => {
            lines.push(line("cannot read baseline ").lit(path).lit(": ").lit(why.as_str()).done());
            assert(text::views(lines@) =~= held_against(*report, path@, *baseline).1);
            Ending { success: false, lines }
        },
        Ok(baseline) => {
            let diffs = report.diff_against(baseline);
            if diffs.len() == 0 {
                lines.push(line("run matches baseline ").lit(path).done());
                assert(text::views(lines@) =~= seq!["run matches baseline "@ + path@]);
                return Ending { success: true, lines };
            }
            lines.push(line("run diverges from baseline ").lit(path).lit(":").done());
            let ghost head = seq!["run diverges from baseline "@ + path@ + ":"@];
            let ghost all = report::diff_views(diffs@);
            let mut i: usize = 0;
            assert(text::views(lines@) =~= head + diff_lines(all.take(0)));
            while i < diffs.len()
                invariant
                    i <= diffs@.len(),
                    all == report::diff_views(diffs@),
                    text::views(lines@) == head + diff_lines(all.take(i as int)),
                decreases diffs@.len() - i,
            {
                let ghost before = text::views(lines@);
                assert(all[i as int] == diffs@[i as int]@);
                let said = line("  ").lit(diffs[i].text().as_str()).done();
                lines.push(said);
                assert(text::views(lines@) =~= before.push(said@));
                assert(diff_lines(all.take(i + 1)) =~= diff_lines(all.take(i as int)).push(said@));
                i = i + 1;
                assert(text::views(lines@) =~= head + diff_lines(all.take(i as int)));
            }
            assert(all.take(i as int) =~= all);
            Ending { success: false, lines }
        },
    }
}

/// A command line that is taken asks for one thing: the list, a server, or a
/// client.
pub proof fn law_one_thing_is_asked_for(words: Seq<Seq<char>>)
    ensures
        match spec_parse_args(words) {
            Some(args) => {
                ||| args.list && args.server is None && args.client_listen is None
                ||| !args.list && args.server is Some && args.client_listen is None && args.fault
                    is None
                ||| !args.list && args.server is None && args.client_listen is Some
            },
            None => true,
        },
{
}

/// A run that could not run all its checks is no success, with a baseline of
/// its own or without one.
pub proof fn law_errors_never_succeed(report: Report, path: Seq<char>, baseline: Baseline)
    requires
        report::tally(report.outcomes@, report::BaselineStatus::Error) > 0,
        baseline.wf(),
    ensures
        !on_its_own(report).0,
        !held_against(report, path, Ok(baseline)).0,
{
    lemma_some_error(report.outcomes@);
    let i = choose|i: int|
        0 <= i < report.outcomes@.len() && report::status_of(
            (#[trigger] report.outcomes@[i]).verdict@,
        ) == report::BaselineStatus::Error;
    report::law_empty_diff_means_as_expected(report, baseline);
}

proof fn lemma_some_error(outcomes: Seq<report::CheckOutcome>)
    requires
        report::tally(outcomes, report::BaselineStatus::Error) > 0,
    ensures
        exists|i: int|
            0 <= i < outcomes.len() && report::status_of((#[trigger] outcomes[i]).verdict@)
                == report::BaselineStatus::Error,
    decreases outcomes.len(),
{
    if outcomes.len() > 0 {
        let last = outcomes.len() - 1;
        if report::status_of(outcomes[last].verdict@) != report::BaselineStatus::Error {
            lemma_some_error(outcomes.drop_last());
            let rest = outcomes.drop_last();
            let i = choose|i: int|
                0 <= i < rest.len() && report::status_of((#[trigger] rest[i]).verdict@)
                    == report::BaselineStatus::Error;
            assert(outcomes[i] == rest[i]);
        }
    }
}

proof fn lemma_read_on(words: Seq<Seq<char>>, tail: Seq<Seq<char>>, i: int, args: ArgsView)
    requires
        0 <= i,
    ensures
        read_from(words, i, args) matches Some(read) ==> i > words.len() || read_from(
            words + tail,
            i,
            args,
        ) == read_from(words + tail, words.len() as int, read),
    decreases words.len() - i,
{
    let whole = words + tail;
    if i < words.len() {
        assert(whole[i] == words[i]);
        if i + 1 < words.len() {
            assert(whole[i + 1] == words[i + 1]);
        }
        match spec_flag(words[i]) {
            None => {},
            Some(Flag::List) => lemma_read_on(words, tail, i + 1, ArgsView { list: true, ..args }),
            Some(Flag::Json) => lemma_read_on(words, tail, i + 1, ArgsView { json: true, ..args }),
            Some(Flag::Fault) => {
                if i + 1 < words.len() {
                    match spec_fault(words[i + 1]) {
                        Some(fault) => lemma_read_on(
                            words,
                            tail,
                            i + 2,
                            ArgsView { fault: Some(fault), ..args },
                        ),
                        None => {},
                    }
                }
            },
            Some(Flag::Text(flag)) => {
                if i + 1 < words.len() {
                    lemma_read_on(words, tail, i + 2, with_text(args, flag, words[i + 1]));
                }
            },
        }
    }
}

/// One more flag with its value after words that can be read sets what it is
/// named for to that value, and leaves the rest as it was.
pub proof fn law_flags_set_what_they_name(words: Seq<Seq<char>>, value: Seq<char>, before: ArgsView)
    requires
        read_from(words, 0, no_args()) == Some(before),
    ensures
        ({
            let after = |flag: Seq<char>| read_from(words + seq![flag, value], 0, no_args());
            &&& after("--server"@) == Some(ArgsView { server: Some(value), ..before })
            &&& after("--sasl-server"@) == Some(ArgsView { sasl_server: Some(value), ..before })
            &&& after("--cluster-control"@) == Some(
                ArgsView { cluster_control: Some(value), ..before },
            )
            &&& after("--authenticate"@) == Some(ArgsView { authenticate: Some(value), ..before })
            &&& after("--tls-ca"@) == Some(ArgsView { tls_ca: Some(value), ..before })
            &&& after("--tls-name"@) == Some(ArgsView { tls_name: Some(value), ..before })
            &&& after("--client-listen"@) == Some(ArgsView { client_listen: Some(value), ..before })
            &&& after("--baseline"@) == Some(ArgsView { baseline: Some(value), ..before })
            &&& after("--write-baseline"@) == Some(
                ArgsView { write_baseline: Some(value), ..before },
            )
        }),
{
    lemma_flags_differ();
    lemma_one_more(words, "--server"@, value, before);
    lemma_one_more(words, "--sasl-server"@, value, before);
    lemma_one_more(words, "--cluster-control"@, value, before);
    lemma_one_more(words, "--authenticate"@, value, before);
    lemma_one_more(words, "--tls-ca"@, value, before);
    lemma_one_more(words, "--tls-name"@, value, before);
    lemma_one_more(words, "--client-listen"@, value, before);
    lemma_one_more(words, "--baseline"@, value, before);
    lemma_one_more(words, "--write-baseline"@, value, before);
}

proof fn lemma_one_more(
    words: Seq<Seq<char>>,
    flag: Seq<char>,
    value: Seq<char>,
    before: ArgsView,
)
    requires
        read_from(words, 0, no_args()) == Some(before),
        spec_flag(flag) matches Some(Flag::Text(_)),
    ensures
        read_from(words + seq![flag, value], 0, no_args()) == Some(
            with_text(before, spec_flag(flag)->Some_0->Text_0, value),
        ),
{
    let tail = seq![flag, value];
    let whole = words + tail;
    lemma_read_on(words, tail, 0, no_args());
    let n = words.len() as int;
    assert(whole[n] == flag);
    assert(whole[n + 1] == value);
    let named = spec_flag(flag)->Some_0->Text_0;
    assert(read_from(whole, n + 2, with_text(before, named, value)) == Some(
        with_text(before, named, value),
    ));
}

proof fn lemma_flags_differ()
    ensures
        spec_flag("--server"@) == Some(Flag::Text(TextFlag::Server)),
        spec_flag("--sasl-server"@) == Some(Flag::Text(TextFlag::SaslServer)),
        spec_flag("--cluster-control"@) == Some(Flag::Text(TextFlag::ClusterControl)),
        spec_flag("--authenticate"@) == Some(Flag::Text(TextFlag::Authenticate)),
        spec_flag("--tls-ca"@) == Some(Flag::Text(TextFlag::TlsCa)),
        spec_flag("--tls-name"@) == Some(Flag::Text(TextFlag::TlsName)),
        spec_flag("--client-listen"@) == Some(Flag::Text(TextFlag::ClientListen)),
        spec_flag("--list"@) == Some(Flag::List),
        spec_flag("--fault"@) == Some(Flag::Fault),
        spec_flag("--json"@) == Some(Flag::Json),
        spec_flag("--baseline"@) == Some(Flag::Text(TextFlag::Baseline)),
        spec_flag("--write-baseline"@) == Some(Flag::Text(TextFlag::WriteBaseline)),
{
    reveal_strlit("--server");
    reveal_strlit("--sasl-server");
    reveal_strlit("--cluster-control");
    reveal_strlit("--authenticate");
    reveal_strlit("--tls-ca");
    reveal_strlit("--tls-name");
    reveal_strlit("--client-listen");
    reveal_strlit("--list");
    reveal_strlit("--fault");
    reveal_strlit("--json");
    reveal_strlit("--baseline");
    reveal_strlit("--write-baseline");
    assert("--server"@.len() == 8 && "--server"@[2] == 's');
    assert("--sasl-server"@.len() == 13 && "--sasl-server"@[2] == 's');
    assert("--cluster-control"@.len() == 17);
    assert("--authenticate"@.len() == 14);
    assert("--tls-ca"@.len() == 8 && "--tls-ca"@[2] == 't');
    assert("--tls-name"@.len() == 10 && "--tls-name"@[2] == 't');
    assert("--client-listen"@.len() == 15);
    assert("--list"@.len() == 6 && "--list"@[2] == 'l');
    assert("--fault"@.len() == 7);
    assert("--json"@.len() == 6 && "--json"@[2] == 'j');
    assert("--baseline"@.len() == 10 && "--baseline"@[2] == 'b');
    assert("--write-baseline"@.len() == 16);
}

/// The flags without a value and the one with a fault do the same; a flag that
/// is not known, a fault that is not known, and a flag that lacks its value are
/// refused.
pub proof fn law_other_flags_do_as_they_say(
    words: Seq<Seq<char>>,
    before: ArgsView,
    unknown: Seq<char>,
)
    requires
        read_from(words, 0, no_args()) == Some(before),
        !seq![
            "--server"@,
            "--sasl-server"@,
            "--cluster-control"@,
            "--authenticate"@,
            "--tls-ca"@,
            "--tls-name"@,
            "--client-listen"@,
            "--list"@,
            "--fault"@,
            "--json"@,
            "--baseline"@,
            "--write-baseline"@,
        ].contains(unknown),
    ensures
        read_from(words + seq!["--list"@], 0, no_args()) == Some(ArgsView { list: true, ..before }),
        read_from(words + seq!["--json"@], 0, no_args()) == Some(ArgsView { json: true, ..before }),
        read_from(words + seq![unknown], 0, no_args()) is None,
        read_from(words + seq!["--server"@], 0, no_args()) is None,
        read_from(words + seq!["--baseline"@], 0, no_args()) is None,
        read_from(words + seq!["--fault"@], 0, no_args()) is None,
{
    lemma_flags_differ();
    let known = seq![
        "--server"@,
        "--sasl-server"@,
        "--cluster-control"@,
        "--authenticate"@,
        "--tls-ca"@,
        "--tls-name"@,
        "--client-listen"@,
        "--list"@,
        "--fault"@,
        "--json"@,
        "--baseline"@,
        "--write-baseline"@,
    ];
    assert(known[0] != unknown && known[1] != unknown && known[2] != unknown);
    assert(known[3] != unknown && known[4] != unknown && known[5] != unknown);
    assert(known[6] != unknown && known[7] != unknown && known[8] != unknown);
    assert(known[9] != unknown && known[10] != unknown && known[11] != unknown);
    lemma_read_on(words, seq!["--list"@], 0, no_args());
    lemma_read_on(words, seq!["--json"@], 0, no_args());
    lemma_read_on(words, seq![unknown], 0, no_args());
    lemma_read_on(words, seq!["--server"@], 0, no_args());
    lemma_read_on(words, seq!["--baseline"@], 0, no_args());
    lemma_read_on(words, seq!["--fault"@], 0, no_args());
    let n = words.len() as int;
    assert((words + seq!["--list"@])[n] == "--list"@);
    assert((words + seq!["--json"@])[n] == "--json"@);
    assert((words + seq![unknown])[n] == unknown);
    assert((words + seq!["--server"@])[n] == "--server"@);
    assert((words + seq!["--baseline"@])[n] == "--baseline"@);
    assert((words + seq!["--fault"@])[n] == "--fault"@);
    assert(read_from(words + seq!["--list"@], n + 1, ArgsView { list: true, ..before }) == Some(
        ArgsView { list: true, ..before },
    ));
    assert(read_from(words + seq!["--json"@], n + 1, ArgsView { json: true, ..before }) == Some(
        ArgsView { json: true, ..before },
    ));
}

/// What was read is accepted exactly if it asks for the list and nothing else,
/// or for one of a server and a client, with a fault for a client alone.
pub proof fn law_what_makes_sense_is_accepted(words: Seq<Seq<char>>, read: ArgsView)
    requires
        read_from(words, 0, no_args()) == Some(read),
    ensures
        spec_parse_args(words) == (if (if read.list {
            read.server is None && read.sasl_server is None && read.cluster_control is None
                && read.authenticate is None && read.tls_ca is None && read.tls_name is None
                && read.client_listen is None && read.fault is None && !read.json && read.baseline
                is None && read.write_baseline is None
        } else {
            (read.server is Some && read.client_listen is None && read.fault is None) || (
            read.server is None && read.client_listen is Some)
        }) {
            Some(read)
        } else {
            None
        }),
{
    if read.list {
        assert((read =~= (ArgsView { list: true, ..no_args() })) ==> read == (
        ArgsView { list: true, ..no_args() }));
    }
}

/// A login is split at its first colon: what stands before has none, the two
/// and the colon make it up, and without a colon there is nothing to split.
pub proof fn law_logins_split_at_the_first_colon(login: Seq<char>)
    ensures
        match first_colon(login, 0) {
            Some(k) => 0 <= k < login.len() && login == login.take(k) + seq![':'] + login.skip(
                k + 1,
            ) && !login.take(k).contains(':'),
            None => !login.contains(':'),
        },
{
    lemma_first_colon(login, 0);
    match first_colon(login, 0) {
        Some(k) => {
            assert(login =~= login.take(k) + seq![':'] + login.skip(k + 1));
            if login.take(k).contains(':') {
                let i = choose|i: int| 0 <= i < k && login.take(k)[i] == ':';
                assert(login[i] == ':');
            }
        },
        None => {},
    }
}

proof fn lemma_first_colon(login: Seq<char>, i: int)
    requires
        0 <= i,
    ensures
        match first_colon(login, i) {
            Some(k) => i <= k < login.len() && login[k] == ':' && forall|j: int|
                i <= j < k ==> #[trigger] login[j] != ':',
            None => forall|j: int| i <= j < login.len() ==> #[trigger] login[j] != ':',
        },
    decreases login.len() - i,
{
    if i < login.len() && login[i] != ':' {
        lemma_first_colon(login, i + 1);
    }
}

/// The listing has two lines for every check: its id with its role, and what it
/// requires.
pub proof fn law_listing_has_every_check(runners: Seq<checks::Runner>, i: int)
    requires
        0 <= i < runners.len(),
    ensures
        listing(runners).len() == 2 * runners.len(),
        listing(runners)[2 * i] == "["@ + (match runners[i] {
            checks::Runner::Server(_) => "server"@,
            checks::Runner::Client(_) => "client"@,
        }) + "] "@ + runners[i].spec_id(),
        listing(runners)[2 * i + 1] == "    "@ + runners[i].spec_requirement(),
    decreases runners.len(),
{
    let rest = runners.drop_last();
    if rest.len() > 0 {
        law_listing_has_every_check(rest, if i < rest.len() { i } else { 0 });
    } else {
        assert(listing(rest) =~= Seq::empty());
    }
    if i < rest.len() {
        assert(listing(runners)[2 * i] == listing(rest)[2 * i]);
        assert(listing(runners)[2 * i + 1] == listing(rest)[2 * i + 1]);
    } else {
        assert(listing(runners)[2 * i] == check_lines(runners.last())[0]);
        assert(listing(runners)[2 * i + 1] == check_lines(runners.last())[1]);
    }
}

/// A run on its own succeeds exactly if no check failed and none could not run.
pub proof fn law_runs_alone_succeed(report: Report)
    ensures
        on_its_own(report).0 <==> forall|i: int|
            0 <= i < report.outcomes@.len() ==> !((#[trigger] report.outcomes@[i]).verdict@ is Fail)
                && !(report.outcomes@[i].verdict@ is Error),
{
    report::law_counts_tell_of_each(report.outcomes@, report::BaselineStatus::Error);
    if on_its_own(report).0 {
        assert forall|i: int| 0 <= i < report.outcomes@.len() implies !((
        #[trigger] report.outcomes@[i]).verdict@ is Fail) && !(report.outcomes@[i].verdict@
            is Error) by {
            assert(report::status_of(report.outcomes@[i].verdict@)
                != report::BaselineStatus::Error);
        }
    }
}

} // verus!
