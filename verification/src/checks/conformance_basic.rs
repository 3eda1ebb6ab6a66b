//! Runs of the checks on versions, metadata and the creation of topics.

use vstd::prelude::*;
use vstd::string::*;

use crate::checks::calibration;
use crate::checks::conformance;
use crate::checks::conformance::{Setting, World};
use crate::checks::ctx;
use crate::checks::ctx::ServerCtx;
use crate::checks::flows;
use crate::checks::server::ServerCheck;
use crate::checks::server_basic;
use crate::checks::tape;
use crate::checks::tape::{Event, HaltView, Label};
use crate::checks::trial;
use crate::checks::trial::Deed;
use crate::subject::Fault;
use crate::subject::requests::NewTopicView;
use crate::subject::serve;
use crate::subject::serve::{AnswerView, Asked, BodyView, Framing};
use crate::subject::topics;
use crate::wire;
use crate::wire::{CreatedRow, MetadataAnswer, RequestOf, API_VERSIONS, METADATA};
use crate::VerdictView;

verus! {

/// How the subject frames its ApiVersions.
pub open spec fn versions_framing(setting: Setting, version: i16, correlation: i32) -> Framing {
    serve::spec_api_versions_framing(
        Asked {
            correlation_id: correlation,
            api_version: version,
            header_version: (setting.header)(API_VERSIONS, version),
        },
        setting.schema,
        setting.faults,
    )
}

/// One ApiVersions exchange on a fresh connection.
#[verifier::rlimit(40)]
proof fn lemma_exchange(
    setting: Setting,
    tape: Seq<Event>,
    worlds: Seq<World>,
    at: int,
    addr: Seq<char>,
    version: i16,
    request_header: i16,
    correlation: i32,
    decode_at: i16,
)
    requires
        0 <= at <= tape.len(),
        conformance::is_modern(setting.schema),
        conformance::is_up(worlds[at].state),
        conformance::is_heard(worlds[at].state, addr),
        decode_at == if topics::spec_supported(setting.schema, version) { version } else { 0 },
        forall|i: int|
            at <= i < tape.len() ==> conformance::follows(
                setting,
                tape,
                worlds,
                i,
                server_basic::spec_exchange(
                    #[trigger] tape.take(i),
                    at,
                    addr,
                    setting.schema.api_versions.max,
                    version,
                    request_header,
                    correlation,
                    decode_at,
                ),
            ),
    ensures
        match server_basic::spec_exchange(
            tape,
            at,
            addr,
            setting.schema.api_versions.max,
            version,
            request_header,
            correlation,
            decode_at,
        ) {
            Ok((answer, to)) => {
                &&& to == at + 2 <= tape.len()
                &&& conformance::is_framed(
                    versions_framing(setting, version, correlation),
                    correlation,
                    0,
                    decode_at,
                )
                &&& calibration::shows_api_versions(
                    answer,
                    topics::spec_api_versions(setting.schema, version, setting.faults),
                )
            },
            Err(HaltView::Ask(_)) => true,
            Err(halt) => trial::fails(halt) && !conformance::is_framed(
                versions_framing(setting, version, correlation),
                correlation,
                0,
                decode_at,
            ),
        },
{
    reveal(conformance::performs);
    if at < tape.len() {
        assert(tape.take(at).len() == at);
    }
    conformance::lemma_connect(setting, tape, worlds, at, addr);
    if at + 1 < tape.len() {
        conformance::lemma_ranges(setting.schema);
        let i = at + 1;
        assert(tape.take(i).len() == i);
        assert(conformance::follows(
            setting,
            tape,
            worlds,
            i,
            server_basic::spec_exchange(
                tape.take(i),
                at,
                addr,
                setting.schema.api_versions.max,
                version,
                request_header,
                correlation,
                decode_at,
            ),
        ));
        let conn = tape::spec_connect(tape, at, addr)->Ok_0.0;
        assert(conformance::answers(setting, worlds[i], conn, API_VERSIONS, version));
        assert(conformance::heard(
            AnswerView::Frame(
                versions_framing(setting, version, correlation),
                BodyView::ApiVersions(
                    topics::spec_api_versions(setting.schema, version, setting.faults),
                ),
            ),
            correlation,
            0,
            decode_at,
            tape[i],
        ));
    }
}

pub proof fn lemma_v0_basic(
    setting: Setting,
    ctx: ServerCtx,
    tape: Seq<Event>,
    worlds: Seq<World>,
)
    requires
        trial::is_trial(ServerCheck::V0Basic, setting.faults),
        conformance::is_set(setting, ctx, worlds[0].state),
        forall|i: int|
            0 <= i < tape.len() ==> conformance::follows(
                setting,
                tape,
                worlds,
                i,
                server_basic::spec_v0_basic(ctx, #[trigger] tape.take(i)),
            ),
    ensures
        trial::judged(setting.faults, server_basic::spec_v0_basic(ctx, tape)),
{
    lemma_exchange(setting, tape, worlds, 0, ctx.addr@, 0, 1, 1, 0);
    match server_basic::spec_exchange(tape, 0, ctx.addr@, ctx.schema.api_versions.max, 0, 1, 1, 0) {
        Ok((answer, _)) => {
            calibration::law_v0_basic_is_calibrated(answer, setting.schema, setting.faults);
        },
        Err(_) => {},
    }
}

pub proof fn lemma_correlation_echo(
    setting: Setting,
    ctx: ServerCtx,
    tape: Seq<Event>,
    worlds: Seq<World>,
)
    requires
        trial::is_trial(ServerCheck::CorrelationEcho, setting.faults),
        conformance::is_set(setting, ctx, worlds[0].state),
        forall|i: int|
            0 <= i < tape.len() ==> conformance::follows(
                setting,
                tape,
                worlds,
                i,
                server_basic::spec_correlation_echo(ctx, #[trigger] tape.take(i)),
            ),
    ensures
        trial::judged(setting.faults, server_basic::spec_correlation_echo(ctx, tape)),
{
    lemma_exchange(
        setting,
        tape,
        worlds,
        0,
        ctx.addr@,
        0,
        1,
        server_basic::UNUSUAL_CORRELATION,
        0,
    );
}

pub proof fn lemma_flexible_v3(
    setting: Setting,
    ctx: ServerCtx,
    tape: Seq<Event>,
    worlds: Seq<World>,
)
    requires
        trial::is_trial(ServerCheck::FlexibleV3, setting.faults),
        conformance::is_set(setting, ctx, worlds[0].state),
        forall|i: int|
            0 <= i < tape.len() ==> conformance::follows(
                setting,
                tape,
                worlds,
                i,
                server_basic::spec_flexible_v3(ctx, #[trigger] tape.take(i)),
            ),
    ensures
        trial::judged(setting.faults, server_basic::spec_flexible_v3(ctx, tape)),
{
    let newest = setting.schema.api_versions.max;
    conformance::lemma_ranges(setting.schema);
    lemma_exchange(setting, tape, worlds, 0, ctx.addr@, newest, 2, 2, newest);
}

pub proof fn lemma_unsupported_version(
    setting: Setting,
    ctx: ServerCtx,
    tape: Seq<Event>,
    worlds: Seq<World>,
)
    requires
        trial::is_trial(ServerCheck::UnsupportedVersion, setting.faults),
        conformance::is_set(setting, ctx, worlds[0].state),
        forall|i: int|
            0 <= i < tape.len() ==> conformance::follows(
                setting,
                tape,
                worlds,
                i,
                server_basic::spec_unsupported_version(ctx, #[trigger] tape.take(i)),
            ),
    ensures
        trial::judged(setting.faults, server_basic::spec_unsupported_version(ctx, tape)),
{
    let newest = setting.schema.api_versions.max;
    let future = newest.wrapping_add(7);
    conformance::lemma_ranges(setting.schema);
    lemma_exchange(setting, tape, worlds, 0, ctx.addr@, future, 2, 3, 0);
    match server_basic::spec_exchange(tape, 0, ctx.addr@, newest, future, 2, 3, 0) {
        Ok((answer, _)) => {
            calibration::law_unsupported_version_is_calibrated(
                answer,
                setting.schema,
                future,
                setting.faults,
            );
        },
        Err(_) => {},
    }
}

/// Whether the subject says too little, or too much, of the cluster.
pub open spec fn is_bare(faults: Seq<Fault>) -> bool {
    faults.contains(Fault::MetadataEmptyBrokers) || faults.contains(
        Fault::MetadataUnrequestedTopic,
    )
}

/// One Metadata exchange on a fresh connection, naming no topics.
proof fn lemma_metadata_exchange(
    setting: Setting,
    tape: Seq<Event>,
    worlds: Seq<World>,
    at: int,
    addr: Seq<char>,
    version: i16,
    correlation: i32,
)
    requires
        !setting.faults.contains(Fault::MetadataNonFlexibleHeader),
        0 <= at <= tape.len(),
        conformance::is_modern(setting.schema),
        conformance::is_up(worlds[at].state),
        conformance::is_heard(worlds[at].state, addr),
        setting.schema.metadata.min <= version <= setting.schema.metadata.max,
        forall|i: int|
            at <= i < tape.len() ==> conformance::follows(
                setting,
                tape,
                worlds,
                i,
                server_basic::spec_metadata_exchange(
                    #[trigger] tape.take(i),
                    at,
                    addr,
                    version,
                    correlation,
                ),
            ),
    ensures
        match server_basic::spec_metadata_exchange(tape, at, addr, version, correlation) {
            Ok((answer, to)) => {
                &&& to == at + 2 <= tape.len()
                &&& worlds[to].state == worlds[at].state
                &&& if is_bare(setting.faults) {
                    server_basic::spec_metadata_shape(answer) is Fail
                } else {
                    server_basic::spec_metadata_shape(answer) == VerdictView::Pass
                }
                &&& forall|i: int|
                    to <= i <= tape.len() ==> server_basic::spec_metadata_exchange(
                        #[trigger] tape.take(i),
                        at,
                        addr,
                        version,
                        correlation,
                    ) == Ok::<(MetadataAnswer, int), HaltView>((answer, to))
            },
            Err(HaltView::Ask(_)) => true,
            _ => false,
        },
{
    if at < tape.len() {
        assert(tape.take(at).len() == at);
    }
    conformance::lemma_connect(setting, tape, worlds, at, addr);
    if at < tape.len() {
        let conn = tape::spec_connect(tape, at, addr)->Ok_0.0;
        conformance::lemma_ranges(setting.schema);
        if at + 1 < tape.len() {
            assert(tape.take(at + 1).len() == at + 1);
        }
        conformance::lemma_metadata(
            setting,
            tape,
            worlds,
            at + 1,
            Label::Plain,
            conn,
            version,
            None,
            correlation,
        );
        match server_basic::spec_metadata_exchange(tape, at, addr, version, correlation) {
            Ok((answer, _)) => {
                calibration::law_metadata_basic_is_calibrated(
                    answer,
                    worlds[at].state,
                    correlation,
                    worlds[at + 1].lines[conn as int].node_id,
                    setting.faults,
                );
            },
            Err(_) => {},
        }
    }
}

/// The sweep of Metadata's versions, from one of them on.
proof fn lemma_metadata_sweep(
    setting: Setting,
    ctx: ServerCtx,
    tape: Seq<Event>,
    worlds: Seq<World>,
    at: int,
    versions: Seq<i16>,
    i: int,
)
    requires
        !setting.faults.contains(Fault::MetadataNonFlexibleHeader),
        0 <= at <= tape.len(),
        0 <= i <= versions.len(),
        conformance::is_modern(setting.schema),
        conformance::is_up(worlds[at].state),
        conformance::is_heard(worlds[at].state, ctx.addr@),
        forall|j: int|
            0 <= j < versions.len() ==> setting.schema.metadata.min <= #[trigger] versions[j]
                <= setting.schema.metadata.max,
        forall|j: int|
            at <= j < tape.len() ==> conformance::follows(
                setting,
                tape,
                worlds,
                j,
                server_basic::spec_metadata_sweep(ctx, #[trigger] tape.take(j), at, versions, i),
            ),
    ensures
        match server_basic::spec_metadata_sweep(ctx, tape, at, versions, i) {
            Ok((verdict, _)) => if is_bare(setting.faults) {
                i < versions.len() ==> verdict is Fail
            } else {
                verdict == VerdictView::Pass
            },
            Err(HaltView::Ask(_)) => true,
            _ => false,
        },
    decreases versions.len() - i,
{
    if i < versions.len() {
        let version = versions[i];
        let correlation = ctx::spec_correlation(4, i);
        assert forall|j: int| at <= j < tape.len() implies conformance::follows(
            setting,
            tape,
            worlds,
            j,
            server_basic::spec_metadata_exchange(
                #[trigger] tape.take(j),
                at,
                ctx.addr@,
                version,
                correlation,
            ),
        ) by {
            assert(conformance::follows(
                setting,
                tape,
                worlds,
                j,
                server_basic::spec_metadata_sweep(ctx, tape.take(j), at, versions, i),
            ));
        }
        lemma_metadata_exchange(setting, tape, worlds, at, ctx.addr@, version, correlation);
        match server_basic::spec_metadata_exchange(tape, at, ctx.addr@, version, correlation) {
            Ok((answer, to)) => {
                if !is_bare(setting.faults) {
                    assert forall|j: int| to <= j < tape.len() implies conformance::follows(
                        setting,
                        tape,
                        worlds,
                        j,
                        server_basic::spec_metadata_sweep(
                            ctx,
                            #[trigger] tape.take(j),
                            to,
                            versions,
                            i + 1,
                        ),
                    ) by {
                        assert(conformance::follows(
                            setting,
                            tape,
                            worlds,
                            j,
                            server_basic::spec_metadata_sweep(ctx, tape.take(j), at, versions, i),
                        ));
                    }
                    lemma_metadata_sweep(setting, ctx, tape, worlds, to, versions, i + 1);
                }
            },
            Err(_) => {},
        }
    }
}

pub proof fn lemma_metadata_basic(
    setting: Setting,
    ctx: ServerCtx,
    tape: Seq<Event>,
    worlds: Seq<World>,
)
    requires
        trial::is_trial(ServerCheck::MetadataBasic, setting.faults),
        conformance::is_set(setting, ctx, worlds[0].state),
        forall|i: int|
            0 <= i < tape.len() ==> conformance::follows(
                setting,
                tape,
                worlds,
                i,
                server_basic::spec_metadata_basic(ctx, #[trigger] tape.take(i)),
            ),
    ensures
        trial::judged(setting.faults, server_basic::spec_metadata_basic(ctx, tape)),
{
    conformance::lemma_ranges(setting.schema);
    let newest = setting.schema.metadata.max;
    let oldest = setting.schema.metadata.min;
    let versions = ctx::version_run(if oldest >= 1 { oldest } else { 1 }, newest);
    assert(ctx.spec_versions(0, "Metadata"@, METADATA, 1, newest) == Ok::<Seq<i16>, HaltView>(
        versions,
    ));
    lemma_metadata_sweep(setting, ctx, tape, worlds, 0, versions, 0);
}

pub proof fn lemma_metadata_flexible_header(
    setting: Setting,
    ctx: ServerCtx,
    tape: Seq<Event>,
    worlds: Seq<World>,
)
    requires
        trial::is_trial(ServerCheck::MetadataFlexibleHeader, setting.faults),
        conformance::is_set(setting, ctx, worlds[0].state),
        forall|i: int|
            0 <= i < tape.len() ==> conformance::follows(
                setting,
                tape,
                worlds,
                i,
                server_basic::spec_metadata_flexible_header(ctx, #[trigger] tape.take(i)),
            ),
    ensures
        trial::judged(setting.faults, server_basic::spec_metadata_flexible_header(ctx, tape)),
{
    conformance::lemma_ranges(setting.schema);
    let version = setting.schema.metadata.max;
    if setting.faults.contains(Fault::MetadataNonFlexibleHeader) {
        if 0 < tape.len() {
            assert(tape.take(0).len() == 0);
        }
        conformance::lemma_connect(setting, tape, worlds, 0, ctx.addr@);
        if 1 < tape.len() {
            assert(tape.take(1).len() == 1);
        }
        if 0 < tape.len() {
            conformance::lemma_misframed(
                setting,
                tape,
                worlds,
                1,
                Label::Plain,
                tape::spec_connect(tape, 0, ctx.addr@)->Ok_0.0,
                version,
                5,
                RequestOf::Metadata { topic: None },
            );
        }
    } else {
        lemma_metadata_exchange(setting, tape, worlds, 0, ctx.addr@, version, 5);
    }
}

pub proof fn lemma_metadata_unknown_topic(
    setting: Setting,
    ctx: ServerCtx,
    tape: Seq<Event>,
    worlds: Seq<World>,
)
    requires
        trial::is_trial(ServerCheck::MetadataUnknownTopic, setting.faults),
        conformance::is_set(setting, ctx, worlds[0].state),
        forall|i: int|
            0 <= i < tape.len() ==> conformance::follows(
                setting,
                tape,
                worlds,
                i,
                server_basic::spec_metadata_unknown_topic(ctx, #[trigger] tape.take(i)),
            ),
    ensures
        trial::judged(setting.faults, server_basic::spec_metadata_unknown_topic(ctx, tape)),
{
    conformance::lemma_ranges(setting.schema);
    let version = setting.schema.metadata.max;
    conformance::lemma_fresh_topic(setting, ctx, tape, worlds, 0, "nosuch"@);
    match ctx::spec_fresh_topic(ctx, tape, 0, "nosuch"@) {
        Ok((topic, at)) => {
            if at < tape.len() {
                assert(tape.take(at).len() == at);
            }
            conformance::lemma_connect(setting, tape, worlds, at, ctx.addr@);
            match tape::spec_connect(tape, at, ctx.addr@) {
                Ok((conn, at)) => {
                    if at < tape.len() {
                        assert(tape.take(at).len() == at);
                    }
                    conformance::lemma_metadata(
                        setting,
                        tape,
                        worlds,
                        at,
                        Label::Named("Metadata"@),
                        conn,
                        version,
                        Some(topic),
                        95,
                    );
                    match flows::spec_metadata(tape, at, conn, version, Some(topic), 95) {
                        Ok((answer, _)) => {
                            calibration::law_unknown_topic_is_calibrated(
                                answer,
                                worlds[at].state,
                                topic,
                                95,
                                worlds[at].lines[conn as int].node_id,
                                setting.faults,
                            );
                        },
                        Err(_) => {},
                    }
                },
                Err(_) => {},
            }
        },
        Err(_) => {},
    }
}

proof fn lemma_creating(
    setting: Setting,
    ctx: ServerCtx,
    tape: Seq<Event>,
    worlds: Seq<World>,
    at: int,
    tag: Seq<char>,
)
    requires
        0 <= at <= tape.len(),
        at == 0,
        conformance::is_set(setting, ctx, worlds[0].state),
        forall|i: int|
            at <= i < tape.len() ==> conformance::follows(
                setting,
                tape,
                worlds,
                i,
                server_basic::spec_creating(ctx, #[trigger] tape.take(i), tag),
            ),
    ensures
        match server_basic::spec_creating(ctx, tape, tag) {
            Ok((made, to)) => {
                &&& at <= to <= tape.len()
                &&& made.0 == setting.schema.create_topics.max
                &&& worlds[to].state == worlds[0].state
                &&& conformance::is_open(worlds[to], made.1)
                &&& conformance::is_free(worlds[0].state, made.2)
                &&& forall|i: int|
                    to <= i <= tape.len() ==> server_basic::spec_creating(
                        ctx,
                        #[trigger] tape.take(i),
                        tag,
                    )
                        == Ok::<((i16, usize, Seq<char>), int), HaltView>((made, to))
            },
            Err(HaltView::Ask(_)) => true,
            _ => false,
        },
{
    conformance::lemma_ranges(setting.schema);
    if at < tape.len() {
        assert(tape.take(at).len() == at);
    }
    conformance::lemma_connect(setting, tape, worlds, 0, ctx.addr@);
    match tape::spec_connect(tape, 0, ctx.addr@) {
        Ok((conn, at)) => {
            conformance::lemma_fresh_topic(setting, ctx, tape, worlds, at, tag);
        },
        Err(_) => {},
    }
}

/// Creating a topic by way of the controller.
pub proof fn lemma_create_topic(
    setting: Setting,
    ctx: ServerCtx,
    tape: Seq<Event>,
    worlds: Seq<World>,
    at: int,
    conn: usize,
    version: i16,
    topic: Seq<char>,
    validate_only: bool,
    correlation: i32,
)
    requires
        trial::spares(setting.faults, Deed::Cluster),
        0 <= at <= tape.len(),
        conformance::is_learned(setting, ctx),
        conformance::is_up(worlds[at].state),
        conformance::is_open(worlds[at], conn),
        setting.schema.create_topics.min <= version <= setting.schema.create_topics.max,
        forall|i: int|
            at <= i < tape.len() ==> conformance::follows(
                setting,
                tape,
                worlds,
                i,
                flows::spec_create_topic(
                    ctx,
                    #[trigger] tape.take(i),
                    at,
                    conn,
                    version,
                    topic,
                    validate_only,
                    correlation,
                ),
            ),
    ensures
        match flows::spec_create_topic(
            ctx,
            tape,
            at,
            conn,
            version,
            topic,
            validate_only,
            correlation,
        ) {
            Ok((row, to)) => {
                &&& at <= to <= tape.len()
                &&& ({
                    let asked = NewTopicView {
                        name: topic,
                        num_partitions: 1,
                        replication_factor: 1,
                    };
                    &&& worlds[to].state == topics::after_create(
                        worlds[at].state,
                        asked,
                        conformance::is_dry(validate_only, setting.faults),
                        setting.faults,
                    )
                    &&& row.error.code == topics::creation_code(
                        worlds[at].state,
                        asked,
                        setting.faults,
                    )
                })
                &&& conformance::extends(worlds[at], worlds[to])
                &&& forall|i: int|
                    to <= i <= tape.len() ==> flows::spec_create_topic(
                        ctx,
                        #[trigger] tape.take(i),
                        at,
                        conn,
                        version,
                        topic,
                        validate_only,
                        correlation,
                    )
                        == Ok::<(CreatedRow, int), HaltView>((row, to))
            },
            Err(HaltView::Ask(_)) => true,
            _ => false,
        },
{
    let before = correlation.wrapping_sub(1);
    conformance::lemma_admin(setting, ctx, tape, worlds, at, conn, before);
    match flows::spec_admin_conn(ctx, tape, at, conn, before) {
        Ok((controller, to)) => {
            conformance::lemma_create(
                setting,
                tape,
                worlds,
                to,
                Label::Named("CreateTopics"@),
                controller,
                version,
                correlation,
                topic,
                1,
                validate_only,
            );
        },
        Err(_) => {},
    }
}

pub proof fn lemma_create_topics_duplicate(
    setting: Setting,
    ctx: ServerCtx,
    tape: Seq<Event>,
    worlds: Seq<World>,
)
    requires
        trial::is_trial(ServerCheck::CreateTopicsDuplicate, setting.faults),
        conformance::is_set(setting, ctx, worlds[0].state),
        forall|i: int|
            0 <= i < tape.len() ==> conformance::follows(
                setting,
                tape,
                worlds,
                i,
                server_basic::spec_create_topics_duplicate(ctx, #[trigger] tape.take(i)),
            ),
    ensures
        trial::judged(setting.faults, server_basic::spec_create_topics_duplicate(ctx, tape)),
{
    assert(trial::spares(setting.faults, Deed::Cluster));
    conformance::lemma_ranges(setting.schema);
    lemma_creating(setting, ctx, tape, worlds, 0, "dup"@);
    match server_basic::spec_creating(ctx, tape, "dup"@) {
        Ok(((version, conn, topic), at)) => {
            lemma_create_topic(setting, ctx, tape, worlds, at, conn, version, topic, false, 96);
            match flows::spec_create_topic(ctx, tape, at, conn, version, topic, false, 96) {
                Ok((row, to)) => {
                    assert(topics::broker_limit(worlds[at].state) >= 1);
                    lemma_create_topic(
                        setting,
                        ctx,
                        tape,
                        worlds,
                        to,
                        conn,
                        version,
                        topic,
                        false,
                        97,
                    );
                },
                Err(_) => {},
            }
        },
        Err(_) => {},
    }
}

#[verifier::rlimit(40)]
pub proof fn lemma_create_topics_validate_only(
    setting: Setting,
    ctx: ServerCtx,
    tape: Seq<Event>,
    worlds: Seq<World>,
)
    requires
        trial::is_trial(ServerCheck::CreateTopicsValidateOnly, setting.faults),
        conformance::is_set(setting, ctx, worlds[0].state),
        forall|i: int|
            0 <= i < tape.len() ==> conformance::follows(
                setting,
                tape,
                worlds,
                i,
                server_basic::spec_create_topics_validate_only(ctx, #[trigger] tape.take(i)),
            ),
    ensures
        trial::judged(setting.faults, server_basic::spec_create_topics_validate_only(ctx, tape)),
{
    assert(trial::spares(setting.faults, Deed::Cluster));
    conformance::lemma_ranges(setting.schema);
    lemma_creating(setting, ctx, tape, worlds, 0, "validate"@);
    match server_basic::spec_creating(ctx, tape, "validate"@) {
        Ok(((version, conn, topic), at)) => {
            lemma_create_topic(setting, ctx, tape, worlds, at, conn, version, topic, true, 98);
            match flows::spec_create_topic(ctx, tape, at, conn, version, topic, true, 98) {
                Ok((row, to)) => {
                    assert(topics::broker_limit(worlds[at].state) >= 1);
                    lemma_create_topic(
                        setting,
                        ctx,
                        tape,
                        worlds,
                        to,
                        conn,
                        version,
                        topic,
                        false,
                        99,
                    );
                },
                Err(_) => {},
            }
        },
        Err(_) => {},
    }
}

pub proof fn lemma_create_topics_impossible_replication(
    setting: Setting,
    ctx: ServerCtx,
    tape: Seq<Event>,
    worlds: Seq<World>,
)
    requires
        trial::is_trial(ServerCheck::CreateTopicsImpossibleReplication, setting.faults),
        conformance::is_set(setting, ctx, worlds[0].state),
        forall|i: int|
            0 <= i < tape.len() ==> conformance::follows(
                setting,
                tape,
                worlds,
                i,
                server_basic::spec_create_topics_impossible_replication(
                    ctx,
                    #[trigger] tape.take(i),
                ),
            ),
    ensures
        trial::judged(
            setting.faults,
            server_basic::spec_create_topics_impossible_replication(ctx, tape),
        ),
{
    conformance::lemma_ranges(setting.schema);
    lemma_creating(setting, ctx, tape, worlds, 0, "overreplicated"@);
    match server_basic::spec_creating(ctx, tape, "overreplicated"@) {
        Ok(((version, conn, topic), at)) => {
            conformance::lemma_create(
                setting,
                tape,
                worlds,
                at,
                Label::Final("CreateTopics"@),
                conn,
                version,
                840,
                topic,
                server_basic::IMPOSSIBLE_REPLICAS,
                false,
            );
        },
        Err(_) => {},
    }
}

} // verus!
