//! The checks run against the reference subject, without a wire between them:
//! requests and answers pass as values, and record sets in a small encoding
//! of this file's own.

use odradek_acceptance::checks::batch::{gzip_batch, probe_batch};
use odradek_acceptance::checks::ctx::{CodeNames, ProbeConfig, ServerCtx, Wait};
use odradek_acceptance::checks::server::{
    from_wire, judge_reading, server_checks, server_report, Reading, ServerCheck,
};
use odradek_acceptance::checks::server_basic::discover;
use odradek_acceptance::checks::tape::{
    Action, ActionOf, BatchStamp, CheckError, Event, ScramProof, Step,
};
use odradek_acceptance::raw::WireError;
use odradek_acceptance::subject::log::{fetch_wait, restamped};
use odradek_acceptance::subject::requests::{
    AddOffsetsAsk, AddPartitionsAsk, CommitPartition, CommitTopic, ConsumerGroupAsk,
    CreateTopicsAsk, DeleteTopicsAsk, DescribeGroupsAsk, EndTxnAsk, FetchAsk, FetchPartition,
    FetchTopic, FindCoordinatorAsk, GivenAssignment, HeartbeatAsk, InitProducerIdAsk, JoinGroupAsk,
    LeaveGroupAsk, ListOffsetsAsk, ListPartition, ListTopic, MetadataAsk, NamedTopic, NewTopic,
    OffsetCommitAsk, OffsetFetchAsk, OffsetGroup, OffsetTopic, ProduceAsk, ProducePartition,
    ProduceTopic, Protocol, SyncGroupAsk, TxnOffsetTopic, TxnOffsetsAsk, TxnTopic,
};
use odradek_acceptance::subject::sasl::{
    scram_iterations, token_text, token_use, SaslState, TokenUse,
};
use odradek_acceptance::subject::serve::{
    frame_payload, serve, serves, Answer, Asked, Body, Framing, Request as Served,
};
use odradek_acceptance::subject::state::{ClusterState, NODES};
use odradek_acceptance::subject::Fault;
use odradek_acceptance::wire::{
    ApiVersionsAnswer, AssignedTopic, BrokerRow, CommitTopic as CommitAnswer, CommittedGroup,
    CommittedRow, CommittedTopic, ConsumerGroupAnswer, CoordinatorRow, CreatedRow, DescribedRow,
    ErrorCode, FetchAnswer, FetchedRow, FetchedTopic, FindCoordinatorAnswer, InitProducerIdAnswer,
    JoinGroupAnswer, MetadataAnswer, OffsetFetchAnswer, OffsetRow, OffsetTopic as OffsetAnswer,
    PartitionRow, ProducedRow, Record, RecordBatch, RecordHeader, Records, Request, Response,
    SaslAuthenticateAnswer, SaslHandshakeAnswer, Schema, SyncGroupAnswer, Topic, TopicId, TopicRow,
    Versions,
};
use odradek_acceptance::Verdict;

fn range(min: i16, max: i16) -> Versions {
    Versions { min, max }
}

fn schema() -> Schema {
    Schema {
        produce: range(3, 13),
        fetch: range(4, 17),
        list_offsets: range(1, 10),
        metadata: range(0, 13),
        offset_commit: range(2, 10),
        offset_fetch: range(1, 10),
        find_coordinator: range(0, 6),
        join_group: range(0, 9),
        heartbeat: range(0, 4),
        leave_group: range(0, 5),
        sync_group: range(0, 5),
        describe_groups: range(0, 6),
        sasl_handshake: range(0, 1),
        api_versions: range(0, 4),
        create_topics: range(2, 7),
        delete_topics: range(1, 6),
        init_producer_id: range(0, 5),
        add_partitions_to_txn: range(0, 5),
        add_offsets_to_txn: range(0, 4),
        end_txn: range(0, 5),
        txn_offset_commit: range(0, 5),
        sasl_authenticate: range(0, 2),
        consumer_group_heartbeat: range(0, 1),
    }
}

// ---- record sets ------------------------------------------------------

fn put_bytes(out: &mut Vec<u8>, bytes: &Option<Vec<u8>>) {
    match bytes {
        None => out.extend_from_slice(&u32::MAX.to_be_bytes()),
        Some(bytes) => {
            out.extend_from_slice(&(bytes.len() as u32).to_be_bytes());
            out.extend_from_slice(bytes);
        }
    }
}

fn encode_records(records: &[Record]) -> Vec<u8> {
    let mut out = Vec::new();
    for record in records {
        out.extend_from_slice(&record.timestamp_delta.to_be_bytes());
        out.extend_from_slice(&record.offset_delta.to_be_bytes());
        put_bytes(&mut out, &record.key);
        put_bytes(&mut out, &record.value);
        out.extend_from_slice(&(record.headers.len() as u32).to_be_bytes());
        for header in &record.headers {
            put_bytes(&mut out, &Some(header.key.clone().into_bytes()));
            put_bytes(&mut out, &header.value);
        }
    }
    out
}

fn checksum(bytes: &[u8]) -> u32 {
    bytes.iter().fold(17, |acc: u32, b| acc.wrapping_mul(31).wrapping_add(u32::from(*b)))
}

fn encode_batch(batch: &RecordBatch) -> Vec<u8> {
    let mut body = Vec::new();
    body.extend_from_slice(&batch.attributes.to_be_bytes());
    body.extend_from_slice(&batch.last_offset_delta.to_be_bytes());
    body.extend_from_slice(&batch.base_timestamp.to_be_bytes());
    body.extend_from_slice(&batch.max_timestamp.to_be_bytes());
    body.extend_from_slice(&batch.producer_id.to_be_bytes());
    body.extend_from_slice(&batch.producer_epoch.to_be_bytes());
    body.extend_from_slice(&batch.base_sequence.to_be_bytes());
    match &batch.records {
        Records::Plain(records) => {
            body.push(0);
            body.extend_from_slice(&(records.len() as u32).to_be_bytes());
            body.extend_from_slice(&encode_records(records));
        }
        Records::Compressed { count, payload } => {
            body.push(1);
            body.extend_from_slice(&count.to_be_bytes());
            put_bytes(&mut body, &Some(payload.clone()));
        }
    }
    let mut out = Vec::new();
    out.extend_from_slice(&batch.base_offset.to_be_bytes());
    out.extend_from_slice(&(body.len() as u32).to_be_bytes());
    out.extend_from_slice(&body);
    let sum = checksum(&body);
    out.extend_from_slice(&sum.to_be_bytes());
    out
}

struct Cursor<'a> {
    bytes: &'a [u8],
}

impl Cursor<'_> {
    fn take(&mut self, n: usize) -> Result<Vec<u8>, String> {
        if self.bytes.len() < n {
            return Err("ran out of bytes".to_owned());
        }
        let (head, rest) = self.bytes.split_at(n);
        self.bytes = rest;
        Ok(head.to_vec())
    }

    fn u32(&mut self) -> Result<u32, String> {
        Ok(u32::from_be_bytes(self.take(4)?.try_into().unwrap()))
    }

    fn i32(&mut self) -> Result<i32, String> {
        Ok(i32::from_be_bytes(self.take(4)?.try_into().unwrap()))
    }

    fn i64(&mut self) -> Result<i64, String> {
        Ok(i64::from_be_bytes(self.take(8)?.try_into().unwrap()))
    }

    fn i16(&mut self) -> Result<i16, String> {
        Ok(i16::from_be_bytes(self.take(2)?.try_into().unwrap()))
    }

    fn optional(&mut self) -> Result<Option<Vec<u8>>, String> {
        let n = self.u32()?;
        if n == u32::MAX {
            return Ok(None);
        }
        Ok(Some(self.take(n as usize)?))
    }

    fn record(&mut self) -> Result<Record, String> {
        let timestamp_delta = self.i64()?;
        let offset_delta = self.i32()?;
        let key = self.optional()?;
        let value = self.optional()?;
        let mut headers = Vec::new();
        for _ in 0..self.u32()? {
            let key = String::from_utf8(self.optional()?.unwrap_or_default())
                .map_err(|e| e.to_string())?;
            headers.push(RecordHeader { key, value: self.optional()? });
        }
        Ok(Record { timestamp_delta, offset_delta, key, value, headers })
    }

    fn batch(&mut self) -> Result<RecordBatch, String> {
        let base_offset = self.i64()?;
        let len = self.u32()? as usize;
        let body = self.take(len)?;
        if self.u32()? != checksum(&body) {
            return Err("checksum mismatch".to_owned());
        }
        let mut c = Cursor { bytes: &body };
        let attributes = c.i16()?;
        let last_offset_delta = c.i32()?;
        let base_timestamp = c.i64()?;
        let max_timestamp = c.i64()?;
        let producer_id = c.i64()?;
        let producer_epoch = c.i16()?;
        let base_sequence = c.i32()?;
        let records = if c.take(1)? == [0] {
            let mut records = Vec::new();
            for _ in 0..c.u32()? {
                records.push(c.record()?);
            }
            Records::Plain(records)
        } else {
            let count = c.i32()?;
            Records::Compressed { count, payload: c.optional()?.unwrap_or_default() }
        };
        Ok(RecordBatch {
            base_offset,
            attributes,
            last_offset_delta,
            base_timestamp,
            max_timestamp,
            producer_id,
            producer_epoch,
            base_sequence,
            records,
        })
    }
}

fn decode_set(bytes: &[u8]) -> Result<Vec<RecordBatch>, String> {
    let mut c = Cursor { bytes };
    let mut batches = Vec::new();
    while !c.bytes.is_empty() {
        batches.push(c.batch()?);
    }
    Ok(batches)
}

// ---- the subject's side ------------------------------------------------

fn named(topic: &Topic) -> (String, TopicId) {
    match topic {
        Topic::Name(name) => (name.clone(), [0; 16]),
        Topic::Id(id) => (String::new(), *id),
    }
}

/// A request as the subject reads it.
fn received(state: &ClusterState, sasl: &SaslState, faults: &Vec<Fault>, request: &Request) -> Served {
    match request {
        Request::ApiVersions => Served::ApiVersions,
        Request::Metadata { topic } => Served::Metadata(MetadataAsk {
            topics: Some(
                topic.iter().map(|name| NamedTopic { name: Some(name.clone()) }).collect(),
            ),
        }),
        Request::CreateTopics { topic, replication_factor, validate_only } => {
            Served::CreateTopics(CreateTopicsAsk {
                topics: vec![NewTopic {
                    name: topic.clone(),
                    num_partitions: 1,
                    replication_factor: *replication_factor,
                }],
                validate_only: *validate_only,
            })
        }
        Request::DeleteTopics { topic, by_state } => Served::DeleteTopics(DeleteTopicsAsk {
            topics: if *by_state {
                vec![NamedTopic { name: Some(topic.clone()) }]
            } else {
                Vec::new()
            },
            topic_names: if *by_state { Vec::new() } else { vec![topic.clone()] },
        }),
        Request::Produce { topic, partition, acks, transactional_id, records } => {
            let (name, topic_id) = named(topic);
            let batches = decode_set(records).ok();
            let rewritten = decode_set(records).ok().and_then(|mut batches| {
                let first = batches.first_mut()?;
                first.max_timestamp = restamped(first.max_timestamp);
                Some(encode_batch(first))
            });
            Served::Produce(ProduceAsk {
                transactional_id: transactional_id.clone(),
                acks: *acks,
                topics: vec![ProduceTopic {
                    name,
                    topic_id,
                    partitions: vec![ProducePartition {
                        index: *partition,
                        records: Some(records.clone()),
                        batches,
                        rewritten,
                    }],
                }],
            })
        }
        Request::Fetch { topic, partition, offset, max_wait_ms, min_bytes, isolation_level, .. } => {
            let (topic, topic_id) = named(topic);
            Served::Fetch(FetchAsk {
                max_wait_ms: *max_wait_ms,
                min_bytes: *min_bytes,
                isolation_level: *isolation_level,
                topics: vec![FetchTopic {
                    topic,
                    topic_id,
                    partitions: vec![FetchPartition { partition: *partition, fetch_offset: *offset }],
                }],
            })
        }
        Request::ListOffsets { topic, timestamp } => {
            let stored = match state.logs.get(&(topic.clone(), 0)) {
                Some(log) => decode_set(&log.bytes).ok(),
                None => None,
            };
            Served::ListOffsets(ListOffsetsAsk {
                topics: vec![ListTopic {
                    name: topic.clone(),
                    partitions: vec![ListPartition {
                        partition_index: 0,
                        timestamp: *timestamp,
                        stored,
                    }],
                }],
            })
        }
        Request::FindCoordinator { key, batched, .. } => {
            Served::FindCoordinator(FindCoordinatorAsk {
                key: if *batched { String::new() } else { key.clone() },
                coordinator_keys: if *batched { vec![key.clone()] } else { Vec::new() },
            })
        }
        Request::OffsetCommit { group, topic, offset, metadata } => {
            let (name, topic_id) = named(topic);
            Served::OffsetCommit(OffsetCommitAsk {
                group_id: group.clone(),
                topics: vec![CommitTopic {
                    name,
                    topic_id,
                    partitions: vec![CommitPartition {
                        partition_index: 0,
                        committed_offset: *offset,
                        committed_metadata: metadata.clone(),
                    }],
                }],
            })
        }
        Request::OffsetFetch { group, topic, batched } => {
            let (name, topic_id) = named(topic);
            let topics = Some(vec![OffsetTopic { name, topic_id, partition_indexes: vec![0] }]);
            Served::OffsetFetch(if *batched {
                OffsetFetchAsk {
                    group_id: String::new(),
                    topics: None,
                    groups: vec![OffsetGroup { group_id: group.clone(), topics }],
                }
            } else {
                OffsetFetchAsk { group_id: group.clone(), topics, groups: Vec::new() }
            })
        }
        Request::JoinGroup { group, member_id } => Served::JoinGroup(JoinGroupAsk {
            group_id: group.clone(),
            member_id: member_id.clone(),
            protocol_type: "consumer".to_owned(),
            protocols: vec![Protocol { name: "range".to_owned(), metadata: vec![0, 1] }],
        }),
        Request::SyncGroup { group, generation, member_id, assignment } => {
            Served::SyncGroup(SyncGroupAsk {
                group_id: group.clone(),
                generation_id: *generation,
                member_id: member_id.clone(),
                assignments: vec![GivenAssignment {
                    member_id: member_id.clone(),
                    assignment: assignment.clone(),
                }],
            })
        }
        Request::Heartbeat { group, generation, member_id } => Served::Heartbeat(HeartbeatAsk {
            group_id: group.clone(),
            generation_id: *generation,
            member_id: member_id.clone(),
        }),
        Request::LeaveGroup { group, member_id } => Served::LeaveGroup(LeaveGroupAsk {
            group_id: group.clone(),
            member_id: String::new(),
            members: vec![member_id.clone()],
        }),
        Request::DescribeGroups { group } => {
            Served::DescribeGroups(DescribeGroupsAsk { groups: vec![group.clone()] })
        }
        Request::ConsumerGroupHeartbeat { group, member_id, epoch, subscribed } => {
            Served::ConsumerGroup(ConsumerGroupAsk {
                group_id: group.clone(),
                member_id: member_id.clone(),
                member_epoch: *epoch,
                subscribed: subscribed.clone().map(|name| vec![name]),
            })
        }
        Request::SaslHandshake { mechanism } => Served::SaslHandshake(mechanism.clone()),
        Request::SaslAuthenticate { token } => {
            let said = token_text(token);
            let made = match token_use(sasl, faults) {
                TokenUse::ScramFirst => match said.split_once(",r=") {
                    Some((_, nonce)) => Ok(format!(
                        "r={nonce}andours,s=c2FsdA==,i={}",
                        scram_iterations(faults)
                    )),
                    None => Err("no nonce".to_owned()),
                },
                TokenUse::ScramFinal => Ok("v=c2lnbmF0dXJl".to_owned()),
                TokenUse::Illegal | TokenUse::Accepted => Err("not for the mechanism".to_owned()),
            };
            Served::SaslAuthenticate(made)
        }
        Request::InitProducerId { transactional_id, .. } => {
            Served::InitProducerId(InitProducerIdAsk { transactional_id: transactional_id.clone() })
        }
        Request::AddPartitionsToTxn { actor, topic, partition } => {
            Served::AddPartitions(AddPartitionsAsk {
                transactional_id: actor.transactional_id.clone(),
                producer_epoch: actor.producer_epoch,
                topics: vec![TxnTopic { name: topic.clone(), partitions: vec![*partition] }],
            })
        }
        Request::AddOffsetsToTxn { actor, .. } => Served::AddOffsets(AddOffsetsAsk {
            transactional_id: actor.transactional_id.clone(),
            producer_epoch: actor.producer_epoch,
        }),
        Request::EndTxn { actor, committed } => Served::EndTxn(EndTxnAsk {
            transactional_id: actor.transactional_id.clone(),
            producer_epoch: actor.producer_epoch,
            committed: *committed,
        }),
        Request::TxnOffsetCommit { actor, group, topic, offset } => {
            Served::TxnOffsets(TxnOffsetsAsk {
                transactional_id: actor.transactional_id.clone(),
                group_id: group.clone(),
                producer_epoch: actor.producer_epoch,
                topics: vec![TxnOffsetTopic {
                    name: topic.clone(),
                    partitions: vec![CommitPartition {
                        partition_index: 0,
                        committed_offset: *offset,
                        committed_metadata: None,
                    }],
                }],
            })
        }
    }
}

fn code(code: i16) -> ErrorCode {
    ErrorCode { code, shown: format!("<{code}>") }
}

/// An answer as the suite reads it.
fn decoded(body: Body) -> Response {
    match body {
        Body::ApiVersions(r) => Response::ApiVersions(ApiVersionsAnswer {
            error: code(r.error_code),
            api_keys: r.api_keys,
        }),
        Body::Metadata(r) => Response::Metadata(MetadataAnswer {
            brokers: r
                .brokers
                .into_iter()
                .map(|b| BrokerRow { node_id: b.node_id, host: b.host, port: b.port })
                .collect(),
            controller_id: r.controller_id,
            topics: r
                .topics
                .into_iter()
                .map(|t| TopicRow {
                    name: t.name,
                    error: code(t.error_code),
                    topic_id: t.topic_id,
                    partitions: t
                        .partitions
                        .into_iter()
                        .map(|p| PartitionRow {
                            index: p.partition_index,
                            error: code(p.error_code),
                            leader_id: p.leader_id,
                            replicas: p.replica_nodes,
                            isr: p.isr_nodes,
                        })
                        .collect(),
                })
                .collect(),
        }),
        Body::CreateTopics(r) => Response::CreateTopics(
            r.topics
                .into_iter()
                .map(|t| CreatedRow {
                    error: code(t.error_code),
                    error_message: None,
                    topic_id: t.topic_id,
                })
                .collect(),
        ),
        Body::DeleteTopics(r) => {
            Response::DeleteTopics(r.responses.into_iter().map(|t| code(t.error_code)).collect())
        }
        Body::Produce(r) => Response::Produce(
            r.responses
                .into_iter()
                .map(|t| {
                    t.partitions
                        .into_iter()
                        .map(|p| ProducedRow {
                            error: code(p.error_code),
                            base_offset: p.base_offset,
                        })
                        .collect()
                })
                .collect(),
        ),
        Body::Fetch(r) => Response::Fetch(FetchAnswer {
            error: code(r.error_code),
            topics: r
                .responses
                .into_iter()
                .map(|t| FetchedTopic {
                    topic_id: t.topic_id,
                    partitions: t
                        .partitions
                        .into_iter()
                        .map(|p| match p.log {
                            Some(log) => FetchedRow {
                                error: code(p.error_code),
                                high_watermark: log.high_watermark,
                                last_stable_offset: log.last_stable_offset,
                                aborted: log
                                    .aborted_transactions
                                    .map(|rows| rows.into_iter().map(|(id, _)| id).collect()),
                                records: log.records,
                            },
                            None => FetchedRow {
                                error: code(p.error_code),
                                high_watermark: 0,
                                last_stable_offset: -1,
                                aborted: None,
                                records: None,
                            },
                        })
                        .collect(),
                })
                .collect(),
        }),
        Body::ListOffsets(r) => Response::ListOffsets(
            r.topics
                .into_iter()
                .map(|t| OffsetAnswer {
                    name: t.name,
                    partitions: t
                        .partitions
                        .into_iter()
                        .map(|p| OffsetRow { error: code(p.error_code), offset: p.offset })
                        .collect(),
                })
                .collect(),
        ),
        Body::FindCoordinator(r) => {
            let (error, host, port) = match r.one {
                Some(one) => (code(one.error_code), one.host, one.port),
                None => (code(0), String::new(), 0),
            };
            Response::FindCoordinator(FindCoordinatorAnswer {
                error,
                host,
                port,
                coordinators: r
                    .coordinators
                    .into_iter()
                    .map(|c| CoordinatorRow {
                        error: code(c.error_code),
                        key: c.key,
                        host: c.host,
                        port: c.port,
                    })
                    .collect(),
            })
        }
        Body::OffsetCommit(r) => Response::OffsetCommit(
            r.topics
                .into_iter()
                .map(|t| CommitAnswer {
                    name: t.name,
                    topic_id: t.topic_id,
                    partitions: t.partitions.into_iter().map(|p| code(p.error_code)).collect(),
                })
                .collect(),
        ),
        Body::OffsetFetch(r) => {
            let rows = |topics: Vec<odradek_acceptance::subject::replies::OffsetRows>| {
                topics
                    .into_iter()
                    .map(|t| CommittedTopic {
                        name: t.name,
                        topic_id: t.topic_id,
                        partitions: t
                            .partitions
                            .into_iter()
                            .map(|p| CommittedRow {
                                error: code(p.error_code),
                                offset: p.committed_offset,
                                metadata: p.metadata,
                            })
                            .collect(),
                    })
                    .collect::<Vec<_>>()
            };
            Response::OffsetFetch(OffsetFetchAnswer {
                topics: rows(r.topics),
                groups: r
                    .groups
                    .into_iter()
                    .map(|g| CommittedGroup {
                        group_id: g.group_id,
                        error: code(g.error_code),
                        topics: rows(g.topics),
                    })
                    .collect(),
            })
        }
        Body::JoinGroup(r) => Response::JoinGroup(JoinGroupAnswer {
            error: code(r.error_code),
            generation_id: r.generation_id,
            leader: r.leader,
            member_id: r.member_id,
        }),
        Body::SyncGroup(r) => Response::SyncGroup(SyncGroupAnswer {
            error: code(r.error_code),
            assignment: r.assignment,
        }),
        Body::DescribeGroups(r) => Response::DescribeGroups(
            r.groups
                .into_iter()
                .map(|g| DescribedRow {
                    group_id: g.group_id,
                    error: code(g.error_code),
                    group_state: g.group_state,
                    members: g.members.into_iter().map(|m| m.member_id).collect(),
                })
                .collect(),
        ),
        Body::ConsumerGroup(r) => Response::ConsumerGroup(ConsumerGroupAnswer {
            error: code(r.error_code),
            member_id: r.member_id,
            member_epoch: r.member_epoch,
            heartbeat_interval_ms: r.heartbeat_interval_ms,
            assignment: r.assignment.map(|rows| {
                rows.into_iter()
                    .map(|t| AssignedTopic { topic_id: t.topic_id, partitions: t.partitions })
                    .collect()
            }),
        }),
        Body::SaslHandshake(r) => Response::SaslHandshake(SaslHandshakeAnswer {
            error: code(r.error_code),
            mechanisms: r.mechanisms,
        }),
        Body::SaslAuthenticate(r) => Response::SaslAuthenticate(SaslAuthenticateAnswer {
            error: code(r.error_code),
            error_message: r.error_message,
            auth_bytes: r.auth_bytes,
        }),
        Body::InitProducerId(r) => Response::InitProducerId(InitProducerIdAnswer {
            error: code(r.error_code),
            producer_id: r.producer_id,
            producer_epoch: r.producer_epoch,
        }),
        Body::Code(c) => Response::Code(code(c)),
        Body::TxnCodes(r) => Response::Codes(
            r.topics
                .into_iter()
                .map(|t| t.partitions.into_iter().map(|p| code(p.error_code)).collect())
                .collect(),
        ),
    }
}

// ---- between the two ---------------------------------------------------

struct Conn {
    node_id: i32,
    sasl: SaslState,
    closed: bool,
    queued: Vec<Vec<u8>>,
}

struct World {
    state: ClusterState,
    faults: Vec<Fault>,
    conns: Vec<Conn>,
    clock: u128,
}

const FIRST_PORT: i32 = 9001;

impl World {
    fn new(faults: Vec<Fault>) -> World {
        let ports = (0..NODES as i32).map(|i| FIRST_PORT + i).collect();
        World {
            state: ClusterState::new(ports, faults.clone()),
            faults,
            conns: Vec::new(),
            clock: 1_000,
        }
    }

    fn node_at(&self, addr: &str) -> Option<i32> {
        let port: i32 = addr.strip_prefix("127.0.0.1:")?.parse().ok()?;
        let node_id = port - FIRST_PORT + 1;
        (1..=NODES as i32).contains(&node_id).then_some(node_id)
    }

    /// One exchange: the answer, and how long it was waited for.
    fn exchange(
        &mut self,
        conn: usize,
        version: i16,
        correlation: i32,
        request: &Request,
    ) -> (Answer, u64) {
        let node_id = self.conns[conn].node_id;
        let api_key = request.api_key();
        if self.conns[conn].closed
            || self.state.is_down(node_id)
            || !serves(&schema(), api_key, version)
        {
            self.conns[conn].closed = true;
            return (Answer::Close, 0);
        }
        let asked = Asked { correlation_id: correlation, api_version: version, header_version: 1 };
        let served = received(&self.state, &self.conns[conn].sasl, &self.faults, request);
        let mut waited = 1_000_000;
        if let Served::Fetch(ask) = &served {
            if let Some(ms) = fetch_wait(&self.state, ask, &self.faults) {
                waited += ms * 1_000_000;
            }
        }
        self.clock += u128::from(waited);
        let answer = serve(
            &mut self.state,
            &mut self.conns[conn].sasl,
            served,
            asked,
            &schema(),
            node_id,
            &self.faults,
        );
        if matches!(answer, Answer::Close) {
            self.conns[conn].closed = true;
        }
        (answer, waited)
    }

    /// What a reader makes of a frame that it takes for one of some versions.
    fn read(
        &self,
        sent: i32,
        header_version: i16,
        decode_at: i16,
        framing: Framing,
        body: Body,
    ) -> Result<Response, CheckError> {
        let as_written =
            framing.header_version == header_version && framing.encode_at == decode_at;
        let reading = Reading {
            echoed: Some(framing.correlation_id),
            header: Ok(()),
            body: if as_written { Ok(decoded(body)) } else { Err("ran out of body".to_owned()) },
            trailing: frame_payload(Vec::new(), &Vec::new(), framing.trailing_garbage).len(),
        };
        judge_reading(sent, header_version, decode_at, reading)
    }

    fn perform(&mut self, action: Action) -> Event {
        match action {
            ActionOf::Connect { addr } => match self.node_at(&addr) {
                Some(node_id) if !self.state.is_down(node_id) => {
                    self.conns.push(Conn {
                        node_id,
                        sasl: SaslState::Unstarted,
                        closed: false,
                        queued: Vec::new(),
                    });
                    Event::Connected(self.conns.len() - 1)
                }
                _ => Event::Refused("connection refused".to_owned()),
            },
            ActionOf::Call { conn, version, correlation, request } => {
                let (answer, nanos) = self.exchange(conn, version, correlation, &request);
                match answer {
                    Answer::Frame(framing, body) => {
                        let header = match request {
                            Request::ApiVersions => 0,
                            Request::Metadata { .. } => i16::from(version >= 9),
                            _ => 1,
                        };
                        match self.read(correlation, header, version, framing, body) {
                            Ok(response) => Event::Answer { response, nanos },
                            Err(e) => Event::Failed(e),
                        }
                    }
                    Answer::Silence => Event::Failed(from_wire(&WireError::Timeout)),
                    Answer::Close => {
                        Event::Failed(from_wire(&WireError::Io("early eof".to_owned())))
                    }
                }
            }
            ActionOf::Probe { conn, version, correlation, decode_at, .. } => {
                let (answer, nanos) =
                    self.exchange(conn, version, correlation, &Request::ApiVersions);
                match answer {
                    Answer::Frame(framing, body) => {
                        match self.read(correlation, 0, decode_at, framing, body) {
                            Ok(response) => Event::Answer { response, nanos },
                            Err(e) => Event::Failed(e),
                        }
                    }
                    _ => Event::Failed(from_wire(&WireError::Io("early eof".to_owned()))),
                }
            }
            ActionOf::Send { conn, version, correlation, request } => {
                if let (Answer::Frame(framing, _), _) =
                    self.exchange(conn, version, correlation, &request)
                {
                    let frame = framing.correlation_id.to_be_bytes().to_vec();
                    self.conns[conn].queued.push(frame);
                }
                Event::Sent
            }
            ActionOf::Read { conn } => {
                if self.conns[conn].queued.is_empty() {
                    Event::Failed(from_wire(&WireError::Timeout))
                } else {
                    Event::Frame(self.conns[conn].queued.remove(0))
                }
            }
            ActionOf::Pause => {
                self.clock += 100_000_000;
                Event::Paused
            }
            ActionOf::Stamp => {
                self.clock += 1;
                Event::Stamped(self.clock)
            }
            ActionOf::Encode { stamp } => Event::Encoded(encode_batch(&probe_batch(stamp))),
            ActionOf::EncodeRecords => {
                let batch = probe_batch(BatchStamp {
                    producer_id: -1,
                    producer_epoch: -1,
                    base_sequence: -1,
                    transactional: false,
                });
                match batch.records {
                    Records::Plain(records) => Event::Encoded(encode_records(&records)),
                    Records::Compressed { .. } => Event::Unencodable("compressed".to_owned()),
                }
            }
            ActionOf::EncodeGzip { payload } => Event::Encoded(encode_batch(&gzip_batch(payload))),
            ActionOf::Decode { bytes } => Event::Decoded(decode_set(&bytes)),
            ActionOf::Stop { node_id, .. } => {
                self.state.stop(node_id);
                for conn in &mut self.conns {
                    if conn.node_id == node_id {
                        conn.closed = true;
                    }
                }
                Event::Controlled(Ok(()))
            }
            ActionOf::Start { node_id, .. } => {
                self.state.start(node_id);
                Event::Controlled(Ok(()))
            }
            ActionOf::ScramFirst => {
                Event::Scram(Ok("n,,n=conformance,r=fyko+d2lbbFgONRv9qkxdawL".to_owned()))
            }
            ActionOf::ScramFinal { server_first } => {
                let nonce = server_first.split(',').next().unwrap_or_default().to_owned();
                Event::Scram(if nonce.starts_with("r=fyko+d2lbbFgONRv9qkxdawL") {
                    Ok(format!("c=biws,{nonce},p=cHJvb2Y="))
                } else {
                    Err("the server's nonce does not extend ours".to_owned())
                })
            }
            ActionOf::ScramVerify { server_final } => Event::Proved(if server_final.is_empty() {
                ScramProof::Unsigned
            } else if server_final == "v=c2lnbmF0dXJl" {
                ScramProof::Good
            } else {
                ScramProof::Bad("wrong signature".to_owned())
            }),
        }
    }
}

fn names() -> CodeNames {
    CodeNames {
        none: code(0).shown,
        not_coordinator: code(16).shown,
        offset_out_of_range: code(1).shown,
        not_leader_or_follower: code(6).shown,
        unknown_topic_or_partition: code(3).shown,
        leader_not_available: code(5).shown,
        unknown_topic_id: code(100).shown,
        replica_not_available: code(9).shown,
    }
}

fn context(world: &mut World) -> ServerCtx {
    let addr = format!("127.0.0.1:{FIRST_PORT}");
    let mut tape = Vec::new();
    let discovery = loop {
        match discover(&tape, &addr, schema().api_versions.max) {
            Ok(found) => break found,
            Err(action) => tape.push(world.perform(action)),
        }
    };
    ServerCtx {
        addr: addr.clone(),
        discovery,
        config: ProbeConfig {
            settle_budget: Wait { nanos: 500_000_000 },
            settle_delay: Wait { nanos: 100_000_000 },
            control: true,
            recovery_budget: Wait { nanos: 500_000_000 },
        },
        sasl_addr: Some(addr),
        schema: schema(),
        names: names(),
        pid: 42,
        run_id: "42-7".to_owned(),
    }
}

fn run_check(check: ServerCheck, ctx: &ServerCtx, world: &mut World) -> Verdict {
    let mut tape = Vec::new();
    loop {
        match check.step(ctx, &tape) {
            Step::Done(verdict) => return verdict,
            Step::Ask(action) => tape.push(world.perform(action)),
        }
        assert!(tape.len() < 5_000, "{} does not end", check.id());
    }
}

/// Every check's verdict against a subject with some faults, each check on
/// the subject that the ones before it left.
fn run_all(faults: Vec<Fault>) -> Vec<(ServerCheck, Verdict)> {
    let mut world = World::new(faults);
    let ctx = context(&mut world);
    server_checks()
        .into_iter()
        .map(|check| {
            let verdict = run_check(check, &ctx, &mut world);
            (check, verdict)
        })
        .collect()
}

fn failed(verdicts: &[(ServerCheck, Verdict)]) -> Vec<&'static str> {
    verdicts
        .iter()
        .filter(|(_, verdict)| matches!(verdict, Verdict::Fail { .. }))
        .map(|(check, _)| check.id())
        .collect()
}

#[test]
fn the_conformant_subject_passes_every_check() {
    for (check, came) in run_all(Vec::new()) {
        assert!(matches!(came, Verdict::Pass), "{}: {came:?}", check.id());
    }
}

/// The check that is there to catch a fault. The suite has a check for one
/// codec; the faults on the others are caught by none.
fn target(fault: Fault) -> Option<&'static str> {
    Some(match fault {
        Fault::WrongCorrelationEcho => "api-versions/correlation-echo",
        Fault::InvertedVersionRange => "api-versions/v0-basic",
        Fault::OmitApiVersionsKey => "api-versions/v0-basic",
        Fault::WrongErrorOnUnsupportedVersion => "api-versions/unsupported-version-error",
        Fault::ErrorBodyNotV0 => "api-versions/unsupported-version-error",
        Fault::AdvertiseWrongMaxInError => "api-versions/unsupported-version-error",
        Fault::TrailingGarbage => "api-versions/v0-basic",
        Fault::FetchTrailingGarbage => "fetch/batch-integrity",
        Fault::FlexibleHeaderOnV3 => "api-versions/flexible-v3",
        Fault::MetadataEmptyBrokers => "metadata/basic",
        Fault::MetadataUnrequestedTopic => "metadata/basic",
        Fault::MetadataNonFlexibleHeader => "metadata/flexible-response-header",
        Fault::ProduceWrongBaseOffset => "produce/basic",
        Fault::FetchCorruptBatch => "fetch/batch-integrity",
        Fault::ProduceTopicIdUnknown => "produce/topic-id",
        Fault::FetchWrongTopicId => "fetch/topic-id",
        Fault::ProduceAnswersAcksZero => "produce/acks-zero-is-silent",
        Fault::MetadataRemintsTopicId => "metadata/topic-id-is-stable",
        Fault::ProduceAcceptsFencedEpoch => "txn/fenced-producer-cannot-produce",
        Fault::TxnCommitMarksAborted => "txn/commit-is-visible-to-readers",
        Fault::TxnOffsetsPublishImmediately => "txn/offsets-wait-for-the-commit",
        Fault::ProduceRewritesGzipBatches => "produce/compressed-batch-passthrough",
        Fault::ProduceRewritesSnappyBatches
        | Fault::ProduceRewritesLz4Batches
        | Fault::ProduceRewritesZstdBatches => return None,
        Fault::FetchIgnoresMaxWait => "fetch/long-poll-contract",
        Fault::MetadataLeaderIsUnknown => "metadata/leader-is-a-known-broker",
        Fault::DescribeGroupsHidesMembers => "admin/describe-groups-reports-members",
        Fault::OffsetCommitDropsMetadata => "offsets/metadata-round-trips",
        Fault::LeaveGroupKeepsTheMember => "groups/leave-unregisters-the-member",
        Fault::CreateTopicsIgnoresReplicationFactor => "create-topics/impossible-replication",
        Fault::ListOffsetsTimestampReturnsLogEnd => "list-offsets/by-timestamp",
        Fault::DeleteTopicsKeepsTheTopic => "admin/delete-topics-removes-the-topic",
        Fault::ProduceAppendsIdempotentRetries => "produce/idempotent-retry-is-deduped",
        Fault::ProduceAcceptsSequenceGaps => "produce/sequence-gap-is-refused",
        Fault::TxnInitReusesEpoch => "txn/init-bumps-the-epoch",
        Fault::TxnIgnoresProducerEpoch => "txn/stale-epoch-is-fenced",
        Fault::TxnUnannouncedWriteEscapes => "txn/unannounced-write-stays-in-the-transaction",
        Fault::TxnStableOffsetIgnoresOpenTxn => "txn/open-transaction-holds-the-stable-offset",
        Fault::TxnAbortListOmitted => "txn/abort-is-reported-to-readers",
        Fault::ListOffsetsWrongEarliest => "list-offsets/earliest-latest",
        Fault::FindCoordinatorWrongKey => "find-coordinator/group",
        Fault::OffsetFetchLosesCommit => "offsets/commit-fetch-roundtrip",
        Fault::OffsetFetchUnsetIsZero => "offsets/unset-is-sentinel",
        Fault::FetchCorruptOnOldVersions => "fetch/batch-integrity",
        Fault::FetchPastEndSucceeds => "fetch/offset-out-of-range",
        Fault::MetadataUnknownTopicOmitted => "metadata/unknown-topic",
        Fault::CreateTopicsDuplicateSucceeds => "create-topics/duplicate",
        Fault::CreateTopicsValidateOnlyCreates => "create-topics/validate-only",
        Fault::JoinGroupAcceptsEmptyMemberId => "groups/member-id-required",
        Fault::SyncGroupRewritesAssignment => "groups/assignment-round-trips",
        Fault::GroupIgnoresGeneration => "groups/stale-generation-fenced",
        Fault::ConsumerGroupEpochStuck => "consumer-group/epoch-advances",
        Fault::ConsumerGroupNullSubscriptionRevokes => {
            "consumer-group/omitted-subscription-is-unchanged"
        }
        Fault::ConsumerGroupAssignsNothing => "consumer-group/assigns-subscription",
        Fault::ConsumerGroupIgnoresEpoch => "consumer-group/fenced-epoch",
        Fault::SaslHandshakeHidesMechanisms => "sasl/refusal-names-mechanisms",
        Fault::SaslAuthenticateWithoutHandshake => "sasl/authenticate-requires-handshake",
        Fault::ScramNonceReplacesClients => "sasl/scram-nonce-extends-client",
        Fault::ScramWeakIterations => "sasl/scram-iteration-floor",
        Fault::ScramSkipsServerSignature => "sasl/scram-server-proves-itself",
        Fault::BrokersDisagreeOnLeader => "cluster/brokers-agree-on-the-leader",
        Fault::ReplicasCollapseToTheLeader => "cluster/replicas-span-brokers",
        Fault::CoordinatorIsWhoeverAsked => "cluster/brokers-agree-on-the-coordinator",
        Fault::AnyBrokerAcceptsWrites => "cluster/writes-go-to-the-leader",
        Fault::AnyBrokerServesGroups => "cluster/group-offsets-need-the-coordinator",
        Fault::LeadershipStaysWithTheStoppedBroker => {
            "cluster/leadership-moves-when-a-broker-stops"
        }
        Fault::OffsetsDieWithTheirCoordinator => {
            "cluster/committed-offsets-outlive-the-coordinator"
        }
        Fault::MisshapesOneProduceVersion => "versions/advertised-versions-are-speakable",
    })
}

#[test]
fn every_fault_is_caught_by_the_check_that_is_there_for_it() {
    for fault in Fault::all() {
        let verdicts = run_all(vec![fault]);
        match target(fault) {
            Some(id) => assert!(failed(&verdicts).contains(&id), "{fault:?} escapes {id}"),
            None => assert!(failed(&verdicts).is_empty(), "{fault:?} is caught"),
        }
    }
}

#[test]
fn every_check_has_a_fault_that_it_catches() {
    let mut caught: Vec<&'static str> = Fault::all().into_iter().filter_map(target).collect();
    caught.sort_unstable();
    caught.dedup();
    assert_eq!(caught.len(), server_checks().len());
    for check in server_checks() {
        assert!(caught.contains(&check.id()), "nothing trips {}", check.id());
    }
}

/// Faults in what other checks do not build on.
#[test]
fn a_narrow_fault_trips_its_check_and_no_other() {
    let narrow = [
        Fault::WrongErrorOnUnsupportedVersion,
        Fault::ErrorBodyNotV0,
        Fault::AdvertiseWrongMaxInError,
        Fault::FlexibleHeaderOnV3,
        Fault::MetadataUnrequestedTopic,
        Fault::ProduceTopicIdUnknown,
        Fault::FetchWrongTopicId,
        Fault::ProduceAnswersAcksZero,
        Fault::MetadataRemintsTopicId,
        Fault::ProduceAcceptsFencedEpoch,
        Fault::TxnCommitMarksAborted,
        Fault::TxnOffsetsPublishImmediately,
        Fault::ProduceRewritesGzipBatches,
        Fault::FetchIgnoresMaxWait,
        Fault::DescribeGroupsHidesMembers,
        Fault::OffsetCommitDropsMetadata,
        Fault::LeaveGroupKeepsTheMember,
        Fault::CreateTopicsIgnoresReplicationFactor,
        Fault::ListOffsetsTimestampReturnsLogEnd,
        Fault::DeleteTopicsKeepsTheTopic,
        Fault::ProduceAppendsIdempotentRetries,
        Fault::ProduceAcceptsSequenceGaps,
        Fault::TxnInitReusesEpoch,
        Fault::TxnIgnoresProducerEpoch,
        Fault::TxnUnannouncedWriteEscapes,
        Fault::TxnStableOffsetIgnoresOpenTxn,
        Fault::FindCoordinatorWrongKey,
        Fault::OffsetFetchUnsetIsZero,
        Fault::FetchCorruptOnOldVersions,
        Fault::FetchPastEndSucceeds,
        Fault::MetadataUnknownTopicOmitted,
        Fault::CreateTopicsDuplicateSucceeds,
        Fault::CreateTopicsValidateOnlyCreates,
        Fault::JoinGroupAcceptsEmptyMemberId,
        Fault::SyncGroupRewritesAssignment,
        Fault::GroupIgnoresGeneration,
        Fault::ConsumerGroupEpochStuck,
        Fault::ConsumerGroupNullSubscriptionRevokes,
        Fault::ConsumerGroupIgnoresEpoch,
        Fault::SaslHandshakeHidesMechanisms,
        Fault::SaslAuthenticateWithoutHandshake,
        Fault::ScramWeakIterations,
        Fault::ScramSkipsServerSignature,
        Fault::AnyBrokerAcceptsWrites,
        Fault::AnyBrokerServesGroups,
        Fault::LeadershipStaysWithTheStoppedBroker,
        Fault::OffsetsDieWithTheirCoordinator,
        Fault::MisshapesOneProduceVersion,
    ];
    for fault in narrow {
        let verdicts = run_all(vec![fault]);
        assert_eq!(failed(&verdicts), vec![target(fault).unwrap()], "{fault:?}");
    }
}

#[test]
fn a_subject_that_cannot_be_reached_errs_and_fails_nothing() {
    let mut world = World::new(Vec::new());
    for node_id in 1..=NODES as i32 {
        world.state.stop(node_id);
    }
    let ctx = context(&mut world);
    assert_eq!(
        ctx.discovery.as_ref().err().map(String::as_str),
        Some("discovery (ApiVersions v0): connect 127.0.0.1:9001: connection refused")
    );
    for check in server_checks() {
        let came = run_check(check, &ctx, &mut world);
        assert!(matches!(came, Verdict::Error { .. }), "{}: {came:?}", check.id());
    }
}

#[test]
fn the_report_lists_the_verdicts_in_run_order() {
    let verdicts: Vec<Verdict> = run_all(Vec::new()).into_iter().map(|(_, v)| v).collect();
    let report = server_report("127.0.0.1:9001", verdicts);
    assert_eq!(report.subject, "server 127.0.0.1:9001");
    assert_eq!(report.passed(), 59);
    assert!(report.is_conformant());
}

/// Runs a check where `answer` stands in for some of what the subject says.
fn run_with(
    check: ServerCheck,
    answer: impl Fn(&Action) -> Option<Event>,
) -> (Verdict, Vec<Action>) {
    let mut world = World::new(Vec::new());
    let ctx = context(&mut world);
    let mut tape = Vec::new();
    let mut controls = Vec::new();
    loop {
        match check.step(&ctx, &tape) {
            Step::Done(verdict) => return (verdict, controls),
            Step::Ask(action) => {
                let event = answer(&action);
                if matches!(action, ActionOf::Stop { .. } | ActionOf::Start { .. }) {
                    controls.push(action);
                    tape.push(event.unwrap_or(Event::Controlled(Ok(()))));
                } else {
                    tape.push(event.unwrap_or_else(|| world.perform(action)));
                }
            }
        }
    }
}

#[test]
fn a_broker_is_started_even_where_its_stop_failed() {
    for check in [
        ServerCheck::ClusterLeadershipMovesWhenABrokerStops,
        ServerCheck::ClusterCommittedOffsetsOutliveTheCoordinator,
    ] {
        let (verdict, controls) = run_with(check, |action| match action {
            ActionOf::Stop { .. } => Some(Event::Controlled(Err("timed out".to_owned()))),
            _ => None,
        });
        let (stopped, at) = match &controls[..] {
            [ActionOf::Stop { node_id, addr }, ActionOf::Start { node_id: back, addr: there }] => {
                assert_eq!((node_id, addr), (back, there));
                (*node_id, addr.clone())
            }
            other => panic!("{other:?}"),
        };
        assert_eq!(
            verdict,
            Verdict::Error { details: format!("could not stop node {stopped} at {at}: timed out") }
        );
        let (verdict, _) = run_with(check, |action| match action {
            ActionOf::Stop { .. } | ActionOf::Start { .. } => {
                Some(Event::Controlled(Err("gone".to_owned())))
            }
            _ => None,
        });
        match verdict {
            Verdict::Error { details } => {
                assert!(details.contains("could not be restarted after the check (gone)"));
            }
            other => panic!("{other:?}"),
        }
    }
}

#[test]
fn only_a_fenced_epoch_is_the_right_refusal() {
    let answered = |code_sent: i16| {
        run_with(ServerCheck::ConsumerGroupFencedEpoch, |action| match action {
            ActionOf::Call { correlation: 191, .. } => Some(Event::Answer {
                response: Response::ConsumerGroup(ConsumerGroupAnswer {
                    error: code(code_sent),
                    member_id: None,
                    member_epoch: 1,
                    heartbeat_interval_ms: 0,
                    assignment: None,
                }),
                nanos: 0,
            }),
            _ => None,
        })
        .0
    };
    assert_eq!(answered(110), Verdict::Pass);
    assert_eq!(
        answered(25),
        Verdict::Fail {
            details: format!("a bogus epoch answered {}, expected FENCED_MEMBER_EPOCH", code(25).shown)
        }
    );
}
