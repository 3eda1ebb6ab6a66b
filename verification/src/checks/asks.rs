//! Exchanges by the kind of answer they get.

use vstd::prelude::*;

use crate::checks::tape;
use crate::checks::tape::{astray, call, Action, ActionOf, Event, Flow, FlowView, Label};
use crate::wire::{
    ApiVersionsAnswer, CommitTopic, ConsumerGroupAnswer, CreatedRow, DescribedRow, ErrorCode,
    FetchAnswer, FindCoordinatorAnswer, InitProducerIdAnswer, JoinGroupAnswer, MetadataAnswer,
    OffsetFetchAnswer, OffsetTopic, ProducedRow, Response, SaslAuthenticateAnswer,
    SaslHandshakeAnswer, SyncGroupAnswer,
};

verus! {

pub open spec fn spec_ask_api_versions(
    tape: Seq<Event>,
    at: int,
    label: Label<Seq<char>>,
    action: ActionOf<Seq<char>, Seq<u8>>,
) -> FlowView<ApiVersionsAnswer> {
    match tape::spec_call(tape, at, label, action) {
        Ok((Response::ApiVersions(answer), next)) => Ok((answer, next)),
        Ok((_, next)) => Err(tape::spec_astray(next)),
        Err(halt) => Err(halt),
    }
}

pub fn ask_api_versions<'a>(
    tape: &'a Vec<Event>,
    at: usize,
    label: Label<&str>,
    action: Action,
) -> (r: Flow<
    &'a ApiVersionsAnswer,
>)
    ensures
        tape::read(r) == spec_ask_api_versions(tape@, at as int, label@, action@),
{
    match call(tape, at, label, action) {
        Ok((Response::ApiVersions(answer), next)) => Ok((answer, next)),
        Ok((_, next)) => Err(astray(next)),
        Err(halt) => Err(halt),
    }
}

pub open spec fn spec_ask_metadata(
    tape: Seq<Event>,
    at: int,
    label: Label<Seq<char>>,
    action: ActionOf<Seq<char>, Seq<u8>>,
) -> FlowView<MetadataAnswer> {
    match tape::spec_call(tape, at, label, action) {
        Ok((Response::Metadata(answer), next)) => Ok((answer, next)),
        Ok((_, next)) => Err(tape::spec_astray(next)),
        Err(halt) => Err(halt),
    }
}

pub fn ask_metadata<'a>(
    tape: &'a Vec<Event>,
    at: usize,
    label: Label<&str>,
    action: Action,
) -> (r: Flow<
    &'a MetadataAnswer,
>)
    ensures
        tape::read(r) == spec_ask_metadata(tape@, at as int, label@, action@),
{
    match call(tape, at, label, action) {
        Ok((Response::Metadata(answer), next)) => Ok((answer, next)),
        Ok((_, next)) => Err(astray(next)),
        Err(halt) => Err(halt),
    }
}

pub open spec fn spec_ask_create_topics(
    tape: Seq<Event>,
    at: int,
    label: Label<Seq<char>>,
    action: ActionOf<Seq<char>, Seq<u8>>,
) -> FlowView<Vec<CreatedRow>> {
    match tape::spec_call(tape, at, label, action) {
        Ok((Response::CreateTopics(answer), next)) => Ok((answer, next)),
        Ok((_, next)) => Err(tape::spec_astray(next)),
        Err(halt) => Err(halt),
    }
}

pub fn ask_create_topics<'a>(
    tape: &'a Vec<Event>,
    at: usize,
    label: Label<&str>,
    action: Action,
) -> (r: Flow<
    &'a Vec<CreatedRow>,
>)
    ensures
        tape::read(r) == spec_ask_create_topics(tape@, at as int, label@, action@),
{
    match call(tape, at, label, action) {
        Ok((Response::CreateTopics(answer), next)) => Ok((answer, next)),
        Ok((_, next)) => Err(astray(next)),
        Err(halt) => Err(halt),
    }
}

pub open spec fn spec_ask_delete_topics(
    tape: Seq<Event>,
    at: int,
    label: Label<Seq<char>>,
    action: ActionOf<Seq<char>, Seq<u8>>,
) -> FlowView<Vec<ErrorCode>> {
    match tape::spec_call(tape, at, label, action) {
        Ok((Response::DeleteTopics(answer), next)) => Ok((answer, next)),
        Ok((_, next)) => Err(tape::spec_astray(next)),
        Err(halt) => Err(halt),
    }
}

pub fn ask_delete_topics<'a>(
    tape: &'a Vec<Event>,
    at: usize,
    label: Label<&str>,
    action: Action,
) -> (r: Flow<
    &'a Vec<ErrorCode>,
>)
    ensures
        tape::read(r) == spec_ask_delete_topics(tape@, at as int, label@, action@),
{
    match call(tape, at, label, action) {
        Ok((Response::DeleteTopics(answer), next)) => Ok((answer, next)),
        Ok((_, next)) => Err(astray(next)),
        Err(halt) => Err(halt),
    }
}

pub open spec fn spec_ask_produce(
    tape: Seq<Event>,
    at: int,
    label: Label<Seq<char>>,
    action: ActionOf<Seq<char>, Seq<u8>>,
) -> FlowView<Vec<Vec<ProducedRow>>> {
    match tape::spec_call(tape, at, label, action) {
        Ok((Response::Produce(answer), next)) => Ok((answer, next)),
        Ok((_, next)) => Err(tape::spec_astray(next)),
        Err(halt) => Err(halt),
    }
}

pub fn ask_produce<'a>(
    tape: &'a Vec<Event>,
    at: usize,
    label: Label<&str>,
    action: Action,
) -> (r: Flow<
    &'a Vec<Vec<ProducedRow>>,
>)
    ensures
        tape::read(r) == spec_ask_produce(tape@, at as int, label@, action@),
{
    match call(tape, at, label, action) {
        Ok((Response::Produce(answer), next)) => Ok((answer, next)),
        Ok((_, next)) => Err(astray(next)),
        Err(halt) => Err(halt),
    }
}

pub open spec fn spec_ask_fetch(
    tape: Seq<Event>,
    at: int,
    label: Label<Seq<char>>,
    action: ActionOf<Seq<char>, Seq<u8>>,
) -> FlowView<FetchAnswer> {
    match tape::spec_call(tape, at, label, action) {
        Ok((Response::Fetch(answer), next)) => Ok((answer, next)),
        Ok((_, next)) => Err(tape::spec_astray(next)),
        Err(halt) => Err(halt),
    }
}

pub fn ask_fetch<'a>(
    tape: &'a Vec<Event>,
    at: usize,
    label: Label<&str>,
    action: Action,
) -> (r: Flow<
    &'a FetchAnswer,
>)
    ensures
        tape::read(r) == spec_ask_fetch(tape@, at as int, label@, action@),
{
    match call(tape, at, label, action) {
        Ok((Response::Fetch(answer), next)) => Ok((answer, next)),
        Ok((_, next)) => Err(astray(next)),
        Err(halt) => Err(halt),
    }
}

pub open spec fn spec_ask_list_offsets(
    tape: Seq<Event>,
    at: int,
    label: Label<Seq<char>>,
    action: ActionOf<Seq<char>, Seq<u8>>,
) -> FlowView<Vec<OffsetTopic>> {
    match tape::spec_call(tape, at, label, action) {
        Ok((Response::ListOffsets(answer), next)) => Ok((answer, next)),
        Ok((_, next)) => Err(tape::spec_astray(next)),
        Err(halt) => Err(halt),
    }
}

pub fn ask_list_offsets<'a>(
    tape: &'a Vec<Event>,
    at: usize,
    label: Label<&str>,
    action: Action,
) -> (r: Flow<
    &'a Vec<OffsetTopic>,
>)
    ensures
        tape::read(r) == spec_ask_list_offsets(tape@, at as int, label@, action@),
{
    match call(tape, at, label, action) {
        Ok((Response::ListOffsets(answer), next)) => Ok((answer, next)),
        Ok((_, next)) => Err(astray(next)),
        Err(halt) => Err(halt),
    }
}

pub open spec fn spec_ask_find_coordinator(
    tape: Seq<Event>,
    at: int,
    label: Label<Seq<char>>,
    action: ActionOf<Seq<char>, Seq<u8>>,
) -> FlowView<FindCoordinatorAnswer> {
    match tape::spec_call(tape, at, label, action) {
        Ok((Response::FindCoordinator(answer), next)) => Ok((answer, next)),
        Ok((_, next)) => Err(tape::spec_astray(next)),
        Err(halt) => Err(halt),
    }
}

pub fn ask_find_coordinator<'a>(
    tape: &'a Vec<Event>,
    at: usize,
    label: Label<&str>,
    action: Action,
) -> (r: Flow<
    &'a FindCoordinatorAnswer,
>)
    ensures
        tape::read(r) == spec_ask_find_coordinator(tape@, at as int, label@, action@),
{
    match call(tape, at, label, action) {
        Ok((Response::FindCoordinator(answer), next)) => Ok((answer, next)),
        Ok((_, next)) => Err(astray(next)),
        Err(halt) => Err(halt),
    }
}

pub open spec fn spec_ask_offset_commit(
    tape: Seq<Event>,
    at: int,
    label: Label<Seq<char>>,
    action: ActionOf<Seq<char>, Seq<u8>>,
) -> FlowView<Vec<CommitTopic>> {
    match tape::spec_call(tape, at, label, action) {
        Ok((Response::OffsetCommit(answer), next)) => Ok((answer, next)),
        Ok((_, next)) => Err(tape::spec_astray(next)),
        Err(halt) => Err(halt),
    }
}

pub fn ask_offset_commit<'a>(
    tape: &'a Vec<Event>,
    at: usize,
    label: Label<&str>,
    action: Action,
) -> (r: Flow<
    &'a Vec<CommitTopic>,
>)
    ensures
        tape::read(r) == spec_ask_offset_commit(tape@, at as int, label@, action@),
{
    match call(tape, at, label, action) {
        Ok((Response::OffsetCommit(answer), next)) => Ok((answer, next)),
        Ok((_, next)) => Err(astray(next)),
        Err(halt) => Err(halt),
    }
}

pub open spec fn spec_ask_offset_fetch(
    tape: Seq<Event>,
    at: int,
    label: Label<Seq<char>>,
    action: ActionOf<Seq<char>, Seq<u8>>,
) -> FlowView<OffsetFetchAnswer> {
    match tape::spec_call(tape, at, label, action) {
        Ok((Response::OffsetFetch(answer), next)) => Ok((answer, next)),
        Ok((_, next)) => Err(tape::spec_astray(next)),
        Err(halt) => Err(halt),
    }
}

pub fn ask_offset_fetch<'a>(
    tape: &'a Vec<Event>,
    at: usize,
    label: Label<&str>,
    action: Action,
) -> (r: Flow<
    &'a OffsetFetchAnswer,
>)
    ensures
        tape::read(r) == spec_ask_offset_fetch(tape@, at as int, label@, action@),
{
    match call(tape, at, label, action) {
        Ok((Response::OffsetFetch(answer), next)) => Ok((answer, next)),
        Ok((_, next)) => Err(astray(next)),
        Err(halt) => Err(halt),
    }
}

pub open spec fn spec_ask_join_group(
    tape: Seq<Event>,
    at: int,
    label: Label<Seq<char>>,
    action: ActionOf<Seq<char>, Seq<u8>>,
) -> FlowView<JoinGroupAnswer> {
    match tape::spec_call(tape, at, label, action) {
        Ok((Response::JoinGroup(answer), next)) => Ok((answer, next)),
        Ok((_, next)) => Err(tape::spec_astray(next)),
        Err(halt) => Err(halt),
    }
}

pub fn ask_join_group<'a>(
    tape: &'a Vec<Event>,
    at: usize,
    label: Label<&str>,
    action: Action,
) -> (r: Flow<
    &'a JoinGroupAnswer,
>)
    ensures
        tape::read(r) == spec_ask_join_group(tape@, at as int, label@, action@),
{
    match call(tape, at, label, action) {
        Ok((Response::JoinGroup(answer), next)) => Ok((answer, next)),
        Ok((_, next)) => Err(astray(next)),
        Err(halt) => Err(halt),
    }
}

pub open spec fn spec_ask_sync_group(
    tape: Seq<Event>,
    at: int,
    label: Label<Seq<char>>,
    action: ActionOf<Seq<char>, Seq<u8>>,
) -> FlowView<SyncGroupAnswer> {
    match tape::spec_call(tape, at, label, action) {
        Ok((Response::SyncGroup(answer), next)) => Ok((answer, next)),
        Ok((_, next)) => Err(tape::spec_astray(next)),
        Err(halt) => Err(halt),
    }
}

pub fn ask_sync_group<'a>(
    tape: &'a Vec<Event>,
    at: usize,
    label: Label<&str>,
    action: Action,
) -> (r: Flow<
    &'a SyncGroupAnswer,
>)
    ensures
        tape::read(r) == spec_ask_sync_group(tape@, at as int, label@, action@),
{
    match call(tape, at, label, action) {
        Ok((Response::SyncGroup(answer), next)) => Ok((answer, next)),
        Ok((_, next)) => Err(astray(next)),
        Err(halt) => Err(halt),
    }
}

pub open spec fn spec_ask_describe_groups(
    tape: Seq<Event>,
    at: int,
    label: Label<Seq<char>>,
    action: ActionOf<Seq<char>, Seq<u8>>,
) -> FlowView<Vec<DescribedRow>> {
    match tape::spec_call(tape, at, label, action) {
        Ok((Response::DescribeGroups(answer), next)) => Ok((answer, next)),
        Ok((_, next)) => Err(tape::spec_astray(next)),
        Err(halt) => Err(halt),
    }
}

pub fn ask_describe_groups<'a>(
    tape: &'a Vec<Event>,
    at: usize,
    label: Label<&str>,
    action: Action,
) -> (r: Flow<
    &'a Vec<DescribedRow>,
>)
    ensures
        tape::read(r) == spec_ask_describe_groups(tape@, at as int, label@, action@),
{
    match call(tape, at, label, action) {
        Ok((Response::DescribeGroups(answer), next)) => Ok((answer, next)),
        Ok((_, next)) => Err(astray(next)),
        Err(halt) => Err(halt),
    }
}

pub open spec fn spec_ask_consumer_group(
    tape: Seq<Event>,
    at: int,
    label: Label<Seq<char>>,
    action: ActionOf<Seq<char>, Seq<u8>>,
) -> FlowView<ConsumerGroupAnswer> {
    match tape::spec_call(tape, at, label, action) {
        Ok((Response::ConsumerGroup(answer), next)) => Ok((answer, next)),
        Ok((_, next)) => Err(tape::spec_astray(next)),
        Err(halt) => Err(halt),
    }
}

pub fn ask_consumer_group<'a>(
    tape: &'a Vec<Event>,
    at: usize,
    label: Label<&str>,
    action: Action,
) -> (r: Flow<
    &'a ConsumerGroupAnswer,
>)
    ensures
        tape::read(r) == spec_ask_consumer_group(tape@, at as int, label@, action@),
{
    match call(tape, at, label, action) {
        Ok((Response::ConsumerGroup(answer), next)) => Ok((answer, next)),
        Ok((_, next)) => Err(astray(next)),
        Err(halt) => Err(halt),
    }
}

pub open spec fn spec_ask_sasl_handshake(
    tape: Seq<Event>,
    at: int,
    label: Label<Seq<char>>,
    action: ActionOf<Seq<char>, Seq<u8>>,
) -> FlowView<SaslHandshakeAnswer> {
    match tape::spec_call(tape, at, label, action) {
        Ok((Response::SaslHandshake(answer), next)) => Ok((answer, next)),
        Ok((_, next)) => Err(tape::spec_astray(next)),
        Err(halt) => Err(halt),
    }
}

pub fn ask_sasl_handshake<'a>(
    tape: &'a Vec<Event>,
    at: usize,
    label: Label<&str>,
    action: Action,
) -> (r: Flow<
    &'a SaslHandshakeAnswer,
>)
    ensures
        tape::read(r) == spec_ask_sasl_handshake(tape@, at as int, label@, action@),
{
    match call(tape, at, label, action) {
        Ok((Response::SaslHandshake(answer), next)) => Ok((answer, next)),
        Ok((_, next)) => Err(astray(next)),
        Err(halt) => Err(halt),
    }
}

pub open spec fn spec_ask_sasl_authenticate(
    tape: Seq<Event>,
    at: int,
    label: Label<Seq<char>>,
    action: ActionOf<Seq<char>, Seq<u8>>,
) -> FlowView<SaslAuthenticateAnswer> {
    match tape::spec_call(tape, at, label, action) {
        Ok((Response::SaslAuthenticate(answer), next)) => Ok((answer, next)),
        Ok((_, next)) => Err(tape::spec_astray(next)),
        Err(halt) => Err(halt),
    }
}

pub fn ask_sasl_authenticate<'a>(
    tape: &'a Vec<Event>,
    at: usize,
    label: Label<&str>,
    action: Action,
) -> (r: Flow<
    &'a SaslAuthenticateAnswer,
>)
    ensures
        tape::read(r) == spec_ask_sasl_authenticate(tape@, at as int, label@, action@),
{
    match call(tape, at, label, action) {
        Ok((Response::SaslAuthenticate(answer), next)) => Ok((answer, next)),
        Ok((_, next)) => Err(astray(next)),
        Err(halt) => Err(halt),
    }
}

pub open spec fn spec_ask_init_producer_id(
    tape: Seq<Event>,
    at: int,
    label: Label<Seq<char>>,
    action: ActionOf<Seq<char>, Seq<u8>>,
) -> FlowView<InitProducerIdAnswer> {
    match tape::spec_call(tape, at, label, action) {
        Ok((Response::InitProducerId(answer), next)) => Ok((answer, next)),
        Ok((_, next)) => Err(tape::spec_astray(next)),
        Err(halt) => Err(halt),
    }
}

pub fn ask_init_producer_id<'a>(
    tape: &'a Vec<Event>,
    at: usize,
    label: Label<&str>,
    action: Action,
) -> (r: Flow<
    &'a InitProducerIdAnswer,
>)
    ensures
        tape::read(r) == spec_ask_init_producer_id(tape@, at as int, label@, action@),
{
    match call(tape, at, label, action) {
        Ok((Response::InitProducerId(answer), next)) => Ok((answer, next)),
        Ok((_, next)) => Err(astray(next)),
        Err(halt) => Err(halt),
    }
}

pub open spec fn spec_ask_code(
    tape: Seq<Event>,
    at: int,
    label: Label<Seq<char>>,
    action: ActionOf<Seq<char>, Seq<u8>>,
) -> FlowView<ErrorCode> {
    match tape::spec_call(tape, at, label, action) {
        Ok((Response::Code(answer), next)) => Ok((answer, next)),
        Ok((_, next)) => Err(tape::spec_astray(next)),
        Err(halt) => Err(halt),
    }
}

pub fn ask_code<'a>(
    tape: &'a Vec<Event>,
    at: usize,
    label: Label<&str>,
    action: Action,
) -> (r: Flow<
    &'a ErrorCode,
>)
    ensures
        tape::read(r) == spec_ask_code(tape@, at as int, label@, action@),
{
    match call(tape, at, label, action) {
        Ok((Response::Code(answer), next)) => Ok((answer, next)),
        Ok((_, next)) => Err(astray(next)),
        Err(halt) => Err(halt),
    }
}

pub open spec fn spec_ask_codes(
    tape: Seq<Event>,
    at: int,
    label: Label<Seq<char>>,
    action: ActionOf<Seq<char>, Seq<u8>>,
) -> FlowView<Vec<Vec<ErrorCode>>> {
    match tape::spec_call(tape, at, label, action) {
        Ok((Response::Codes(answer), next)) => Ok((answer, next)),
        Ok((_, next)) => Err(tape::spec_astray(next)),
        Err(halt) => Err(halt),
    }
}

pub fn ask_codes<'a>(
    tape: &'a Vec<Event>,
    at: usize,
    label: Label<&str>,
    action: Action,
) -> (r: Flow<
    &'a Vec<Vec<ErrorCode>>,
>)
    ensures
        tape::read(r) == spec_ask_codes(tape@, at as int, label@, action@),
{
    match call(tape, at, label, action) {
        Ok((Response::Codes(answer), next)) => Ok((answer, next)),
        Ok((_, next)) => Err(astray(next)),
        Err(halt) => Err(halt),
    }
}

} // verus!
