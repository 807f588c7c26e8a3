//! The queues between a client and its connection.

use crossbeam::queue::SegQueue;
use serde_json::Value;
use vstd::prelude::*;

use crate::realtime::{Command, PostgresPayload};

verus! {

/// A queue of the `crossbeam` crate.
#[verifier::external_type_specification]
#[verifier::external_body]
#[verifier::reject_recursive_types(T)]
pub struct ExSegQueue<T>(SegQueue<T>);

/// What a queue of commands holds, the next one first.
pub uninterp spec fn commands_in(queue: SegQueue<Command>) -> Seq<Command>;

/// What a queue of access tokens holds, the next one first.
pub uninterp spec fn tokens_in(queue: SegQueue<String>) -> Seq<String>;

/// What a queue of table changes holds, the next one first.
pub uninterp spec fn payloads_in(queue: SegQueue<PostgresPayload>) -> Seq<PostgresPayload>;

/// What a queue of broadcasts holds, the next one first.
pub uninterp spec fn broadcasts_in(queue: SegQueue<Value>) -> Seq<Value>;

/// Calls `SegQueue::new`: the queue is empty.
#[verifier::external_body]
pub(crate) fn new_commands() -> (queue: SegQueue<Command>)
    ensures
        commands_in(queue) == Seq::<Command>::empty(),
{
    SegQueue::new()
}

/// Calls `SegQueue::push` on a queue that nobody else holds: the item goes to the end.
#[verifier::external_body]
pub(crate) fn push_command(queue: &mut SegQueue<Command>, command: Command)
    ensures
        commands_in(*final(queue)) == commands_in(*old(queue)).push(command),
{
    queue.push(command)
}

/// Calls `SegQueue::pop` on a queue that nobody else holds: the first item leaves, if there is
/// one.
#[verifier::external_body]
pub(crate) fn pop_command(queue: &mut SegQueue<Command>) -> (command: Option<Command>)
    ensures
        match command {
            Some(command) => commands_in(*old(queue)) == seq![command] + commands_in(*final(queue)),
            None => {
                &&& commands_in(*old(queue)).len() == 0
                &&& commands_in(*final(queue)) == commands_in(*old(queue))
            },
        },
{
    queue.pop()
}

/// Calls `SegQueue::new`: the queue is empty.
#[verifier::external_body]
pub(crate) fn new_tokens() -> (queue: SegQueue<String>)
    ensures
        tokens_in(queue) == Seq::<String>::empty(),
{
    SegQueue::new()
}

/// Calls `SegQueue::push` on a queue that nobody else holds: the item goes to the end.
#[verifier::external_body]
pub(crate) fn push_token(queue: &mut SegQueue<String>, token: String)
    ensures
        tokens_in(*final(queue)) == tokens_in(*old(queue)).push(token),
{
    queue.push(token)
}

/// Calls `SegQueue::pop` on a queue that nobody else holds: the first item leaves, if there is
/// one.
#[verifier::external_body]
pub(crate) fn pop_token(queue: &mut SegQueue<String>) -> (token: Option<String>)
    ensures
        match token {
            Some(token) => tokens_in(*old(queue)) == seq![token] + tokens_in(*final(queue)),
            None => {
                &&& tokens_in(*old(queue)).len() == 0
                &&& tokens_in(*final(queue)) == tokens_in(*old(queue))
            },
        },
{
    queue.pop()
}

/// Calls `SegQueue::new`: the queue is empty.
#[verifier::external_body]
pub(crate) fn new_payloads() -> (queue: SegQueue<PostgresPayload>)
    ensures
        payloads_in(queue) == Seq::<PostgresPayload>::empty(),
{
    SegQueue::new()
}

/// Calls `SegQueue::push` on a queue that nobody else holds: the item goes to the end.
#[verifier::external_body]
pub(crate) fn push_payload(queue: &mut SegQueue<PostgresPayload>, payload: PostgresPayload)
    ensures
        payloads_in(*final(queue)) == payloads_in(*old(queue)).push(payload),
{
    queue.push(payload)
}

/// Calls `SegQueue::pop` on a queue that nobody else holds: the first item leaves, if there is
/// one.
#[verifier::external_body]
pub(crate) fn pop_payload(queue: &mut SegQueue<PostgresPayload>) -> (payload: Option<
    PostgresPayload,
>)
    ensures
        match payload {
            Some(payload) => payloads_in(*old(queue)) == seq![payload] + payloads_in(*final(queue)),
            None => {
                &&& payloads_in(*old(queue)).len() == 0
                &&& payloads_in(*final(queue)) == payloads_in(*old(queue))
            },
        },
{
    queue.pop()
}

/// Calls `SegQueue::new`: the queue is empty.
#[verifier::external_body]
pub(crate) fn new_broadcasts() -> (queue: SegQueue<Value>)
    ensures
        broadcasts_in(queue) == Seq::<Value>::empty(),
{
    SegQueue::new()
}

/// Calls `SegQueue::push` on a queue that nobody else holds: the item goes to the end.
#[verifier::external_body]
pub(crate) fn push_broadcast(queue: &mut SegQueue<Value>, broadcast: Value)
    ensures
        broadcasts_in(*final(queue)) == broadcasts_in(*old(queue)).push(broadcast),
{
    queue.push(broadcast)
}

/// Calls `SegQueue::pop` on a queue that nobody else holds: the first item leaves, if there is
/// one.
#[verifier::external_body]
pub(crate) fn pop_broadcast(queue: &mut SegQueue<Value>) -> (broadcast: Option<Value>)
    ensures
        match broadcast {
            Some(broadcast) => broadcasts_in(*old(queue)) == seq![broadcast] + broadcasts_in(
                *final(queue),
            ),
            None => {
                &&& broadcasts_in(*old(queue)).len() == 0
                &&& broadcasts_in(*final(queue)) == broadcasts_in(*old(queue))
            },
        },
{
    queue.pop()
}

} // verus!
