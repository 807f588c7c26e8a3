//! The messages that a realtime connection carries, and the channels they belong to.

use serde_json::Value;
use vstd::prelude::*;

verus! {

/// A JSON value, handed through as it came.
#[verifier::external_type_specification]
#[verifier::external_body]
pub struct ExValue(serde_json::Value);

/// The `Clone` of `serde_json::Value`, which copies a value with all that it holds.
///
/// Claimed: the copy is the same JSON value.
pub assume_specification[ <serde_json::Value as Clone>::clone ](value: &serde_json::Value) -> (res:
    serde_json::Value)
    ensures
        res == *value,
;

/// The kind of change to a table.
#[derive(Debug, Clone, Copy, PartialEq, Eq, Structural)]
pub enum PostgresEvent {
    Any,
    Insert,
    Update,
    Delete,
}

/// The changes to a table that a channel listens to.
#[derive(Debug)]
pub struct PostgresChanges {
    pub event: PostgresEvent,
    pub schema: String,
    pub table: String,
    pub filter: Option<String>,
}

impl Clone for PostgresChanges {
    fn clone(&self) -> (res: Self)
        ensures
            res == *self,
    {
        PostgresChanges {
            event: self.event,
            schema: self.schema.clone(),
            table: self.table.clone(),
            filter: clone_opt(&self.filter),
        }
    }
}

/// How a channel takes part in broadcasts.
#[derive(Debug, Clone, Copy, PartialEq, Eq, Structural)]
pub struct BroadcastConfig {
    pub self_messages: bool,
    pub ack: bool,
}

/// What to subscribe to.
#[derive(Debug)]
pub enum SubscriptionSpec {
    /// Changes to a table.
    PostgresChanges(PostgresChanges),
    /// The broadcasts of a topic.
    BroadcastChannel(String),
}

impl Clone for SubscriptionSpec {
    fn clone(&self) -> (res: Self)
        ensures
            res == *self,
    {
        match self {
            SubscriptionSpec::PostgresChanges(changes) => SubscriptionSpec::PostgresChanges(
                changes.clone(),
            ),
            SubscriptionSpec::BroadcastChannel(topic) => SubscriptionSpec::BroadcastChannel(
                topic.clone(),
            ),
        }
    }
}

/// What a channel is joined with.
#[derive(Debug)]
pub struct SubscriptionConfig {
    pub private: Option<bool>,
    pub broadcast: Option<BroadcastConfig>,
    pub postgres_changes: Vec<PostgresChanges>,
}

impl Clone for SubscriptionConfig {
    fn clone(&self) -> (res: Self)
        ensures
            res.private == self.private,
            res.broadcast == self.broadcast,
            res.postgres_changes@ == self.postgres_changes@,
    {
        SubscriptionConfig {
            private: self.private,
            broadcast: self.broadcast,
            postgres_changes: clone_changes(&self.postgres_changes),
        }
    }
}

/// A change to a table.
#[derive(Debug)]
pub struct PostgresPayload {
    pub schema: String,
    pub table: String,
    pub commit_timestamp: String,
    pub event_type: String,
    pub record: Value,
    pub old_record: Value,
    pub errors: Option<String>,
}

/// A change to a table whose new record is read as a `T`.
#[derive(Debug)]
pub struct PostgresChange<T> {
    pub schema: String,
    pub table: String,
    pub commit_timestamp: String,
    pub event_type: String,
    pub record: T,
    pub old_record: Value,
    pub errors: Option<String>,
}

impl<T> PostgresChange<T> {
    /// The change that `value` tells of, where its new record reads as `record`.
    pub fn from(value: PostgresPayload, record: T) -> (change: Self)
        ensures
            change == (PostgresChange {
                schema: value.schema,
                table: value.table,
                commit_timestamp: value.commit_timestamp,
                event_type: value.event_type,
                record,
                old_record: value.old_record,
                errors: value.errors,
            }),
    {
        PostgresChange {
            schema: value.schema,
            table: value.table,
            commit_timestamp: value.commit_timestamp,
            event_type: value.event_type,
            record,
            old_record: value.old_record,
            errors: value.errors,
        }
    }
}

/// What a message says.
#[allow(inconsistent_fields)]
#[derive(Debug)]
pub enum Events {
    Join { config: SubscriptionConfig, access_token: Option<String> },
    Leave {  },
    Heartbeat {  },
    PostgresChanges { data: PostgresPayload, ids: Vec<i32> },
    Broadcast { ty: String, event: String, payload: Value },
    AccessToken { access_token: String },
}

/// A message of the realtime connection, in either direction.
#[derive(Debug)]
pub struct EventMessage {
    pub topic: String,
    pub payload: Events,
    pub reference: Option<String>,
    pub join_ref: Option<String>,
}

/// A channel: what is subscribed to, and where its messages are kept until they are fetched.
#[derive(Debug)]
pub struct RealtimeChannel {
    pub topic: String,
    pub postgres_changes: Vec<PostgresChanges>,
    /// The number of the client's mailbox that keeps the channel's messages.
    pub mailbox: usize,
    /// The reference of the message that joined the channel, once there was one.
    pub join_ref: Option<String>,
}

/// What a client asks of its connection.
#[derive(Debug)]
pub enum Command {
    Subscribe(RealtimeChannel),
    Unsubscribe(String),
}

/// The contents of an `Events`.
#[allow(inconsistent_fields)]
pub enum EventsModel {
    Join {
        private: Option<bool>,
        broadcast: Option<BroadcastConfig>,
        postgres_changes: Seq<PostgresChanges>,
        access_token: Option<Seq<char>>,
    },
    Leave,
    Heartbeat,
    PostgresChanges { data: PostgresPayload, ids: Seq<i32> },
    Broadcast { ty: Seq<char>, event: Seq<char>, payload: Value },
    AccessToken { access_token: Seq<char> },
}

/// The contents of an `EventMessage`.
pub struct MessageModel {
    pub topic: Seq<char>,
    pub payload: EventsModel,
    pub reference: Option<Seq<char>>,
    pub join_ref: Option<Seq<char>>,
}

/// The contents of a `RealtimeChannel`.
pub struct ChannelModel {
    pub topic: Seq<char>,
    pub postgres_changes: Seq<PostgresChanges>,
    pub mailbox: int,
    pub join_ref: Option<Seq<char>>,
}

/// The contents of a `Command`.
pub enum CommandModel {
    Subscribe(ChannelModel),
    Unsubscribe(Seq<char>),
}

impl View for Events {
    type V = EventsModel;

    open spec fn view(&self) -> EventsModel {
        match *self {
            Events::Join { config, access_token } => EventsModel::Join {
                private: config.private,
                broadcast: config.broadcast,
                postgres_changes: config.postgres_changes@,
                access_token: crate::text::opt_text(access_token),
            },
            Events::Leave {  } => EventsModel::Leave,
            Events::Heartbeat {  } => EventsModel::Heartbeat,
            Events::PostgresChanges { data, ids } => EventsModel::PostgresChanges { data, ids: ids@ },
            Events::Broadcast { ty, event, payload } => EventsModel::Broadcast {
                ty: ty@,
                event: event@,
                payload,
            },
            Events::AccessToken { access_token } => EventsModel::AccessToken {
                access_token: access_token@,
            },
        }
    }
}

impl View for EventMessage {
    type V = MessageModel;

    open spec fn view(&self) -> MessageModel {
        MessageModel {
            topic: self.topic@,
            payload: self.payload@,
            reference: crate::text::opt_text(self.reference),
            join_ref: crate::text::opt_text(self.join_ref),
        }
    }
}

impl View for RealtimeChannel {
    type V = ChannelModel;

    open spec fn view(&self) -> ChannelModel {
        ChannelModel {
            topic: self.topic@,
            postgres_changes: self.postgres_changes@,
            mailbox: self.mailbox as int,
            join_ref: crate::text::opt_text(self.join_ref),
        }
    }
}

impl View for Command {
    type V = CommandModel;

    open spec fn view(&self) -> CommandModel {
        match *self {
            Command::Subscribe(channel) => CommandModel::Subscribe(channel@),
            Command::Unsubscribe(topic) => CommandModel::Unsubscribe(topic@),
        }
    }
}

/// Copies what a channel listens to.
pub(crate) fn clone_changes(changes: &Vec<PostgresChanges>) -> (res: Vec<PostgresChanges>)
    ensures
        res@ == changes@,
{
    let res = changes.clone();
    assert(res@ =~= changes@);
    res
}

/// Copies an optional text.
pub(crate) fn clone_opt(text: &Option<String>) -> (res: Option<String>)
    ensures
        res == *text,
{
    match text {
        Some(text) => Some(text.clone()),
        None => None,
    }
}

/// Copies the numbers of the listeners that a change is for.
fn clone_ids(ids: &Vec<i32>) -> (res: Vec<i32>)
    ensures
        res@ == ids@,
{
    let res = ids.clone();
    assert(res@ =~= ids@);
    res
}

impl Clone for PostgresPayload {
    fn clone(&self) -> (res: Self)
        ensures
            res == *self,
    {
        PostgresPayload {
            schema: self.schema.clone(),
            table: self.table.clone(),
            commit_timestamp: self.commit_timestamp.clone(),
            event_type: self.event_type.clone(),
            record: self.record.clone(),
            old_record: self.old_record.clone(),
            errors: clone_opt(&self.errors),
        }
    }
}

impl Clone for Events {
    fn clone(&self) -> (res: Self)
        ensures
            res@ == self@,
    {
        match self {
            Events::Join { config, access_token } => Events::Join {
                config: config.clone(),
                access_token: clone_opt(access_token),
            },
            Events::Leave {  } => Events::Leave {  },
            Events::Heartbeat {  } => Events::Heartbeat {  },
            Events::PostgresChanges { data, ids } => Events::PostgresChanges {
                data: data.clone(),
                ids: clone_ids(ids),
            },
            Events::Broadcast { ty, event, payload } => Events::Broadcast {
                ty: ty.clone(),
                event: event.clone(),
                payload: payload.clone(),
            },
            Events::AccessToken { access_token } => Events::AccessToken {
                access_token: access_token.clone(),
            },
        }
    }
}

impl Clone for EventMessage {
    fn clone(&self) -> (res: Self)
        ensures
            res@ == self@,
    {
        EventMessage {
            topic: self.topic.clone(),
            payload: self.payload.clone(),
            reference: clone_opt(&self.reference),
            join_ref: clone_opt(&self.join_ref),
        }
    }
}

impl Clone for RealtimeChannel {
    fn clone(&self) -> (res: Self)
        ensures
            res@ == self@,
    {
        RealtimeChannel {
            topic: self.topic.clone(),
            postgres_changes: clone_changes(&self.postgres_changes),
            mailbox: self.mailbox,
            join_ref: clone_opt(&self.join_ref),
        }
    }
}

} // verus!
