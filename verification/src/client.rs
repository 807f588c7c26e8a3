//! A realtime client: its subscriptions, and what it makes of each event of its connection.

use crossbeam::queue::SegQueue;
use serde_json::Value;
use vstd::prelude::*;
use vstd::string::*;

use crate::queue::{
    new_broadcasts, new_commands, new_payloads, new_tokens, pop_broadcast, pop_command,
    pop_payload, pop_token, push_broadcast, push_command, push_payload, push_token,
};
use crate::realtime::{
    clone_changes, clone_opt, BroadcastConfig, ChannelModel, Command, CommandModel, EventMessage,
    Events, EventsModel, MessageModel, PostgresChanges, PostgresPayload, RealtimeChannel,
    SubscriptionConfig, SubscriptionSpec,
};
use crate::text::{decimal_string, replace_str};

verus! {

/// How long to wait between two signs of life, in seconds.
pub const HEARTBEAT_SECONDS: u64 = 30;

/// How long to wait before an empty queue is looked into again, in milliseconds.
pub const POLL_MILLISECONDS: u64 = 10;

/// Where the messages of one channel wait.
struct Mailbox {
    payloads: SegQueue<PostgresPayload>,
    broadcasts: SegQueue<Value>,
}

/// The contents of a `Mailbox`.
#[verifier::ext_equal]
pub struct MailboxModel {
    pub payloads: Seq<PostgresPayload>,
    pub broadcasts: Seq<Value>,
}

impl View for Mailbox {
    type V = MailboxModel;

    closed spec fn view(&self) -> MailboxModel {
        MailboxModel {
            payloads: crate::queue::payloads_in(self.payloads),
            broadcasts: crate::queue::broadcasts_in(self.broadcasts),
        }
    }
}

/// A client of the realtime service.
pub struct RealtimeClient {
    pub realtime_url: String,
    subscriptions: Vec<RealtimeChannel>,
    access_token: Option<String>,
    access_token_updater: SegQueue<String>,
    command_queue: SegQueue<Command>,
    mailboxes: Vec<Option<Box<Mailbox>>>,
}

/// The contents of a `RealtimeClient`.
#[verifier::ext_equal]
pub struct ClientModel {
    pub realtime_url: Seq<char>,
    /// The channels that are joined.
    pub subscriptions: Seq<ChannelModel>,
    pub access_token: Option<Seq<char>>,
    /// The access tokens that the channels have not been told of.
    pub access_tokens: Seq<Seq<char>>,
    /// The commands that have not been carried out.
    pub commands: Seq<CommandModel>,
    /// The mailboxes, by number; a closed one is gone.
    pub mailboxes: Seq<Option<MailboxModel>>,
}

/// The views of a sequence of channels.
spec fn channels(channels: Seq<RealtimeChannel>) -> Seq<ChannelModel> {
    channels.map_values(|c: RealtimeChannel| c@)
}

/// The views of a sequence of commands.
spec fn commands(commands: Seq<Command>) -> Seq<CommandModel> {
    commands.map_values(|c: Command| c@)
}

/// The views of a sequence of messages.
pub open spec fn messages(messages: Seq<EventMessage>) -> Seq<MessageModel> {
    messages.map_values(|m: EventMessage| m@)
}

/// The view of a place for a mailbox.
spec fn mailbox_slot(slot: Option<Box<Mailbox>>) -> Option<MailboxModel> {
    match slot {
        Some(mailbox) => Some(mailbox@),
        None => None,
    }
}

/// The views of the places for mailboxes.
spec fn mailbox_slots(slots: Seq<Option<Box<Mailbox>>>) -> Seq<Option<MailboxModel>> {
    slots.map_values(|slot: Option<Box<Mailbox>>| mailbox_slot(slot))
}

impl View for RealtimeClient {
    type V = ClientModel;

    closed spec fn view(&self) -> ClientModel {
        ClientModel {
            realtime_url: self.realtime_url@,
            subscriptions: channels(self.subscriptions@),
            access_token: crate::text::opt_text(self.access_token),
            access_tokens: crate::text::texts(crate::queue::tokens_in(self.access_token_updater)),
            commands: commands(crate::queue::commands_in(self.command_queue)),
            mailboxes: mailbox_slots(self.mailboxes@),
        }
    }
}

impl ClientModel {
    /// A topic is joined at most once, and every joined channel knows the reference it was joined
    /// with.
    pub open spec fn wf(self) -> bool {
        &&& forall|i: int, j: int|
            0 <= i < j < self.subscriptions.len() ==> #[trigger] self.subscriptions[i].topic
                != #[trigger] self.subscriptions[j].topic
        &&& forall|i: int|
            0 <= i < self.subscriptions.len() ==> #[trigger] self.subscriptions[i].join_ref is Some
    }
}

/// The channel that subscribing under `topic` gives: a broadcast channel is named by its own topic.
pub open spec fn requested_channel(
    client: ClientModel,
    topic: Seq<char>,
    spec: SubscriptionSpec,
) -> ChannelModel {
    match spec {
        SubscriptionSpec::PostgresChanges(changes) => ChannelModel {
            topic: "realtime:"@ + topic,
            postgres_changes: seq![changes],
            mailbox: client.mailboxes.len() as int,
            join_ref: None,
        },
        SubscriptionSpec::BroadcastChannel(own) => ChannelModel {
            topic: "realtime:"@ + own@,
            postgres_changes: seq![],
            mailbox: client.mailboxes.len() as int,
            join_ref: None,
        },
    }
}

/// The client after it was asked for `channel`, whose mailbox is new.
pub open spec fn after_subscribe(client: ClientModel, channel: ChannelModel) -> ClientModel {
    ClientModel {
        commands: client.commands.push(CommandModel::Subscribe(channel)),
        mailboxes: client.mailboxes.push(
            Some(MailboxModel { payloads: seq![], broadcasts: seq![] }),
        ),
        ..client
    }
}

/// The client after it was asked to leave `topic`.
pub open spec fn after_unsubscribe(client: ClientModel, topic: Seq<char>) -> ClientModel {
    ClientModel { commands: client.commands.push(CommandModel::Unsubscribe(topic)), ..client }
}

/// The client after its access token was updated.
pub open spec fn after_update(client: ClientModel, token: Seq<char>) -> ClientModel {
    ClientModel {
        access_token: Some(token),
        access_tokens: client.access_tokens.push(token),
        ..client
    }
}

/// The client without its next command.
pub open spec fn without_next_command(client: ClientModel) -> ClientModel {
    ClientModel { commands: client.commands.skip(1), ..client }
}

/// The client without the next access token that the channels have to be told of.
pub open spec fn without_next_token(client: ClientModel) -> ClientModel {
    ClientModel { access_tokens: client.access_tokens.skip(1), ..client }
}

/// The client after the mailbox with the given number was closed.
pub open spec fn after_close(client: ClientModel, number: int) -> ClientModel {
    ClientModel {
        mailboxes: if 0 <= number < client.mailboxes.len() {
            client.mailboxes.update(number, None)
        } else {
            client.mailboxes
        },
        ..client
    }
}

/// The websocket URL of the realtime service.
pub open spec fn realtime_url(supabase_url: Seq<char>, supabase_anon_key: Seq<char>) -> Seq<char> {
    crate::text::replace(supabase_url, "http"@, "ws"@) + "/realtime/v1/websocket?apikey="@
        + supabase_anon_key + "&vsn=1.0.0"@
}

impl RealtimeClient {
    /// The client's invariant.
    pub open spec fn wf(&self) -> bool {
        self@.wf()
    }

    /// Makes a client of the project at `supabase_url`.
    pub fn new(supabase_url: String, supabase_anon_key: String, access_token: Option<String>) -> (
    client: Self)
        ensures
            client.wf(),
            client@ == (ClientModel {
                realtime_url: realtime_url(supabase_url@, supabase_anon_key@),
                subscriptions: seq![],
                access_token: crate::text::opt_text(access_token),
                access_tokens: seq![],
                commands: seq![],
                mailboxes: seq![],
            }),
    {
        proof {
            reveal_strlit("http");
        }
        let mut realtime_url = replace_str(supabase_url.as_str(), "http", "ws");
        realtime_url.append("/realtime/v1/websocket?apikey=");
        realtime_url.append(supabase_anon_key.as_str());
        realtime_url.append("&vsn=1.0.0");
        let client = RealtimeClient {
            realtime_url,
            subscriptions: Vec::new(),
            access_token,
            access_token_updater: new_tokens(),
            command_queue: new_commands(),
            mailboxes: Vec::new(),
        };
        assert(client@.subscriptions =~= seq![]);
        assert(client@.access_tokens =~= seq![]);
        assert(client@.commands =~= seq![]);
        assert(client@.mailboxes =~= seq![]);
        client
    }

    /// The websocket URL that the client connects to.
    pub fn realtime_url(&self) -> (url: &str)
        ensures
            url@ == self@.realtime_url,
    {
        self.realtime_url.as_str()
    }

    /// Asks the connection to subscribe, and gives the channel.
    ///
    /// A broadcast channel is named by its own topic.
    pub fn subscribe(&mut self, topic: String, spec: SubscriptionSpec) -> (channel: RealtimeChannel)
        requires
            old(self).wf(),
        ensures
            final(self).wf(),
            channel@ == requested_channel(old(self)@, topic@, spec),
            channel@ == (ChannelModel {
                topic: "realtime:"@ + (match spec {
                    SubscriptionSpec::PostgresChanges(_) => topic@,
                    SubscriptionSpec::BroadcastChannel(own) => own@,
                }),
                postgres_changes: match spec {
                    SubscriptionSpec::PostgresChanges(changes) => seq![changes],
                    SubscriptionSpec::BroadcastChannel(_) => seq![],
                },
                mailbox: old(self)@.mailboxes.len() as int,
                join_ref: None,
            }),
            final(self)@ == after_subscribe(old(self)@, channel@),
    {
        let ghost before = self@;
        let mailbox = self.mailboxes.len();
        let mut postgres_changes: Vec<PostgresChanges> = Vec::new();
        let mut name = "realtime:".to_owned();
        match spec {
            SubscriptionSpec::PostgresChanges(changes) => {
                name.append(topic.as_str());
                postgres_changes.push(changes);
                assert(postgres_changes@ =~= seq![changes]);
            },
            SubscriptionSpec::BroadcastChannel(own) => {
                name.append(own.as_str());
            },
        }
        let channel = RealtimeChannel { topic: name, postgres_changes, mailbox, join_ref: None };
        self.mailboxes.push(
            Some(Box::new(Mailbox { payloads: new_payloads(), broadcasts: new_broadcasts() })),
        );
        let command = Command::Subscribe(channel.clone());
        push_command(&mut self.command_queue, command);
        assert(self@.commands =~= before.commands.push(command@));
        assert(self@.mailboxes =~= before.mailboxes.push(
            Some(MailboxModel { payloads: seq![], broadcasts: seq![] }),
        ));
        channel
    }

    /// Sets the access token for channels to come, and for the joined ones once they are told.
    pub fn update_access_token(&mut self, new_token: String)
        requires
            old(self).wf(),
        ensures
            final(self).wf(),
            final(self)@ == after_update(old(self)@, new_token@),
    {
        let ghost before = self@;
        self.access_token = Some(new_token.clone());
        push_token(&mut self.access_token_updater, new_token);
        assert(self@.access_tokens =~= before.access_tokens.push(new_token@));
    }

    /// Takes the next command to carry out.
    pub fn next_command(&mut self) -> (command: Option<Command>)
        requires
            old(self).wf(),
        ensures
            final(self).wf(),
            match command {
                Some(command) => {
                    &&& old(self)@.commands.len() > 0
                    &&& command@ == old(self)@.commands[0]
                    &&& final(self)@ == without_next_command(old(self)@)
                },
                None => old(self)@.commands.len() == 0 && final(self)@ == old(self)@,
            },
    {
        let ghost before = self@;
        let command = pop_command(&mut self.command_queue);
        assert(command is Some ==> before.commands =~= seq![command->0@] + self@.commands);
        assert(command is Some ==> before.commands.skip(1) =~= self@.commands);
        command
    }

    /// Takes the next access token that the channels have to be told of.
    pub fn next_access_token(&mut self) -> (token: Option<String>)
        requires
            old(self).wf(),
        ensures
            final(self).wf(),
            match token {
                Some(token) => {
                    &&& old(self)@.access_tokens.len() > 0
                    &&& token@ == old(self)@.access_tokens[0]
                    &&& final(self)@ == without_next_token(old(self)@)
                },
                None => old(self)@.access_tokens.len() == 0 && final(self)@ == old(self)@,
            },
    {
        let ghost before = self@;
        let token = pop_token(&mut self.access_token_updater);
        assert(token is Some ==> before.access_tokens =~= seq![token->0@] + self@.access_tokens);
        assert(token is Some ==> before.access_tokens.skip(1) =~= self@.access_tokens);
        token
    }
}

impl RealtimeChannel {
    /// Asks the connection of `client` to leave the channel's topic.
    pub fn unsubscribe(&self, client: &mut RealtimeClient)
        requires
            old(client).wf(),
        ensures
            final(client).wf(),
            final(client)@ == after_unsubscribe(old(client)@, self@.topic),
    {
        let ghost before = client@;
        let command = Command::Unsubscribe(self.topic.clone());
        push_command(&mut client.command_queue, command);
        assert(client@.commands =~= before.commands.push(command@));
    }
}

/// What happens to a connection.
pub enum Event {
    /// A message arrived.
    Message(EventMessage),
    /// There is a command to carry out.
    Command(Command),
    /// The joined channels have to be told of a new access token.
    AccessToken(String),
    /// It is time for a sign of life.
    Heartbeat,
}

/// The contents of an `Event`.
pub enum EventModel {
    Message(MessageModel),
    Command(CommandModel),
    AccessToken(Seq<char>),
    Heartbeat,
}

impl View for Event {
    type V = EventModel;

    open spec fn view(&self) -> EventModel {
        match *self {
            Event::Message(message) => EventModel::Message(message@),
            Event::Command(command) => EventModel::Command(command@),
            Event::AccessToken(token) => EventModel::AccessToken(token@),
            Event::Heartbeat => EventModel::Heartbeat,
        }
    }
}

/// The channel among `subscriptions` that is joined for `topic`, if there is one.
pub open spec fn joined(
    subscriptions: Seq<ChannelModel>,
    topic: Seq<char>,
) -> Option<ChannelModel> {
    if exists|i: int| 0 <= i < subscriptions.len() && #[trigger] subscriptions[i].topic == topic {
        let i = choose|i: int|
            0 <= i < subscriptions.len() && #[trigger] subscriptions[i].topic == topic;
        Some(subscriptions[i])
    } else {
        None
    }
}

/// The channels among `subscriptions` that are joined for other topics than `topic`.
pub open spec fn without(
    subscriptions: Seq<ChannelModel>,
    topic: Seq<char>,
) -> Seq<ChannelModel> {
    subscriptions.filter(|c: ChannelModel| c.topic != topic)
}

/// The mailbox with the given number, unless it is closed.
pub open spec fn mailbox_at(
    mailboxes: Seq<Option<MailboxModel>>,
    number: int,
) -> Option<MailboxModel> {
    if 0 <= number < mailboxes.len() {
        mailboxes[number]
    } else {
        None
    }
}

/// The mailboxes after a table change was put into the one with the given number.
pub open spec fn with_payload(
    mailboxes: Seq<Option<MailboxModel>>,
    number: int,
    payload: PostgresPayload,
) -> Seq<Option<MailboxModel>> {
    match mailbox_at(mailboxes, number) {
        Some(mailbox) => mailboxes.update(
            number,
            Some(MailboxModel { payloads: mailbox.payloads.push(payload), ..mailbox }),
        ),
        None => mailboxes,
    }
}

/// The mailboxes after a broadcast was put into the one with the given number.
pub open spec fn with_broadcast(
    mailboxes: Seq<Option<MailboxModel>>,
    number: int,
    broadcast: Value,
) -> Seq<Option<MailboxModel>> {
    match mailbox_at(mailboxes, number) {
        Some(mailbox) => mailboxes.update(
            number,
            Some(MailboxModel { broadcasts: mailbox.broadcasts.push(broadcast), ..mailbox }),
        ),
        None => mailboxes,
    }
}

/// The first table change in the mailbox with the given number.
pub open spec fn first_payload(
    mailboxes: Seq<Option<MailboxModel>>,
    number: int,
) -> Option<PostgresPayload> {
    match mailbox_at(mailboxes, number) {
        Some(mailbox) => if mailbox.payloads.len() > 0 {
            Some(mailbox.payloads[0])
        } else {
            None
        },
        None => None,
    }
}

/// The mailboxes after the first table change was taken out of the one with the given number.
pub open spec fn without_first_payload(
    mailboxes: Seq<Option<MailboxModel>>,
    number: int,
) -> Seq<Option<MailboxModel>> {
    match mailbox_at(mailboxes, number) {
        Some(mailbox) => if mailbox.payloads.len() > 0 {
            mailboxes.update(
                number,
                Some(MailboxModel { payloads: mailbox.payloads.skip(1), ..mailbox }),
            )
        } else {
            mailboxes
        },
        None => mailboxes,
    }
}

/// The first broadcast in the mailbox with the given number.
pub open spec fn first_broadcast(
    mailboxes: Seq<Option<MailboxModel>>,
    number: int,
) -> Option<Value> {
    match mailbox_at(mailboxes, number) {
        Some(mailbox) => if mailbox.broadcasts.len() > 0 {
            Some(mailbox.broadcasts[0])
        } else {
            None
        },
        None => None,
    }
}

/// The mailboxes after the first broadcast was taken out of the one with the given number.
pub open spec fn without_first_broadcast(
    mailboxes: Seq<Option<MailboxModel>>,
    number: int,
) -> Seq<Option<MailboxModel>> {
    match mailbox_at(mailboxes, number) {
        Some(mailbox) => if mailbox.broadcasts.len() > 0 {
            mailboxes.update(
                number,
                Some(MailboxModel { broadcasts: mailbox.broadcasts.skip(1), ..mailbox }),
            )
        } else {
            mailboxes
        },
        None => mailboxes,
    }
}

/// The client after `message` arrived: what it carries is put into its topic's mailbox.
pub open spec fn after_message(
    client: ClientModel,
    message: MessageModel,
) -> ClientModel {
    match joined(client.subscriptions, message.topic) {
        Some(channel) => match message.payload {
            EventsModel::PostgresChanges { data, .. } => ClientModel {
                mailboxes: with_payload(client.mailboxes, channel.mailbox, data),
                ..client
            },
            EventsModel::Broadcast { payload, .. } => ClientModel {
                mailboxes: with_broadcast(client.mailboxes, channel.mailbox, payload),
                ..client
            },
            _ => client,
        },
        None => client,
    }
}

/// The client after `event`, where `refid` is the next reference.
pub open spec fn after_event(client: ClientModel, refid: int, event: EventModel) -> ClientModel {
    match event {
        EventModel::Message(message) => after_message(client, message),
        EventModel::Command(CommandModel::Subscribe(channel)) => if channel.join_ref
            is Some {
            client
        } else {
            ClientModel {
                subscriptions: without(client.subscriptions, channel.topic).push(
                    ChannelModel {
                        join_ref: Some(crate::text::decimal(refid)),
                        ..channel
                    },
                ),
                ..client
            }
        },
        EventModel::Command(CommandModel::Unsubscribe(topic)) => ClientModel {
            subscriptions: without(client.subscriptions, topic),
            ..client
        },
        EventModel::AccessToken(_) => client,
        EventModel::Heartbeat => client,
    }
}

/// The message that joins `channel`.
pub open spec fn join_message(
    channel: ChannelModel,
    access_token: Option<Seq<char>>,
    refid: int,
) -> MessageModel {
    MessageModel {
        topic: channel.topic,
        payload: EventsModel::Join {
            private: if channel.postgres_changes.len() == 0 {
                Some(true)
            } else {
                None
            },
            broadcast: if channel.postgres_changes.len() == 0 {
                Some(BroadcastConfig { self_messages: false, ack: false })
            } else {
                None
            },
            postgres_changes: channel.postgres_changes,
            access_token,
        },
        reference: Some(crate::text::decimal(refid)),
        join_ref: None,
    }
}

/// The message that leaves `channel`.
pub open spec fn leave_message(
    channel: ChannelModel,
    refid: int,
) -> MessageModel {
    MessageModel {
        topic: channel.topic,
        payload: EventsModel::Leave,
        reference: Some(crate::text::decimal(refid)),
        join_ref: channel.join_ref,
    }
}

/// The message that tells the channel of `topic` of a new access token.
pub open spec fn token_message(
    topic: Seq<char>,
    access_token: Seq<char>,
    refid: int,
) -> MessageModel {
    MessageModel {
        topic,
        payload: EventsModel::AccessToken { access_token },
        reference: Some(crate::text::decimal(refid)),
        join_ref: None,
    }
}

/// The message that keeps a connection alive.
pub open spec fn heartbeat_message(refid: int) -> MessageModel {
    MessageModel {
        topic: "phoenix"@,
        payload: EventsModel::Heartbeat,
        reference: Some(crate::text::decimal(refid)),
        join_ref: None,
    }
}

/// The messages that tell each of the given channels of a new access token, with references from
/// `refid` on.
pub open spec fn token_messages(
    subscriptions: Seq<ChannelModel>,
    access_token: Seq<char>,
    refid: int,
) -> Seq<MessageModel> {
    Seq::new(
        subscriptions.len(),
        |i: int| token_message(subscriptions[i].topic, access_token, refid + i),
    )
}

/// The messages that a client sends upon `event`, in order, where `refid` is the next reference.
pub open spec fn sent_upon(
    client: ClientModel,
    refid: int,
    event: EventModel,
) -> Seq<MessageModel> {
    match event {
        EventModel::Message(_) => seq![],
        EventModel::Command(CommandModel::Subscribe(channel)) => if channel.join_ref
            is Some {
            seq![]
        } else {
            seq![join_message(channel, client.access_token, refid)]
        },
        EventModel::Command(CommandModel::Unsubscribe(topic)) => match joined(
            client.subscriptions,
            topic,
        ) {
            Some(channel) => seq![leave_message(channel, refid)],
            None => seq![],
        },
        EventModel::AccessToken(token) => token_messages(client.subscriptions, token, refid),
        EventModel::Heartbeat => seq![heartbeat_message(refid)],
    }
}

/// The next reference after `event`: leaving a channel uses none up.
pub open spec fn next_refid(client: ClientModel, refid: int, event: EventModel) -> int {
    match event {
        EventModel::Command(CommandModel::Unsubscribe(_)) => refid,
        _ => refid + sent_upon(client, refid, event).len(),
    }
}

proof fn lemma_without_absent(
    subscriptions: Seq<ChannelModel>,
    topic: Seq<char>,
)
    requires
        forall|i: int| 0 <= i < subscriptions.len() ==> #[trigger] subscriptions[i].topic != topic,
    ensures
        without(subscriptions, topic) == subscriptions,
    decreases subscriptions.len(),
{
    reveal(Seq::filter);
    if subscriptions.len() > 0 {
        lemma_without_absent(subscriptions.drop_last(), topic);
        assert(subscriptions.last().topic != topic);
        assert(subscriptions =~= subscriptions.drop_last().push(subscriptions.last()));
    }
}

proof fn lemma_without_at(subscriptions: Seq<ChannelModel>, i: int)
    requires
        0 <= i < subscriptions.len(),
        forall|j: int|
            0 <= j < subscriptions.len() && j != i ==> #[trigger] subscriptions[j].topic
                != subscriptions[i].topic,
    ensures
        without(subscriptions, subscriptions[i].topic) == subscriptions.remove(i),
    decreases subscriptions.len(),
{
    reveal(Seq::filter);
    let topic = subscriptions[i].topic;
    let init = subscriptions.drop_last();
    if i == init.len() {
        lemma_without_absent(init, topic);
        assert(subscriptions.remove(i) =~= init);
    } else {
        lemma_without_at(init, i);
        assert(subscriptions.last().topic != topic);
        assert(subscriptions.remove(i) =~= init.remove(i).push(subscriptions.last()));
    }
}

/// What is left without a topic are channels that were there before, of other topics.
pub proof fn lemma_without(subscriptions: Seq<ChannelModel>, topic: Seq<char>)
    ensures
        forall|i: int|
            0 <= i < without(subscriptions, topic).len() ==> #[trigger] without(
                subscriptions,
                topic,
            )[i].topic != topic,
        forall|i: int|
            0 <= i < without(subscriptions, topic).len() ==> subscriptions.contains(
                #[trigger] without(subscriptions, topic)[i],
            ),
    decreases subscriptions.len(),
{
    reveal(Seq::filter);
    if subscriptions.len() > 0 {
        let init = subscriptions.drop_last();
        lemma_without(init, topic);
        let rest = without(subscriptions, topic);
        assert forall|i: int| 0 <= i < rest.len() implies subscriptions.contains(
            #[trigger] rest[i],
        ) && rest[i].topic != topic by {
            if i < without(init, topic).len() {
                assert(rest[i] == without(init, topic)[i]);
                let k = choose|k: int| 0 <= k < init.len() && init[k] == rest[i];
                assert(subscriptions[k] == rest[i]);
            } else {
                assert(rest[i] == subscriptions.last());
            }
        }
    }
}

impl RealtimeClient {
    fn position(&self, topic: &String) -> (found: Option<usize>)
        ensures
            match found {
                Some(i) => i < self@.subscriptions.len() && self@.subscriptions[i as int].topic
                    == topic@,
                None => forall|i: int|
                    0 <= i < self@.subscriptions.len() ==> #[trigger] self@.subscriptions[i].topic
                        != topic@,
            },
    {
        let mut i: usize = 0;
        while i < self.subscriptions.len()
            invariant
                i <= self.subscriptions.len(),
                forall|j: int|
                    0 <= j < i ==> #[trigger] self@.subscriptions[j].topic != topic@,
            decreases self.subscriptions.len() - i,
        {
            assert(self@.subscriptions[i as int] == self.subscriptions@[i as int]@);
            if self.subscriptions[i].topic == *topic {
                return Some(i);
            }
            i = i + 1;
        }
        None
    }

    fn keep_payload(&mut self, number: usize, payload: PostgresPayload)
        ensures
            final(self)@ == (ClientModel {
                mailboxes: with_payload(old(self)@.mailboxes, number as int, payload),
                ..old(self)@
            }),
    {
        if number < self.mailboxes.len() {
            match &mut self.mailboxes[number] {
                Some(mailbox) => push_payload(&mut mailbox.payloads, payload),
                None => {},
            }
        }
        assert(self@.mailboxes =~= with_payload(old(self)@.mailboxes, number as int, payload));
    }

    fn keep_broadcast(&mut self, number: usize, broadcast: Value)
        ensures
            final(self)@ == (ClientModel {
                mailboxes: with_broadcast(old(self)@.mailboxes, number as int, broadcast),
                ..old(self)@
            }),
    {
        if number < self.mailboxes.len() {
            match &mut self.mailboxes[number] {
                Some(mailbox) => push_broadcast(&mut mailbox.broadcasts, broadcast),
                None => {},
            }
        }
        assert(self@.mailboxes =~= with_broadcast(old(self)@.mailboxes, number as int, broadcast));
    }

    /// Puts what a message carries into its topic's mailbox.
    fn message_arrived(&mut self, message: EventMessage)
        requires
            old(self).wf(),
        ensures
            final(self).wf(),
            final(self)@ == after_message(old(self)@, message@),
    {
        match self.position(&message.topic) {
            Some(i) => {
                let ghost subscriptions = self@.subscriptions;
                let number = self.subscriptions[i].mailbox;
                proof {
                    assert(subscriptions[i as int] == self.subscriptions@[i as int]@);
                    assert(joined(subscriptions, message@.topic) == Some(subscriptions[i as int]));
                }
                match message.payload {
                    Events::PostgresChanges { data, .. } => self.keep_payload(number, data),
                    Events::Broadcast { payload, .. } => self.keep_broadcast(number, payload),
                    _ => {},
                }
            },
            None => {},
        }
    }

    /// Forgets the channel that is joined for a topic, and gives it.
    fn forget(&mut self, topic: &String) -> (channel: Option<RealtimeChannel>)
        requires
            old(self).wf(),
        ensures
            final(self).wf(),
            final(self)@ == (ClientModel {
                subscriptions: without(old(self)@.subscriptions, topic@),
                ..old(self)@
            }),
            match channel {
                Some(channel) => joined(old(self)@.subscriptions, topic@) == Some(channel@)
                    && channel@.topic == topic@ && channel@.join_ref is Some,
                None => joined(old(self)@.subscriptions, topic@) is None,
            },
    {
        let ghost before = self@.subscriptions;
        match self.position(topic) {
            Some(i) => {
                assert(before[i as int] == self.subscriptions@[i as int]@);
                let channel = self.subscriptions.remove(i);
                proof {
                    lemma_without_at(before, i as int);
                    assert(self@.subscriptions =~= before.remove(i as int));
                    assert(joined(before, topic@) == Some(before[i as int]));
                }
                Some(channel)
            },
            None => {
                proof {
                    lemma_without_absent(before, topic@);
                }
                None
            },
        }
    }

    /// Joins a channel, unless it was joined before.
    fn join(&mut self, refid: &mut i64, channel: RealtimeChannel) -> (sent: Option<EventMessage>)
        requires
            old(self).wf(),
            channel@.join_ref is None ==> *old(refid) < i64::MAX,
        ensures
            final(self).wf(),
            ({
                let event = EventModel::Command(CommandModel::Subscribe(channel@));
                &&& final(self)@ == after_event(old(self)@, *old(refid) as int, event)
                &&& *final(refid) == next_refid(old(self)@, *old(refid) as int, event)
            }),
            match sent {
                Some(message) => channel@.join_ref is None && message@ == join_message(
                    channel@,
                    old(self)@.access_token,
                    *old(refid) as int,
                ),
                None => channel@.join_ref is Some,
            },
    {
        if channel.join_ref.is_some() {
            return None;
        }
        let only_broadcasts = channel.postgres_changes.len() == 0;
        let message = EventMessage {
            topic: channel.topic.clone(),
            payload: Events::Join {
                config: SubscriptionConfig {
                    private: if only_broadcasts {
                        Some(true)
                    } else {
                        None
                    },
                    broadcast: if only_broadcasts {
                        Some(BroadcastConfig { self_messages: false, ack: false })
                    } else {
                        None
                    },
                    postgres_changes: clone_changes(&channel.postgres_changes),
                },
                access_token: clone_opt(&self.access_token),
            },
            reference: Some(decimal_string(*refid)),
            join_ref: None,
        };
        let joined_channel = RealtimeChannel {
            join_ref: Some(decimal_string(*refid)),
            topic: channel.topic,
            postgres_changes: channel.postgres_changes,
            mailbox: channel.mailbox,
        };
        *refid = *refid + 1;
        self.forget(&joined_channel.topic);
        let ghost others = self@.subscriptions;
        self.subscriptions.push(joined_channel);
        proof {
            lemma_without(old(self)@.subscriptions, joined_channel@.topic);
            assert(self@.subscriptions =~= others.push(joined_channel@));
        }
        Some(message)
    }

    /// Leaves the channel that is joined for a topic, if there is one.
    fn leave(&mut self, refid: i64, topic: String) -> (sent: Option<EventMessage>)
        requires
            old(self).wf(),
        ensures
            final(self).wf(),
            final(self)@ == (ClientModel {
                subscriptions: without(old(self)@.subscriptions, topic@),
                ..old(self)@
            }),
            match sent {
                Some(message) => joined(old(self)@.subscriptions, topic@) matches Some(channel)
                    && message@ == leave_message(channel, refid as int),
                None => joined(old(self)@.subscriptions, topic@) is None,
            },
    {
        match self.forget(&topic) {
            Some(channel) => Some(
                EventMessage {
                    topic,
                    payload: Events::Leave {  },
                    reference: Some(decimal_string(refid)),
                    join_ref: channel.join_ref,
                },
            ),
            None => None,
        }
    }

    /// Tells every joined channel of a new access token.
    fn announce(&self, refid: &mut i64, token: String) -> (sent: Vec<EventMessage>)
        requires
            *old(refid) + self@.subscriptions.len() <= i64::MAX,
        ensures
            messages(sent@) == token_messages(
                self@.subscriptions,
                token@,
                *old(refid) as int,
            ),
            *final(refid) == *old(refid) + self@.subscriptions.len(),
    {
        let mut sent: Vec<EventMessage> = Vec::new();
        let mut i: usize = 0;
        let ghost all = token_messages(self@.subscriptions, token@, *old(refid) as int);
        let ghost first: int = *old(refid) as int;
        while i < self.subscriptions.len()
            invariant
                i <= self.subscriptions.len(),
                all == token_messages(self@.subscriptions, token@, first),
                *refid == first + i,
                first + self.subscriptions.len() <= i64::MAX,
                messages(sent@) == all.take(i as int),
            decreases self.subscriptions.len() - i,
        {
            assert(self@.subscriptions[i as int] == self.subscriptions@[i as int]@);
            let ghost before = messages(sent@);
            let message = EventMessage {
                topic: self.subscriptions[i].topic.clone(),
                payload: Events::AccessToken { access_token: token.clone() },
                reference: Some(decimal_string(*refid)),
                join_ref: None,
            };
            sent.push(message);
            *refid = *refid + 1;
            i = i + 1;
            proof {
                assert(message@ == all[i - 1]);
                assert(messages(sent@) =~= before.push(message@));
                assert(all.take(i as int) =~= all.take(i - 1).push(all[i - 1]));
            }
        }
        assert(all.take(all.len() as int) =~= all);
        sent
    }

    /// Takes in an event of the connection, and gives the messages to send, in order. `refid` is
    /// the next reference, which starts at zero with a connection.
    pub fn process(&mut self, refid: &mut i64, event: Event) -> (sent: Vec<EventMessage>)
        requires
            old(self).wf(),
            next_refid(old(self)@, *old(refid) as int, event@) <= i64::MAX,
        ensures
            final(self).wf(),
            final(self)@ == after_event(old(self)@, *old(refid) as int, event@),
            messages(sent@) == sent_upon(old(self)@, *old(refid) as int, event@),
            *final(refid) == next_refid(old(self)@, *old(refid) as int, event@),
    {
        let mut sent: Vec<EventMessage> = Vec::new();
        match event {
            Event::Message(message) => {
                self.message_arrived(message);
            },
            Event::Command(Command::Subscribe(channel)) => {
                match self.join(refid, channel) {
                    Some(message) => sent.push(message),
                    None => {},
                }
            },
            Event::Command(Command::Unsubscribe(topic)) => {
                match self.leave(*refid, topic) {
                    Some(message) => sent.push(message),
                    None => {},
                }
            },
            Event::AccessToken(token) => {
                sent = self.announce(refid, token);
            },
            Event::Heartbeat => {
                sent.push(
                    EventMessage {
                        topic: "phoenix".to_owned(),
                        payload: Events::Heartbeat {  },
                        reference: Some(decimal_string(*refid)),
                        join_ref: None,
                    },
                );
                *refid = *refid + 1;
            },
        }
        assert(messages(sent@) =~= sent_upon(old(self)@, *old(refid) as int, event@));
        sent
    }

    /// Whether there are references left for the messages that `event` calls for.
    pub fn can_process(&self, refid: i64, event: &Event) -> (enough: bool)
        ensures
            enough == (next_refid(self@, refid as int, event@) <= i64::MAX),
    {
        let needed: usize = match event {
            Event::Message(_) => 0,
            Event::Command(Command::Subscribe(channel)) => if channel.join_ref.is_some() {
                0
            } else {
                1
            },
            Event::Command(Command::Unsubscribe(_)) => 0,
            Event::AccessToken(_) => self.subscriptions.len(),
            Event::Heartbeat => 1,
        };
        refid as i128 + needed as i128 <= i64::MAX as i128
    }

    /// The channel that is joined for `topic`, if there is one.
    pub fn subscription(&self, topic: &String) -> (channel: Option<&RealtimeChannel>)
        requires
            self.wf(),
        ensures
            match channel {
                Some(channel) => joined(self@.subscriptions, topic@) == Some(channel@),
                None => joined(self@.subscriptions, topic@) is None,
            },
    {
        match self.position(topic) {
            Some(i) => {
                let channel = &self.subscriptions[i];
                assert(self@.subscriptions[i as int] == channel@);
                Some(channel)
            },
            None => None,
        }
    }

    /// Takes the next table change out of a channel's mailbox.
    pub fn next_payload(&mut self, channel: &RealtimeChannel) -> (payload: Option<PostgresPayload>)
        requires
            old(self).wf(),
        ensures
            final(self).wf(),
            payload == first_payload(old(self)@.mailboxes, channel@.mailbox),
            final(self)@ == (ClientModel {
                mailboxes: without_first_payload(old(self)@.mailboxes, channel@.mailbox),
                ..old(self)@
            }),
    {
        let number = channel.mailbox;
        let mut payload: Option<PostgresPayload> = None;
        if number < self.mailboxes.len() {
            assert(self@.mailboxes[number as int] == mailbox_slot(self.mailboxes@[number as int]));
            match &mut self.mailboxes[number] {
                Some(mailbox) => {
                    payload = pop_payload(&mut mailbox.payloads);
                },
                None => {},
            }
        }
        proof {
            let mailboxes = old(self)@.mailboxes;
            if payload is Some {
                let mailbox = mailboxes[number as int]->0;
                let left = self@.mailboxes[number as int]->0;
                assert(mailbox.payloads.skip(1) =~= left.payloads);
                assert(self@.mailboxes =~= mailboxes.update(
                    number as int,
                    Some(MailboxModel { payloads: mailbox.payloads.skip(1), ..mailbox }),
                ));
            } else {
                assert(self@.mailboxes =~= mailboxes);
            }
        }
        payload
    }

    /// Takes the next broadcast out of a channel's mailbox.
    pub fn next_broadcast(&mut self, channel: &RealtimeChannel) -> (broadcast: Option<Value>)
        requires
            old(self).wf(),
        ensures
            final(self).wf(),
            broadcast == first_broadcast(old(self)@.mailboxes, channel@.mailbox),
            final(self)@ == (ClientModel {
                mailboxes: without_first_broadcast(old(self)@.mailboxes, channel@.mailbox),
                ..old(self)@
            }),
    {
        let number = channel.mailbox;
        let mut broadcast: Option<Value> = None;
        if number < self.mailboxes.len() {
            assert(self@.mailboxes[number as int] == mailbox_slot(self.mailboxes@[number as int]));
            match &mut self.mailboxes[number] {
                Some(mailbox) => {
                    broadcast = pop_broadcast(&mut mailbox.broadcasts);
                },
                None => {},
            }
        }
        proof {
            let mailboxes = old(self)@.mailboxes;
            if broadcast is Some {
                let mailbox = mailboxes[number as int]->0;
                let left = self@.mailboxes[number as int]->0;
                assert(mailbox.broadcasts.skip(1) =~= left.broadcasts);
                assert(self@.mailboxes =~= mailboxes.update(
                    number as int,
                    Some(MailboxModel { broadcasts: mailbox.broadcasts.skip(1), ..mailbox }),
                ));
            } else {
                assert(self@.mailboxes =~= mailboxes);
            }
        }
        broadcast
    }

    /// Throws a channel's mailbox away, with what is left in it.
    pub fn close(&mut self, channel: &RealtimeChannel)
        requires
            old(self).wf(),
        ensures
            final(self).wf(),
            final(self)@ == after_close(old(self)@, channel@.mailbox),
    {
        let number = channel.mailbox;
        let ghost mailboxes = self@.mailboxes;
        if number < self.mailboxes.len() {
            self.mailboxes[number] = None;
            assert(self@.mailboxes =~= mailboxes.update(number as int, None));
        }
    }
}

} // verus!
