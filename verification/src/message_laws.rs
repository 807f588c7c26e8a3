//! What holds of the messages that a realtime client sends, whatever its state.

use vstd::prelude::*;

use crate::client::{ClientModel, Event, EventModel};
use crate::realtime::{
    BroadcastConfig, ChannelModel, Command, CommandModel, EventMessage, Events, EventsModel,
    MessageModel, PostgresChanges, RealtimeChannel, SubscriptionSpec,
};

verus! {

/// A subscription to table changes is for the topic and the changes that were asked for: the event,
/// the schema, the table and the filter are kept.
pub proof fn subscriptions_keep_what_was_asked_for(
    client: ClientModel,
    topic: Seq<char>,
    changes: PostgresChanges,
    own: String,
)
    ensures
        ({
            let channel = crate::client::requested_channel(
                client,
                topic,
                SubscriptionSpec::PostgresChanges(changes),
            );
            &&& channel.topic == "realtime:"@ + topic
            &&& channel.postgres_changes.len() == 1
            &&& channel.postgres_changes[0].event == changes.event
            &&& channel.postgres_changes[0].schema@ == changes.schema@
            &&& channel.postgres_changes[0].table@ == changes.table@
            &&& channel.postgres_changes[0].filter == changes.filter
            &&& channel.mailbox == client.mailboxes.len()
            &&& channel.join_ref is None
            &&& channel == crate::delivery_laws::new_channel(
                client,
                "realtime:"@ + topic,
                seq![changes],
            )
        }),
        ({
            let channel = crate::client::requested_channel(
                client,
                topic,
                SubscriptionSpec::BroadcastChannel(own),
            );
            &&& channel.topic == "realtime:"@ + own@
            &&& channel.postgres_changes.len() == 0
            &&& channel.mailbox == client.mailboxes.len()
            &&& channel.join_ref is None
            &&& channel == crate::delivery_laws::new_channel(client, "realtime:"@ + own@, seq![])
        }),
{
}

/// The message that joins a channel tells the service which table changes the channel listens to,
/// unchanged, and the client's access token. A channel that listens to none is joined as a private
/// one, for broadcasts other than its own, without receipts.
pub proof fn joining_tells_what_the_channel_listens_to(
    client: ClientModel,
    refid: int,
    channel: ChannelModel,
)
    requires
        channel.join_ref is None,
    ensures
        ({
            let sent = crate::client::sent_upon(
                client,
                refid,
                EventModel::Command(CommandModel::Subscribe(channel)),
            );
            &&& sent.len() == 1
            &&& sent[0].topic == channel.topic
            &&& sent[0].reference == Some(crate::text::decimal(refid))
            &&& sent[0].join_ref is None
            &&& sent[0].payload matches EventsModel::Join {
                private,
                broadcast,
                postgres_changes,
                access_token,
            } && {
                &&& postgres_changes == channel.postgres_changes
                &&& access_token == client.access_token
                &&& channel.postgres_changes.len() == 0 ==> {
                    &&& private == Some(true)
                    &&& broadcast == Some(BroadcastConfig { self_messages: false, ack: false })
                }
                &&& channel.postgres_changes.len() > 0 ==> private is None && broadcast is None
            }
        }),
{
}

/// A subscription to table changes is joined with exactly the changes that were asked for, whatever
/// became of the client between the asking and the joining.
pub proof fn subscriptions_join_with_what_was_asked_for(
    asked: ClientModel,
    client: ClientModel,
    refid: int,
    topic: Seq<char>,
    changes: PostgresChanges,
)
    ensures
        ({
            let channel = crate::client::requested_channel(
                asked,
                topic,
                SubscriptionSpec::PostgresChanges(changes),
            );
            let sent = crate::client::sent_upon(
                client,
                refid,
                EventModel::Command(CommandModel::Subscribe(channel)),
            );
            &&& sent.len() == 1
            &&& sent[0].topic == "realtime:"@ + topic
            &&& sent[0].payload matches EventsModel::Join {
                private,
                broadcast,
                postgres_changes,
                access_token,
            } && {
                &&& postgres_changes == seq![changes]
                &&& postgres_changes[0].event == changes.event
                &&& postgres_changes[0].schema@ == changes.schema@
                &&& postgres_changes[0].table@ == changes.table@
                &&& postgres_changes[0].filter == changes.filter
                &&& private is None
                &&& broadcast is None
                &&& access_token == client.access_token
            }
        }),
{
}

/// A channel that was joined before is not joined again: nothing is sent and nothing changes.
pub proof fn joined_channels_are_not_joined_again(
    client: ClientModel,
    refid: int,
    channel: ChannelModel,
)
    requires
        channel.join_ref is Some,
    ensures
        ({
            let event = EventModel::Command(CommandModel::Subscribe(channel));
            &&& crate::client::sent_upon(client, refid, event).len() == 0
            &&& crate::client::after_event(client, refid, event) == client
            &&& crate::client::next_refid(client, refid, event) == refid
        }),
{
}

/// Leaving a topic sends one message where the topic is joined, which names the message that joined
/// it, and none where it is not.
pub proof fn leaving_tells_which_join_it_undoes(
    client: ClientModel,
    refid: int,
    topic: Seq<char>,
    i: int,
)
    requires
        client.wf(),
    ensures
        ({
            let sent = crate::client::sent_upon(
                client,
                refid,
                EventModel::Command(CommandModel::Unsubscribe(topic)),
            );
            &&& 0 <= i < client.subscriptions.len() && client.subscriptions[i].topic == topic ==> {
                &&& sent.len() == 1
                &&& sent[0].topic == topic
                &&& sent[0].payload is Leave
                &&& sent[0].reference == Some(crate::text::decimal(refid))
                &&& sent[0].join_ref == client.subscriptions[i].join_ref
            }
            &&& (forall|k: int|
                0 <= k < client.subscriptions.len() ==> #[trigger] client.subscriptions[k].topic
                    != topic) ==> sent.len() == 0
        }),
{
    if 0 <= i < client.subscriptions.len() && client.subscriptions[i].topic == topic {
        crate::realtime_laws::lemma_joined(client, i);
    }
}

/// A new access token is told to every joined channel in turn, with a reference for each.
pub proof fn channels_are_told_of_a_new_token(client: ClientModel, refid: int, token: Seq<char>)
    ensures
        ({
            let sent = crate::client::sent_upon(client, refid, EventModel::AccessToken(token));
            &&& sent.len() == client.subscriptions.len()
            &&& forall|i: int|
                0 <= i < sent.len() ==> {
                    &&& (#[trigger] sent[i]).topic == client.subscriptions[i].topic
                    &&& sent[i].payload matches EventsModel::AccessToken { access_token }
                        && access_token == token
                    &&& sent[i].reference == Some(crate::text::decimal(refid + i))
                    &&& sent[i].join_ref is None
                }
        }),
{
}

/// A sign of life is one message on the service's own topic, and a message that arrives is answered
/// by none.
pub proof fn heartbeats_and_arrivals(client: ClientModel, refid: int, message: MessageModel)
    ensures
        ({
            let sent = crate::client::sent_upon(client, refid, EventModel::Heartbeat);
            &&& sent.len() == 1
            &&& sent[0].topic == "phoenix"@
            &&& sent[0].payload is Heartbeat
            &&& sent[0].reference == Some(crate::text::decimal(refid))
            &&& sent[0].join_ref is None
        }),
        crate::client::sent_upon(client, refid, EventModel::Message(message)).len() == 0,
        crate::client::HEARTBEAT_SECONDS == 30,
        crate::client::POLL_MILLISECONDS == 10,
{
}

/// How many references an event uses up: one for each channel that is joined or told of a token,
/// one for a sign of life, and none for anything else.
pub proof fn references_are_used_up_by_messages(
    client: ClientModel,
    refid: int,
    channel: ChannelModel,
    topic: Seq<char>,
    message: MessageModel,
)
    ensures
        channel.join_ref is None ==> crate::client::next_refid(
            client,
            refid,
            EventModel::Command(CommandModel::Subscribe(channel)),
        ) == refid + 1,
        crate::client::next_refid(
            client,
            refid,
            EventModel::Command(CommandModel::Unsubscribe(topic)),
        ) == refid,
        crate::client::next_refid(client, refid, EventModel::AccessToken(topic)) == refid
            + client.subscriptions.len(),
        crate::client::next_refid(client, refid, EventModel::Heartbeat) == refid + 1,
        crate::client::next_refid(client, refid, EventModel::Message(message)) == refid,
{
}

/// The websocket URL is the project's URL with `ws` for every `http`, followed by the realtime
/// service's path, the project's key and the protocol's version.
pub proof fn the_websocket_url(supabase_url: Seq<char>, key: Seq<char>, rest: Seq<char>)
    ensures
        crate::client::realtime_url(supabase_url, key) == crate::text_laws::glued(
            crate::text::split(supabase_url, "http"@),
            "ws"@,
        ) + "/realtime/v1/websocket?apikey="@ + key + "&vsn=1.0.0"@,
        supabase_url == "http"@ + rest && (forall|k: int|
            !#[trigger] crate::text_laws::occurs_at(rest, "http"@, k))
            ==> crate::client::realtime_url(supabase_url, key) == "ws"@ + rest
            + "/realtime/v1/websocket?apikey="@ + key + "&vsn=1.0.0"@,
{
    reveal_strlit("http");
    crate::text_laws::replacing_glues_the_parts(supabase_url, "http"@, "ws"@);
    if supabase_url == "http"@ + rest && (forall|k: int|
        !#[trigger] crate::text_laws::occurs_at(rest, "http"@, k)) {
        assert(supabase_url.subrange(0, 4) =~= "http"@);
        crate::text_laws::the_first_occurrence_is_found(supabase_url, "http"@, 0);
        crate::text_laws::the_first_occurrence_is_found(rest, "http"@, 0);
        assert(supabase_url.skip(4) =~= rest);
        assert(supabase_url.take(0) + "ws"@ + rest =~= "ws"@ + rest);
        assert(crate::text::replace(rest, "http"@, "ws"@) == rest);
    }
}

/// What a message says, and what a channel, a command and an event are, can be told from their
/// fields.
pub proof fn models_are_what_the_fields_hold(
    message: EventMessage,
    channel: RealtimeChannel,
    command: Command,
    event: Event,
    sent: Seq<EventMessage>,
)
    ensures
        message@.topic == message.topic@,
        message@.payload == message.payload@,
        message@.reference == match message.reference {
            Some(reference) => Some(reference@),
            None => None,
        },
        message@.join_ref == match message.join_ref {
            Some(reference) => Some(reference@),
            None => None,
        },
        channel@.topic == channel.topic@,
        channel@.postgres_changes == channel.postgres_changes@,
        channel@.mailbox == channel.mailbox,
        channel@.join_ref == match channel.join_ref {
            Some(reference) => Some(reference@),
            None => None,
        },
        match command {
            Command::Subscribe(asked) => command@ == CommandModel::Subscribe(asked@),
            Command::Unsubscribe(topic) => command@ == CommandModel::Unsubscribe(topic@),
        },
        match event {
            Event::Message(arrived) => event@ == EventModel::Message(arrived@),
            Event::Command(asked) => event@ == EventModel::Command(asked@),
            Event::AccessToken(token) => event@ == EventModel::AccessToken(token@),
            Event::Heartbeat => event@ is Heartbeat,
        },
        crate::client::messages(sent).len() == sent.len(),
        forall|i: int| 0 <= i < sent.len() ==> #[trigger] crate::client::messages(sent)[i] == sent[i]@,
{
}

/// What a message says can be told from its fields.
pub proof fn payloads_are_what_the_fields_hold(payload: Events)
    ensures
        match payload {
            Events::Join { config, access_token } => payload@ == (EventsModel::Join {
                private: config.private,
                broadcast: config.broadcast,
                postgres_changes: config.postgres_changes@,
                access_token: match access_token {
                    Some(token) => Some(token@),
                    None => None,
                },
            }),
            Events::Leave {  } => payload@ is Leave,
            Events::Heartbeat {  } => payload@ is Heartbeat,
            Events::PostgresChanges { data, ids } => payload@ == (EventsModel::PostgresChanges {
                data,
                ids: ids@,
            }),
            Events::Broadcast { ty, event, payload: said } => payload@ == (EventsModel::Broadcast {
                ty: ty@,
                event: event@,
                payload: said,
            }),
            Events::AccessToken { access_token } => payload@ == (EventsModel::AccessToken {
                access_token: access_token@,
            }),
        },
{
}

} // verus!
