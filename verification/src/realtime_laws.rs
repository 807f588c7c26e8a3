//! What holds of a realtime client as a whole.

use serde_json::Value;
use vstd::prelude::*;

use crate::client::{ClientModel, EventModel, MailboxModel};
use crate::realtime::{ChannelModel, CommandModel, EventsModel, MessageModel, PostgresPayload};

verus! {

pub(crate) proof fn lemma_joined(client: ClientModel, i: int)
    requires
        client.wf(),
        0 <= i < client.subscriptions.len(),
    ensures
        crate::client::joined(client.subscriptions, client.subscriptions[i].topic) == Some(
            client.subscriptions[i],
        ),
{
}

pub(crate) proof fn lemma_without_joined(subscriptions: Seq<ChannelModel>, topic: Seq<char>)
    ensures
        crate::client::joined(crate::client::without(subscriptions, topic), topic) is None,
{
    crate::client::lemma_without(subscriptions, topic);
}

proof fn lemma_without_push(
    subscriptions: Seq<ChannelModel>,
    channel: ChannelModel,
    topic: Seq<char>,
)
    ensures
        crate::client::without(subscriptions.push(channel), topic) == if channel.topic == topic {
            crate::client::without(subscriptions, topic)
        } else {
            crate::client::without(subscriptions, topic).push(channel)
        },
{
    reveal(Seq::filter);
    assert(subscriptions.push(channel).drop_last() =~= subscriptions);
}

proof fn lemma_without_twice(subscriptions: Seq<ChannelModel>, topic: Seq<char>)
    ensures
        crate::client::without(crate::client::without(subscriptions, topic), topic)
            == crate::client::without(subscriptions, topic),
    decreases subscriptions.len(),
{
    reveal(Seq::filter);
    if subscriptions.len() > 0 {
        let init = subscriptions.drop_last();
        lemma_without_twice(init, topic);
        lemma_without_push(
            crate::client::without(init, topic),
            subscriptions.last(),
            topic,
        );
    }
}

pub(crate) proof fn lemma_without_order(subscriptions: Seq<ChannelModel>, topic: Seq<char>)
    ensures
        ({
            let rest = crate::client::without(subscriptions, topic);
            forall|i: int, j: int|
                0 <= i < j < rest.len() ==> exists|k: int, l: int|
                    0 <= k < l < subscriptions.len() && #[trigger] subscriptions[k] == #[trigger] rest[i]
                        && #[trigger] subscriptions[l] == #[trigger] rest[j]
        }),
    decreases subscriptions.len(),
{
    reveal(Seq::filter);
    let rest = crate::client::without(subscriptions, topic);
    if subscriptions.len() > 0 {
        let init = subscriptions.drop_last();
        lemma_without_order(init, topic);
        crate::client::lemma_without(init, topic);
        let shorter = crate::client::without(init, topic);
        assert forall|i: int, j: int| 0 <= i < j < rest.len() implies exists|k: int, l: int|
            0 <= k < l < subscriptions.len() && #[trigger] subscriptions[k] == #[trigger] rest[i]
                && #[trigger] subscriptions[l] == #[trigger] rest[j] by {
            assert(rest[i] == shorter[i]);
            if j < shorter.len() {
                assert(rest[j] == shorter[j]);
                let (k, l) = choose|k: int, l: int|
                    0 <= k < l < init.len() && #[trigger] init[k] == #[trigger] shorter[i]
                        && #[trigger] init[l] == #[trigger] shorter[j];
                assert(subscriptions[k] == rest[i] && subscriptions[l] == rest[j]);
            } else {
                let k = choose|k: int| 0 <= k < init.len() && init[k] == shorter[i];
                assert(subscriptions[k] == rest[i]);
                assert(subscriptions[subscriptions.len() - 1] == rest[j]);
            }
        }
    }
}

/// Every event keeps the client's invariant: a topic is joined at most once, and every joined
/// channel knows the reference it was joined with.
pub proof fn events_keep_the_invariant(client: ClientModel, refid: int, event: EventModel)
    requires
        client.wf(),
    ensures
        crate::client::after_event(client, refid, event).wf(),
{
    if let EventModel::Command(command) = event {
        let topic = match command {
            CommandModel::Subscribe(channel) => channel.topic,
            CommandModel::Unsubscribe(topic) => topic,
        };
        let rest = crate::client::without(client.subscriptions, topic);
        crate::client::lemma_without(client.subscriptions, topic);
        lemma_without_order(client.subscriptions, topic);
        assert forall|i: int, j: int| 0 <= i < j < rest.len() implies #[trigger] rest[i].topic
            != #[trigger] rest[j].topic by {
            let a = rest[i];
            let b = rest[j];
            let (k, l) = choose|k: int, l: int|
                0 <= k < l < client.subscriptions.len() && #[trigger] client.subscriptions[k]
                    == a && #[trigger] client.subscriptions[l] == b;
            assert(client.subscriptions[k].topic != client.subscriptions[l].topic);
        }
        assert forall|i: int| 0 <= i < rest.len() implies #[trigger] rest[i].join_ref is Some by {
            assert(client.subscriptions.contains(rest[i]));
            let k = choose|k: int|
                0 <= k < client.subscriptions.len() && client.subscriptions[k] == rest[i];
            assert(client.subscriptions[k].join_ref is Some);
        }
    }
}

/// The client after `channel` was joined with the reference `refid`.
pub open spec fn after_join(client: ClientModel, refid: int, channel: ChannelModel) -> ClientModel {
    crate::client::after_event(
        client,
        refid,
        EventModel::Command(CommandModel::Subscribe(channel)),
    )
}

/// A channel that is joined is the one that its topic's messages go to, also where the topic was
/// joined before, and joining it changes no other topic's channel.
pub proof fn joining_takes_over_the_topic(
    client: ClientModel,
    refid: int,
    channel: ChannelModel,
    topic: Seq<char>,
)
    requires
        client.wf(),
        channel.join_ref is None,
    ensures
        crate::client::joined(after_join(client, refid, channel).subscriptions, topic)
            == if topic == channel.topic {
            Some(ChannelModel { join_ref: Some(crate::text::decimal(refid)), ..channel })
        } else {
            crate::client::joined(client.subscriptions, topic)
        },
{
    let after = after_join(client, refid, channel);
    let rest = crate::client::without(client.subscriptions, channel.topic);
    let n = rest.len() as int;
    events_keep_the_invariant(
        client,
        refid,
        EventModel::Command(CommandModel::Subscribe(channel)),
    );
    lemma_joined(after, n);
    assert(forall|i: int| 0 <= i < n ==> after.subscriptions[i] == #[trigger] rest[i]);
    if topic != channel.topic {
        if exists|i: int| 0 <= i < n && #[trigger] rest[i].topic == topic {
            let i = choose|i: int| 0 <= i < n && #[trigger] rest[i].topic == topic;
            lemma_joined(after, i);
            lemma_joined(ClientModel { subscriptions: rest, ..client }, i);
        } else {
            assert forall|i: int| 0 <= i < after.subscriptions.len() implies
                #[trigger] after.subscriptions[i].topic != topic by {
                if i < n {
                    assert(after.subscriptions[i] == rest[i]);
                }
            }
        }
        lemma_joined_without(client, channel.topic, topic);
    }
}

proof fn lemma_same_other(
    subscriptions: Seq<ChannelModel>,
    topic: Seq<char>,
    other: Seq<char>,
)
    requires
        other != topic,
    ensures
        forall|i: int|
            0 <= i < subscriptions.len() && #[trigger] subscriptions[i].topic == other
                ==> crate::client::without(subscriptions, topic).contains(subscriptions[i]),
    decreases subscriptions.len(),
{
    reveal(Seq::filter);
    if subscriptions.len() > 0 {
        let init = subscriptions.drop_last();
        lemma_same_other(init, topic, other);
        let shorter = crate::client::without(init, topic);
        let rest = crate::client::without(subscriptions, topic);
        assert forall|i: int|
            0 <= i < subscriptions.len() && #[trigger] subscriptions[i].topic
                == other implies rest.contains(subscriptions[i]) by {
            if i < init.len() {
                assert(init[i].topic == other);
                let k = choose|k: int| 0 <= k < shorter.len() && shorter[k] == init[i];
                assert(rest[k] == subscriptions[i]);
            } else {
                assert(rest[rest.len() - 1] == subscriptions[i]);
            }
        }
    }
}

pub(crate) proof fn lemma_joined_without(client: ClientModel, topic: Seq<char>, other: Seq<char>)
    requires
        client.wf(),
        other != topic,
    ensures
        crate::client::joined(crate::client::without(client.subscriptions, topic), other)
            == crate::client::joined(client.subscriptions, other),
{
    let rest = crate::client::without(client.subscriptions, topic);
    crate::client::lemma_without(client.subscriptions, topic);
    lemma_same_other(client.subscriptions, topic, other);
    let after = crate::client::after_event(
        client,
        0,
        EventModel::Command(CommandModel::Unsubscribe(topic)),
    );
    events_keep_the_invariant(
        client,
        0,
        EventModel::Command(CommandModel::Unsubscribe(topic)),
    );
    if exists|i: int|
        0 <= i < client.subscriptions.len() && #[trigger] client.subscriptions[i].topic == other {
        let i = choose|i: int|
            0 <= i < client.subscriptions.len() && #[trigger] client.subscriptions[i].topic
                == other;
        let k = choose|k: int| 0 <= k < rest.len() && rest[k] == client.subscriptions[i];
        lemma_joined(client, i);
        lemma_joined(after, k);
    } else {
        assert forall|k: int| 0 <= k < rest.len() implies #[trigger] rest[k].topic != other by {
            assert(client.subscriptions.contains(rest[k]));
        }
    }
}

/// Leaving a channel undoes joining it: the other topics' channels are as they were, the topic is
/// not joined, and the message that leaves names the message that joined.
pub proof fn leaving_undoes_joining(
    client: ClientModel,
    refid: int,
    channel: ChannelModel,
    later: int,
)
    requires
        client.wf(),
        channel.join_ref is None,
    ensures
        ({
            let subscribe = EventModel::Command(CommandModel::Subscribe(channel));
            let unsubscribe = EventModel::Command(CommandModel::Unsubscribe(channel.topic));
            let joined = after_join(client, refid, channel);
            let left = crate::client::after_event(joined, later, unsubscribe);
            let first = crate::client::sent_upon(client, refid, subscribe);
            let last = crate::client::sent_upon(joined, later, unsubscribe);
            &&& first.len() == 1
            &&& last.len() == 1
            &&& last[0].join_ref == first[0].reference
            &&& left == (ClientModel {
                subscriptions: crate::client::without(client.subscriptions, channel.topic),
                ..client
            })
            &&& crate::client::joined(left.subscriptions, channel.topic) is None
        }),
{
    let joined = after_join(client, refid, channel);
    let member = ChannelModel { join_ref: Some(crate::text::decimal(refid)), ..channel };
    let rest = crate::client::without(client.subscriptions, channel.topic);
    events_keep_the_invariant(
        client,
        refid,
        EventModel::Command(CommandModel::Subscribe(channel)),
    );
    lemma_joined(joined, rest.len() as int);
    lemma_without_push(rest, member, channel.topic);
    lemma_without_twice(client.subscriptions, channel.topic);
    lemma_without_joined(client.subscriptions, channel.topic);
}

/// A channel that is joined after the access token was updated is joined with the new one.
pub proof fn channels_join_with_the_latest_token(
    client: ClientModel,
    token: Seq<char>,
    refid: int,
    channel: ChannelModel,
)
    requires
        channel.join_ref is None,
    ensures
        ({
            let sent = crate::client::sent_upon(
                crate::client::after_update(client, token),
                refid,
                EventModel::Command(CommandModel::Subscribe(channel)),
            );
            &&& sent.len() == 1
            &&& sent[0].topic == channel.topic
            &&& sent[0].payload matches EventsModel::Join { access_token, .. } && access_token
                == Some(token)
        }),
{
}

/// A message for a topic that is not joined changes nothing.
pub proof fn messages_of_other_topics_are_dropped(client: ClientModel, message: MessageModel)
    requires
        crate::client::joined(client.subscriptions, message.topic) is None,
    ensures
        crate::client::after_message(client, message) == client,
{
}

/// A message reaches the mailbox of its topic's channel and no other.
pub proof fn a_message_reaches_one_mailbox(
    client: ClientModel,
    message: MessageModel,
    number: int,
)
    requires
        crate::client::joined(client.subscriptions, message.topic) matches Some(channel)
            ==> channel.mailbox != number,
    ensures
        crate::client::mailbox_at(
            crate::client::after_message(client, message).mailboxes,
            number,
        ) == crate::client::mailbox_at(client.mailboxes, number),
{
}

/// Table changes leave an open mailbox in the order in which they came: one that comes into a
/// mailbox without any is the next to leave, and leaves the mailbox as it was; one that comes
/// behind others changes nothing about which leaves first.
pub proof fn changes_leave_in_order(
    mailboxes: Seq<Option<MailboxModel>>,
    number: int,
    payload: PostgresPayload,
)
    requires
        crate::client::mailbox_at(mailboxes, number) is Some,
    ensures
        ({
            let after = crate::client::with_payload(mailboxes, number, payload);
            match crate::client::first_payload(mailboxes, number) {
                Some(first) => {
                    &&& crate::client::first_payload(after, number) == Some(first)
                    &&& crate::client::without_first_payload(after, number)
                        == crate::client::with_payload(
                        crate::client::without_first_payload(mailboxes, number),
                        number,
                        payload,
                    )
                },
                None => {
                    &&& crate::client::first_payload(after, number) == Some(payload)
                    &&& crate::client::without_first_payload(after, number) == mailboxes
                },
            }
        }),
{
    let after = crate::client::with_payload(mailboxes, number, payload);
    let mailbox = crate::client::mailbox_at(mailboxes, number)->0;
    if mailbox.payloads.len() == 0 {
        assert(mailbox.payloads.push(payload).skip(1) =~= mailbox.payloads);
        assert(crate::client::without_first_payload(after, number) =~= mailboxes);
    } else {
        assert(mailbox.payloads.push(payload).skip(1) =~= mailbox.payloads.skip(1).push(payload));
        assert(crate::client::without_first_payload(after, number) =~= crate::client::with_payload(
            crate::client::without_first_payload(mailboxes, number),
            number,
            payload,
        ));
    }
}

/// Broadcasts leave an open mailbox in the order in which they came: one that comes into a
/// mailbox without any is the next to leave, and leaves the mailbox as it was; one that comes
/// behind others changes nothing about which leaves first.
pub proof fn broadcasts_leave_in_order(
    mailboxes: Seq<Option<MailboxModel>>,
    number: int,
    broadcast: Value,
)
    requires
        crate::client::mailbox_at(mailboxes, number) is Some,
    ensures
        ({
            let after = crate::client::with_broadcast(mailboxes, number, broadcast);
            match crate::client::first_broadcast(mailboxes, number) {
                Some(first) => {
                    &&& crate::client::first_broadcast(after, number) == Some(first)
                    &&& crate::client::without_first_broadcast(after, number)
                        == crate::client::with_broadcast(
                        crate::client::without_first_broadcast(mailboxes, number),
                        number,
                        broadcast,
                    )
                },
                None => {
                    &&& crate::client::first_broadcast(after, number) == Some(broadcast)
                    &&& crate::client::without_first_broadcast(after, number) == mailboxes
                },
            }
        }),
{
    let after = crate::client::with_broadcast(mailboxes, number, broadcast);
    let mailbox = crate::client::mailbox_at(mailboxes, number)->0;
    if mailbox.broadcasts.len() == 0 {
        assert(mailbox.broadcasts.push(broadcast).skip(1) =~= mailbox.broadcasts);
        assert(crate::client::without_first_broadcast(after, number) =~= mailboxes);
    } else {
        assert(mailbox.broadcasts.push(broadcast).skip(1) =~= mailbox.broadcasts.skip(1).push(broadcast));
        assert(crate::client::without_first_broadcast(after, number) =~= crate::client::with_broadcast(
            crate::client::without_first_broadcast(mailboxes, number),
            number,
            broadcast,
        ));
    }
}

/// Commands are carried out in the order in which they were asked for: one that is asked for when
/// none waits is the next, and one that is asked for behind others changes nothing about which is
/// next.
pub proof fn commands_leave_in_order(client: ClientModel, channel: ChannelModel, topic: Seq<char>)
    ensures
        ({
            let subscribed = crate::client::after_subscribe(client, channel);
            let left = crate::client::after_unsubscribe(client, topic);
            if client.commands.len() == 0 {
                &&& subscribed.commands[0] == CommandModel::Subscribe(channel)
                &&& left.commands[0] == CommandModel::Unsubscribe(topic)
                &&& crate::client::without_next_command(left) == client
            } else {
                &&& subscribed.commands[0] == client.commands[0]
                &&& left.commands[0] == client.commands[0]
                &&& crate::client::without_next_command(subscribed)
                    == crate::client::after_subscribe(
                    crate::client::without_next_command(client),
                    channel,
                )
                &&& crate::client::without_next_command(left) == crate::client::after_unsubscribe(
                    crate::client::without_next_command(client),
                    topic,
                )
            }
        }),
{
    let subscribe = CommandModel::Subscribe(channel);
    let unsubscribe = CommandModel::Unsubscribe(topic);
    if client.commands.len() == 0 {
        assert(client.commands.push(unsubscribe).skip(1) =~= client.commands);
    } else {
        assert(client.commands.push(subscribe).skip(1) =~= client.commands.skip(1).push(subscribe));
        assert(client.commands.push(unsubscribe).skip(1) =~= client.commands.skip(1).push(
            unsubscribe,
        ));
    }
}

/// Access tokens are announced in the order in which they were set.
pub proof fn tokens_leave_in_order(client: ClientModel, token: Seq<char>)
    ensures
        ({
            let updated = crate::client::after_update(client, token);
            if client.access_tokens.len() == 0 {
                &&& updated.access_tokens[0] == token
                &&& crate::client::without_next_token(updated) == (ClientModel {
                    access_token: Some(token),
                    ..client
                })
            } else {
                &&& updated.access_tokens[0] == client.access_tokens[0]
                &&& crate::client::without_next_token(updated) == crate::client::after_update(
                    crate::client::without_next_token(client),
                    token,
                )
            }
        }),
{
    if client.access_tokens.len() == 0 {
        assert(client.access_tokens.push(token).skip(1) =~= client.access_tokens);
    } else {
        assert(client.access_tokens.push(token).skip(1) =~= client.access_tokens.skip(1).push(
            token,
        ));
    }
}

/// Every joined channel is told of a new access token, once, and nobody else is.
pub proof fn every_channel_is_told_once(client: ClientModel, refid: int, token: Seq<char>)
    requires
        client.wf(),
    ensures
        ({
            let sent = crate::client::sent_upon(client, refid, EventModel::AccessToken(token));
            &&& forall|i: int|
                0 <= i < sent.len() ==> (#[trigger] sent[i]).payload == (EventsModel::AccessToken {
                    access_token: token,
                }) && crate::client::joined(client.subscriptions, sent[i].topic) is Some
            &&& forall|i: int, j: int|
                0 <= i < j < sent.len() ==> (#[trigger] sent[i]).topic != (#[trigger] sent[j]).topic
            &&& forall|topic: Seq<char>|
                #[trigger] crate::client::joined(client.subscriptions, topic) is Some ==> exists|
                    i: int,
                |
                    0 <= i < sent.len() && (#[trigger] sent[i]).topic == topic
        }),
{
    let sent = crate::client::sent_upon(client, refid, EventModel::AccessToken(token));
    assert forall|i: int| 0 <= i < sent.len() implies crate::client::joined(
        client.subscriptions,
        (#[trigger] sent[i]).topic,
    ) is Some by {
        lemma_joined(client, i);
    }
    assert forall|topic: Seq<char>|
        #[trigger] crate::client::joined(client.subscriptions, topic) is Some implies exists|i: int|
        0 <= i < sent.len() && (#[trigger] sent[i]).topic == topic by {
        let i = choose|i: int|
            0 <= i < client.subscriptions.len() && #[trigger] client.subscriptions[i].topic
                == topic;
        assert(sent[i].topic == topic);
    }
}

} // verus!
