//! What each operation changes in a realtime client, and what it leaves as it was.

use vstd::prelude::*;

use crate::client::{ClientModel, EventModel, MailboxModel};
use crate::realtime::{ChannelModel, CommandModel, EventsModel, MessageModel};

verus! {

/// Whether two clients agree in everything but their subscriptions.
pub open spec fn same_but_subscriptions(before: ClientModel, after: ClientModel) -> bool {
    &&& after.realtime_url == before.realtime_url
    &&& after.access_token == before.access_token
    &&& after.access_tokens == before.access_tokens
    &&& after.commands == before.commands
    &&& after.mailboxes == before.mailboxes
}

/// Whether two clients agree in everything but their mailboxes.
pub open spec fn same_but_mailboxes(before: ClientModel, after: ClientModel) -> bool {
    &&& after.realtime_url == before.realtime_url
    &&& after.subscriptions == before.subscriptions
    &&& after.access_token == before.access_token
    &&& after.access_tokens == before.access_tokens
    &&& after.commands == before.commands
}

/// Asking for a channel puts its command behind the others and opens an empty mailbox behind the
/// others. Asking to leave a topic only puts its command behind the others.
pub proof fn asking_puts_a_command_last(
    client: ClientModel,
    channel: ChannelModel,
    topic: Seq<char>,
)
    ensures
        ({
            let after = crate::client::after_subscribe(client, channel);
            &&& after.commands.len() == client.commands.len() + 1
            &&& after.commands.drop_last() == client.commands
            &&& after.commands.last() == CommandModel::Subscribe(channel)
            &&& after.mailboxes.len() == client.mailboxes.len() + 1
            &&& after.mailboxes.drop_last() == client.mailboxes
            &&& after.mailboxes.last() matches Some(mailbox) && mailbox.payloads.len() == 0
                && mailbox.broadcasts.len() == 0
            &&& after.realtime_url == client.realtime_url
            &&& after.subscriptions == client.subscriptions
            &&& after.access_token == client.access_token
            &&& after.access_tokens == client.access_tokens
        }),
        ({
            let after = crate::client::after_unsubscribe(client, topic);
            &&& after.commands.len() == client.commands.len() + 1
            &&& after.commands.drop_last() == client.commands
            &&& after.commands.last() == CommandModel::Unsubscribe(topic)
            &&& after.mailboxes == client.mailboxes
            &&& after.realtime_url == client.realtime_url
            &&& after.subscriptions == client.subscriptions
            &&& after.access_token == client.access_token
            &&& after.access_tokens == client.access_tokens
        }),
{
    let asked = crate::client::after_subscribe(client, channel);
    assert(asked.commands.drop_last() =~= client.commands);
    assert(asked.mailboxes.drop_last() =~= client.mailboxes);
    assert(crate::client::after_unsubscribe(client, topic).commands.drop_last()
        =~= client.commands);
}

/// A new access token counts at once, and is put behind the others that the channels have to be
/// told of; nothing else changes.
pub proof fn a_new_token_counts_at_once(client: ClientModel, token: Seq<char>)
    ensures
        ({
            let after = crate::client::after_update(client, token);
            &&& after.access_token == Some(token)
            &&& after.access_tokens.len() == client.access_tokens.len() + 1
            &&& after.access_tokens.drop_last() == client.access_tokens
            &&& after.access_tokens.last() == token
            &&& after.realtime_url == client.realtime_url
            &&& after.subscriptions == client.subscriptions
            &&& after.commands == client.commands
            &&& after.mailboxes == client.mailboxes
        }),
{
    assert(crate::client::after_update(client, token).access_tokens.drop_last()
        =~= client.access_tokens);
}

/// Taking the next command, or the next access token, takes the first one away; the others stay in
/// their order, and nothing else changes.
pub proof fn taking_takes_the_first(client: ClientModel)
    ensures
        client.commands.len() > 0 ==> {
            let after = crate::client::without_next_command(client);
            &&& seq![client.commands[0]] + after.commands == client.commands
            &&& after.realtime_url == client.realtime_url
            &&& after.subscriptions == client.subscriptions
            &&& after.access_token == client.access_token
            &&& after.access_tokens == client.access_tokens
            &&& after.mailboxes == client.mailboxes
        },
        client.access_tokens.len() > 0 ==> {
            let after = crate::client::without_next_token(client);
            &&& seq![client.access_tokens[0]] + after.access_tokens == client.access_tokens
            &&& after.realtime_url == client.realtime_url
            &&& after.subscriptions == client.subscriptions
            &&& after.access_token == client.access_token
            &&& after.commands == client.commands
            &&& after.mailboxes == client.mailboxes
        },
{
    if client.commands.len() > 0 {
        assert(seq![client.commands[0]] + crate::client::without_next_command(client).commands
            =~= client.commands);
    }
    if client.access_tokens.len() > 0 {
        assert(seq![client.access_tokens[0]] + crate::client::without_next_token(
            client,
        ).access_tokens =~= client.access_tokens);
    }
}

/// The channel that is joined for a topic is one that is there, for that topic, and there is none
/// only where no channel is there for it.
pub proof fn the_joined_channel_is_the_topics(client: ClientModel, topic: Seq<char>, i: int)
    requires
        client.wf(),
    ensures
        0 <= i < client.subscriptions.len() && client.subscriptions[i].topic == topic
            ==> crate::client::joined(client.subscriptions, topic) == Some(
            client.subscriptions[i],
        ),
        crate::client::joined(client.subscriptions, topic) is None <==> forall|k: int|
            0 <= k < client.subscriptions.len() ==> #[trigger] client.subscriptions[k].topic
                != topic,
        forall|k: int, l: int|
            0 <= k < client.subscriptions.len() && 0 <= l < client.subscriptions.len()
                && #[trigger] client.subscriptions[k].topic
                == #[trigger] client.subscriptions[l].topic ==> k == l,
        forall|k: int|
            0 <= k < client.subscriptions.len() ==> #[trigger] client.subscriptions[k].join_ref
                is Some,
{
    if 0 <= i < client.subscriptions.len() && client.subscriptions[i].topic == topic {
        crate::realtime_laws::lemma_joined(client, i);
    }
}

proof fn lemma_without_keeps(subscriptions: Seq<ChannelModel>, topic: Seq<char>, kept: ChannelModel)
    requires
        kept.topic != topic,
        subscriptions.contains(kept),
    ensures
        crate::client::without(subscriptions, topic).contains(kept),
    decreases subscriptions.len(),
{
    reveal(Seq::filter);
    let init = subscriptions.drop_last();
    let rest = crate::client::without(subscriptions, topic);
    let i = choose|i: int| 0 <= i < subscriptions.len() && subscriptions[i] == kept;
    if i < init.len() {
        assert(init[i] == kept);
        lemma_without_keeps(init, topic, kept);
        let shorter = crate::client::without(init, topic);
        let k = choose|k: int| 0 <= k < shorter.len() && shorter[k] == kept;
        assert(rest[k] == kept);
    } else {
        assert(rest[rest.len() - 1] == kept);
    }
}

/// Joining a channel puts it in the place of the one that its topic had, with the reference of the
/// message that joins it; the channels of other topics stay, and nothing else changes.
pub proof fn joining_changes_the_topics_channel_only(
    client: ClientModel,
    refid: int,
    channel: ChannelModel,
    other: ChannelModel,
)
    requires
        channel.join_ref is None,
    ensures
        ({
            let after = crate::client::after_event(
                client,
                refid,
                EventModel::Command(CommandModel::Subscribe(channel)),
            );
            &&& same_but_subscriptions(client, after)
            &&& other.topic != channel.topic ==> (after.subscriptions.contains(other)
                <==> client.subscriptions.contains(other))
            &&& other.topic == channel.topic ==> (after.subscriptions.contains(other) <==> {
                &&& other.postgres_changes == channel.postgres_changes
                &&& other.mailbox == channel.mailbox
                &&& other.join_ref == Some(crate::text::decimal(refid))
            })
        }),
{
    let rest = crate::client::without(client.subscriptions, channel.topic);
    let after = crate::client::after_event(
        client,
        refid,
        EventModel::Command(CommandModel::Subscribe(channel)),
    );
    let member = ChannelModel { join_ref: Some(crate::text::decimal(refid)), ..channel };
    crate::client::lemma_without(client.subscriptions, channel.topic);
    assert(after.subscriptions == rest.push(member));
    assert(after.subscriptions[rest.len() as int] == member);
    if other.topic != channel.topic {
        if client.subscriptions.contains(other) {
            lemma_without_keeps(client.subscriptions, channel.topic, other);
            let k = choose|k: int| 0 <= k < rest.len() && rest[k] == other;
            assert(after.subscriptions[k] == other);
        }
        if after.subscriptions.contains(other) {
            let k = choose|k: int|
                0 <= k < after.subscriptions.len() && after.subscriptions[k] == other;
            assert(rest[k] == other);
        }
    } else if after.subscriptions.contains(other) {
        let k = choose|k: int|
            0 <= k < after.subscriptions.len() && after.subscriptions[k] == other;
        if k < rest.len() {
            assert(rest[k] == other);
        }
    }
}

/// Leaving a topic takes its channel away; the channels of other topics stay, and nothing else
/// changes.
pub proof fn leaving_changes_the_topics_channel_only(
    client: ClientModel,
    refid: int,
    topic: Seq<char>,
    other: ChannelModel,
)
    ensures
        ({
            let after = crate::client::after_event(
                client,
                refid,
                EventModel::Command(CommandModel::Unsubscribe(topic)),
            );
            &&& same_but_subscriptions(client, after)
            &&& after.subscriptions.contains(other) <==> client.subscriptions.contains(other)
                && other.topic != topic
        }),
{
    let rest = crate::client::without(client.subscriptions, topic);
    crate::client::lemma_without(client.subscriptions, topic);
    if client.subscriptions.contains(other) && other.topic != topic {
        lemma_without_keeps(client.subscriptions, topic, other);
    }
    if rest.contains(other) {
        let k = choose|k: int| 0 <= k < rest.len() && rest[k] == other;
        assert(rest[k].topic != topic);
    }
}

/// Telling the channels of a token, and a sign of life, change nothing in the client.
pub proof fn announcements_change_nothing(client: ClientModel, refid: int, token: Seq<char>)
    ensures
        crate::client::after_event(client, refid, EventModel::AccessToken(token)) == client,
        crate::client::after_event(client, refid, EventModel::Heartbeat) == client,
{
}

/// A table change or a broadcast that arrives for a joined topic is put last in the mailbox of the
/// topic's channel, if that is open; what else is in the mailbox, the other mailboxes and all else
/// stay as they were. Anything else that arrives changes nothing.
pub proof fn an_arrival_is_put_last_in_its_mailbox(
    client: ClientModel,
    refid: int,
    message: MessageModel,
    i: int,
    number: int,
)
    requires
        client.wf(),
    ensures
        ({
            let after = crate::client::after_event(client, refid, EventModel::Message(message));
            let own = 0 <= i < client.subscriptions.len() && client.subscriptions[i].topic
                == message.topic;
            &&& same_but_mailboxes(client, after)
            &&& after.mailboxes.len() == client.mailboxes.len()
            &&& own && 0 <= number < client.mailboxes.len() ==> match client.mailboxes[number] {
                None => after.mailboxes[number] is None,
                Some(mailbox) => after.mailboxes[number] matches Some(left) && {
                    let mine = client.subscriptions[i].mailbox == number;
                    &&& left.payloads == match message.payload {
                        EventsModel::PostgresChanges { data, .. } => if mine {
                            mailbox.payloads.push(data)
                        } else {
                            mailbox.payloads
                        },
                        _ => mailbox.payloads,
                    }
                    &&& left.broadcasts == match message.payload {
                        EventsModel::Broadcast { payload, .. } => if mine {
                            mailbox.broadcasts.push(payload)
                        } else {
                            mailbox.broadcasts
                        },
                        _ => mailbox.broadcasts,
                    }
                },
            }
            &&& (forall|k: int|
                0 <= k < client.subscriptions.len() ==> #[trigger] client.subscriptions[k].topic
                    != message.topic) ==> after == client
            &&& message.payload !is PostgresChanges && message.payload !is Broadcast ==> after
                == client
        }),
{
    if 0 <= i < client.subscriptions.len() && client.subscriptions[i].topic == message.topic {
        crate::realtime_laws::lemma_joined(client, i);
    }
}

/// What is fetched from an open mailbox is what came first, and it leaves the mailbox; nothing is
/// fetched from an empty mailbox, a closed one or one that is not there. No other mailbox changes.
pub proof fn fetching_takes_the_first(
    mailboxes: Seq<Option<MailboxModel>>,
    number: int,
    other: int,
)
    ensures
        ({
            let open = 0 <= number < mailboxes.len() && mailboxes[number] is Some;
            let mailbox = mailboxes[number]->0;
            let after = crate::client::without_first_payload(mailboxes, number);
            &&& after.len() == mailboxes.len()
            &&& other != number && 0 <= other < mailboxes.len() ==> after[other]
                == mailboxes[other]
            &&& open && mailbox.payloads.len() > 0 ==> {
                &&& crate::client::first_payload(mailboxes, number) == Some(mailbox.payloads[0])
                &&& after[number] matches Some(left) && seq![mailbox.payloads[0]] + left.payloads
                    == mailbox.payloads && left.broadcasts == mailbox.broadcasts
            }
            &&& !open || mailbox.payloads.len() == 0 ==> {
                &&& crate::client::first_payload(mailboxes, number) is None
                &&& after == mailboxes
            }
        }),
        ({
            let open = 0 <= number < mailboxes.len() && mailboxes[number] is Some;
            let mailbox = mailboxes[number]->0;
            let after = crate::client::without_first_broadcast(mailboxes, number);
            &&& after.len() == mailboxes.len()
            &&& other != number && 0 <= other < mailboxes.len() ==> after[other]
                == mailboxes[other]
            &&& open && mailbox.broadcasts.len() > 0 ==> {
                &&& crate::client::first_broadcast(mailboxes, number) == Some(
                    mailbox.broadcasts[0],
                )
                &&& after[number] matches Some(left) && seq![mailbox.broadcasts[0]]
                    + left.broadcasts == mailbox.broadcasts && left.payloads == mailbox.payloads
            }
            &&& !open || mailbox.broadcasts.len() == 0 ==> {
                &&& crate::client::first_broadcast(mailboxes, number) is None
                &&& after == mailboxes
            }
        }),
{
    if 0 <= number < mailboxes.len() && mailboxes[number] is Some {
        let mailbox = mailboxes[number]->0;
        if mailbox.payloads.len() > 0 {
            assert(seq![mailbox.payloads[0]] + mailbox.payloads.skip(1) =~= mailbox.payloads);
        }
        if mailbox.broadcasts.len() > 0 {
            assert(seq![mailbox.broadcasts[0]] + mailbox.broadcasts.skip(1)
                =~= mailbox.broadcasts);
        }
    }
}

/// A mailbox can be asked for by its number, unless it is closed or was never there.
pub proof fn mailboxes_go_by_their_numbers(mailboxes: Seq<Option<MailboxModel>>, number: int)
    ensures
        0 <= number < mailboxes.len() ==> crate::client::mailbox_at(mailboxes, number)
            == mailboxes[number],
        !(0 <= number < mailboxes.len()) ==> crate::client::mailbox_at(mailboxes, number) is None,
{
}

/// Closing a mailbox throws it away, and no other; nothing else changes.
pub proof fn closing_throws_one_mailbox_away(client: ClientModel, number: int, other: int)
    ensures
        ({
            let after = crate::client::after_close(client, number);
            &&& same_but_mailboxes(client, after)
            &&& after.mailboxes.len() == client.mailboxes.len()
            &&& 0 <= number < client.mailboxes.len() ==> after.mailboxes[number] is None
            &&& 0 <= other < client.mailboxes.len() && other != number ==> after.mailboxes[other]
                == client.mailboxes[other]
        }),
{
}

} // verus!
