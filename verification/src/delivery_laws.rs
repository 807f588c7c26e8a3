//! What holds of a realtime client's mailboxes, whatever is done with the client.

use serde_json::Value;
use vstd::prelude::*;

use crate::client::{ClientModel, EventModel, MailboxModel};
use crate::realtime::{
    ChannelModel, CommandModel, EventsModel, MessageModel, PostgresChanges, PostgresPayload,
};

verus! {

/// A client in use: the commands that were taken from it and are still to be carried out, and the
/// next reference of its connection.
#[verifier::ext_equal]
pub struct Situation {
    pub client: ClientModel,
    pub taken: Seq<CommandModel>,
    pub refid: int,
}

/// What can be done with a client.
pub enum Operation {
    Subscribe { topic: Seq<char>, postgres_changes: Seq<PostgresChanges> },
    Unsubscribe { topic: Seq<char> },
    UpdateAccessToken { token: Seq<char> },
    NextCommand,
    NextAccessToken,
    /// One of the commands that were taken is carried out.
    CarryOut { index: int },
    /// The client takes in an event that is no command.
    Arrival { message: MessageModel },
    Announcement { token: Seq<char> },
    Heartbeat,
    /// A new connection begins.
    Connect,
    NextPayload { number: int },
    NextBroadcast { number: int },
    Close { number: int },
}

/// The channel that subscribing gives.
pub open spec fn new_channel(
    client: ClientModel,
    topic: Seq<char>,
    postgres_changes: Seq<PostgresChanges>,
) -> ChannelModel {
    ChannelModel {
        topic,
        postgres_changes,
        mailbox: client.mailboxes.len() as int,
        join_ref: None,
    }
}

/// The situation after the client took in `event`.
pub open spec fn after_process(situation: Situation, event: EventModel) -> Situation {
    Situation {
        client: crate::client::after_event(situation.client, situation.refid, event),
        refid: crate::client::next_refid(situation.client, situation.refid, event),
        ..situation
    }
}

/// The situation after one operation.
pub open spec fn after_operation(situation: Situation, operation: Operation) -> Situation {
    let client = situation.client;
    match operation {
        Operation::Subscribe { topic, postgres_changes } => Situation {
            client: crate::client::after_subscribe(
                client,
                new_channel(client, topic, postgres_changes),
            ),
            ..situation
        },
        Operation::Unsubscribe { topic } => Situation {
            client: crate::client::after_unsubscribe(client, topic),
            ..situation
        },
        Operation::UpdateAccessToken { token } => Situation {
            client: crate::client::after_update(client, token),
            ..situation
        },
        Operation::NextCommand => if client.commands.len() > 0 {
            Situation {
                client: crate::client::without_next_command(client),
                taken: situation.taken.push(client.commands[0]),
                ..situation
            }
        } else {
            situation
        },
        Operation::NextAccessToken => if client.access_tokens.len() > 0 {
            Situation { client: crate::client::without_next_token(client), ..situation }
        } else {
            situation
        },
        Operation::CarryOut { index } => if 0 <= index < situation.taken.len() {
            after_process(
                Situation { taken: situation.taken.remove(index), ..situation },
                EventModel::Command(situation.taken[index]),
            )
        } else {
            situation
        },
        Operation::Arrival { message } => after_process(situation, EventModel::Message(message)),
        Operation::Announcement { token } => after_process(
            situation,
            EventModel::AccessToken(token),
        ),
        Operation::Heartbeat => after_process(situation, EventModel::Heartbeat),
        Operation::Connect => Situation { refid: 0, ..situation },
        Operation::NextPayload { number } => Situation {
            client: ClientModel {
                mailboxes: crate::client::without_first_payload(client.mailboxes, number),
                ..client
            },
            ..situation
        },
        Operation::NextBroadcast { number } => Situation {
            client: ClientModel {
                mailboxes: crate::client::without_first_broadcast(client.mailboxes, number),
                ..client
            },
            ..situation
        },
        Operation::Close { number } => Situation {
            client: crate::client::after_close(client, number),
            ..situation
        },
    }
}

/// The situation after all the operations of `history`, in order.
pub open spec fn after_history(start: Situation, history: Seq<Operation>) -> Situation
    decreases history.len(),
{
    if history.len() == 0 {
        start
    } else {
        after_operation(after_history(start, history.drop_last()), history.last())
    }
}

/// The commands that are still to be carried out, taken or not.
pub open spec fn waiting(situation: Situation) -> Seq<CommandModel> {
    situation.taken + situation.client.commands
}

/// Every joined channel, and every channel that waits to be joined, has a mailbox of its own.
pub open spec fn own_mailboxes(
    subscriptions: Seq<ChannelModel>,
    waiting: Seq<CommandModel>,
    mailboxes: int,
) -> bool {
    &&& forall|i: int|
        0 <= i < subscriptions.len() ==> 0 <= #[trigger] subscriptions[i].mailbox < mailboxes
    &&& forall|i: int, j: int|
        0 <= i < j < subscriptions.len() ==> #[trigger] subscriptions[i].mailbox
            != #[trigger] subscriptions[j].mailbox
    &&& forall|i: int|
        0 <= i < waiting.len() ==> (#[trigger] waiting[i] matches CommandModel::Subscribe(channel)
            ==> 0 <= channel.mailbox < mailboxes)
    &&& forall|i: int, j: int|
        0 <= i < subscriptions.len() && 0 <= j < waiting.len() ==> (#[trigger] waiting[j] matches
            CommandModel::Subscribe(channel) ==> channel.mailbox
            != #[trigger] subscriptions[i].mailbox)
    &&& forall|i: int, j: int|
        0 <= i < j < waiting.len() ==> (#[trigger] waiting[i] matches CommandModel::Subscribe(
            first,
        ) ==> (#[trigger] waiting[j] matches CommandModel::Subscribe(second) ==> first.mailbox
            != second.mailbox))
}

/// What holds of a client in use: its own invariant, and that channels do not share mailboxes.
pub open spec fn in_order(situation: Situation) -> bool {
    &&& situation.client.wf()
    &&& own_mailboxes(
        situation.client.subscriptions,
        waiting(situation),
        situation.client.mailboxes.len() as int,
    )
}

/// A new client is in order.
pub proof fn a_new_client_is_in_order(client: ClientModel, refid: int)
    requires
        client.subscriptions.len() == 0,
        client.commands.len() == 0,
    ensures
        in_order(Situation { client, taken: seq![], refid }),
{
}

proof fn lemma_carry_out_keeps_mailboxes(situation: Situation, index: int)
    requires
        in_order(situation),
        0 <= index < situation.taken.len(),
    ensures
        in_order(after_operation(situation, Operation::CarryOut { index })),
{
    let client = situation.client;
    let command = situation.taken[index];
    let after = after_operation(situation, Operation::CarryOut { index });
    let before_waiting = waiting(situation);
    let after_waiting = waiting(after);
    crate::realtime_laws::events_keep_the_invariant(
        client,
        situation.refid,
        EventModel::Command(command),
    );
    assert(before_waiting[index] == command);
    assert(after_waiting =~= before_waiting.remove(index));
    assert forall|i: int| 0 <= i < after_waiting.len() implies #[trigger] after_waiting[i]
        == before_waiting[if i < index {
        i
    } else {
        i + 1
    }] by {}
    let topic = match command {
        CommandModel::Subscribe(channel) => channel.topic,
        CommandModel::Unsubscribe(topic) => topic,
    };
    let rest = crate::client::without(client.subscriptions, topic);
    crate::client::lemma_without(client.subscriptions, topic);
    crate::realtime_laws::lemma_without_order(client.subscriptions, topic);
    assert forall|i: int| 0 <= i < rest.len() implies exists|k: int|
        0 <= k < client.subscriptions.len() && #[trigger] client.subscriptions[k]
            == #[trigger] rest[i] by {
        assert(client.subscriptions.contains(rest[i]));
    }
    assert forall|i: int, j: int| 0 <= i < j < rest.len() implies #[trigger] rest[i].mailbox
        != #[trigger] rest[j].mailbox by {
        let a = rest[i];
        let b = rest[j];
        let (k, l) = choose|k: int, l: int|
            0 <= k < l < client.subscriptions.len() && #[trigger] client.subscriptions[k] == a
                && #[trigger] client.subscriptions[l] == b;
        assert(client.subscriptions[k].mailbox != client.subscriptions[l].mailbox);
    }
}

/// Whatever is done with a client that is in order, and in whatever turn, it stays in order: also
/// where channels are asked for, mailboxes emptied or tokens announced between the taking of a
/// command and its carrying out.
pub proof fn operations_keep_clients_in_order(situation: Situation, operation: Operation)
    requires
        in_order(situation),
    ensures
        in_order(after_operation(situation, operation)),
{
    let client = situation.client;
    let after = after_operation(situation, operation);
    match operation {
        Operation::CarryOut { index } => {
            if 0 <= index < situation.taken.len() {
                lemma_carry_out_keeps_mailboxes(situation, index);
            }
        },
        Operation::NextCommand => {
            if client.commands.len() > 0 {
                assert(waiting(after) =~= waiting(situation));
            }
        },
        Operation::Subscribe { topic, postgres_changes } => {
            let channel = new_channel(client, topic, postgres_changes);
            assert(waiting(after) =~= waiting(situation).push(CommandModel::Subscribe(channel)));
        },
        Operation::Unsubscribe { topic } => {
            assert(waiting(after) =~= waiting(situation).push(CommandModel::Unsubscribe(topic)));
        },
        _ => {},
    }
}

/// A client in order is in order after any history.
pub proof fn clients_stay_in_order(start: Situation, history: Seq<Operation>)
    requires
        in_order(start),
    ensures
        in_order(after_history(start, history)),
    decreases history.len(),
{
    if history.len() > 0 {
        clients_stay_in_order(start, history.drop_last());
        operations_keep_clients_in_order(
            after_history(start, history.drop_last()),
            history.last(),
        );
    }
}

/// The table changes that arrive for `topic`, in order.
pub open spec fn arrived_payloads(history: Seq<Operation>, topic: Seq<char>) -> Seq<PostgresPayload>
    decreases history.len(),
{
    if history.len() == 0 {
        seq![]
    } else {
        let earlier = arrived_payloads(history.drop_last(), topic);
        match history.last() {
            Operation::Arrival { message } => match message.payload {
                EventsModel::PostgresChanges { data, .. } => if message.topic == topic {
                    earlier.push(data)
                } else {
                    earlier
                },
                _ => earlier,
            },
            _ => earlier,
        }
    }
}

/// The broadcasts that arrive for `topic`, in order.
pub open spec fn arrived_broadcasts(history: Seq<Operation>, topic: Seq<char>) -> Seq<Value>
    decreases history.len(),
{
    if history.len() == 0 {
        seq![]
    } else {
        let earlier = arrived_broadcasts(history.drop_last(), topic);
        match history.last() {
            Operation::Arrival { message } => match message.payload {
                EventsModel::Broadcast { payload, .. } => if message.topic == topic {
                    earlier.push(payload)
                } else {
                    earlier
                },
                _ => earlier,
            },
            _ => earlier,
        }
    }
}

/// The number of the mailbox that a message for `topic` goes to.
pub open spec fn addressed(client: ClientModel, topic: Seq<char>) -> Option<int> {
    match crate::client::joined(client.subscriptions, topic) {
        Some(channel) => Some(channel.mailbox),
        None => None,
    }
}

/// The table changes that arrive for the channel that has the given mailbox when they arrive, in
/// order.
pub open spec fn delivered_payloads(
    start: Situation,
    history: Seq<Operation>,
    number: int,
) -> Seq<PostgresPayload>
    decreases history.len(),
{
    if history.len() == 0 {
        seq![]
    } else {
        let init = history.drop_last();
        let earlier = delivered_payloads(start, init, number);
        match history.last() {
            Operation::Arrival { message } => match message.payload {
                EventsModel::PostgresChanges { data, .. } => if addressed(
                    after_history(start, init).client,
                    message.topic,
                ) == Some(number) {
                    earlier.push(data)
                } else {
                    earlier
                },
                _ => earlier,
            },
            _ => earlier,
        }
    }
}

/// The broadcasts that arrive for the channel that has the given mailbox when they arrive, in
/// order.
pub open spec fn delivered_broadcasts(
    start: Situation,
    history: Seq<Operation>,
    number: int,
) -> Seq<Value>
    decreases history.len(),
{
    if history.len() == 0 {
        seq![]
    } else {
        let init = history.drop_last();
        let earlier = delivered_broadcasts(start, init, number);
        match history.last() {
            Operation::Arrival { message } => match message.payload {
                EventsModel::Broadcast { payload, .. } => if addressed(
                    after_history(start, init).client,
                    message.topic,
                ) == Some(number) {
                    earlier.push(payload)
                } else {
                    earlier
                },
                _ => earlier,
            },
            _ => earlier,
        }
    }
}

/// The table changes that are taken out of the given mailbox, in order.
pub open spec fn fetched_payloads(
    start: Situation,
    history: Seq<Operation>,
    number: int,
) -> Seq<PostgresPayload>
    decreases history.len(),
{
    if history.len() == 0 {
        seq![]
    } else {
        let init = history.drop_last();
        let earlier = fetched_payloads(start, init, number);
        if history.last() == (Operation::NextPayload { number }) {
            match crate::client::first_payload(
                after_history(start, init).client.mailboxes,
                number,
            ) {
                Some(payload) => earlier.push(payload),
                None => earlier,
            }
        } else {
            earlier
        }
    }
}

/// The broadcasts that are taken out of the given mailbox, in order.
pub open spec fn fetched_broadcasts(
    start: Situation,
    history: Seq<Operation>,
    number: int,
) -> Seq<Value>
    decreases history.len(),
{
    if history.len() == 0 {
        seq![]
    } else {
        let init = history.drop_last();
        let earlier = fetched_broadcasts(start, init, number);
        if history.last() == (Operation::NextBroadcast { number }) {
            match crate::client::first_broadcast(
                after_history(start, init).client.mailboxes,
                number,
            ) {
                Some(broadcast) => earlier.push(broadcast),
                None => earlier,
            }
        } else {
            earlier
        }
    }
}

/// Whether nothing in `history` closes the given mailbox.
pub open spec fn kept_open(history: Seq<Operation>, number: int) -> bool {
    forall|i: int|
        0 <= i < history.len() ==> #[trigger] history[i] != (Operation::Close { number })
}

/// Whether `channel` is the one that is joined for its topic, all through `history`.
pub open spec fn stays_joined(
    start: Situation,
    history: Seq<Operation>,
    channel: ChannelModel,
) -> bool
    decreases history.len(),
{
    &&& crate::client::joined(
        after_history(start, history).client.subscriptions,
        channel.topic,
    ) == Some(channel)
    &&& history.len() > 0 ==> stays_joined(start, history.drop_last(), channel)
}

/// Whether `channel` waits to be joined, all through `history`.
pub open spec fn keeps_waiting(
    start: Situation,
    history: Seq<Operation>,
    channel: ChannelModel,
) -> bool
    decreases history.len(),
{
    &&& waiting(after_history(start, history)).contains(CommandModel::Subscribe(channel))
    &&& history.len() > 0 ==> keeps_waiting(start, history.drop_last(), channel)
}

proof fn lemma_operation_on_mailbox(situation: Situation, operation: Operation, number: int)
    requires
        crate::client::mailbox_at(situation.client.mailboxes, number) is Some,
        operation != (Operation::Close { number }),
    ensures
        ({
            let mailbox = crate::client::mailbox_at(situation.client.mailboxes, number)->0;
            let after = crate::client::mailbox_at(
                after_operation(situation, operation).client.mailboxes,
                number,
            );
            after == match operation {
                Operation::Arrival { message } => if addressed(situation.client, message.topic)
                    == Some(number) {
                    match message.payload {
                        EventsModel::PostgresChanges { data, .. } => Some(
                            MailboxModel { payloads: mailbox.payloads.push(data), ..mailbox },
                        ),
                        EventsModel::Broadcast { payload, .. } => Some(
                            MailboxModel {
                                broadcasts: mailbox.broadcasts.push(payload),
                                ..mailbox
                            },
                        ),
                        _ => Some(mailbox),
                    }
                } else {
                    Some(mailbox)
                },
                Operation::NextPayload { number: n } => if n == number && mailbox.payloads.len()
                    > 0 {
                    Some(MailboxModel { payloads: mailbox.payloads.skip(1), ..mailbox })
                } else {
                    Some(mailbox)
                },
                Operation::NextBroadcast { number: n } => if n == number
                    && mailbox.broadcasts.len() > 0 {
                    Some(MailboxModel { broadcasts: mailbox.broadcasts.skip(1), ..mailbox })
                } else {
                    Some(mailbox)
                },
                _ => Some(mailbox),
            }
        }),
{
}

/// Nothing is lost, nothing is made up and nothing overtakes in a mailbox, as long as it is open,
/// whatever is done with the client: what was taken out of it, followed by what is left in it, is
/// what was in it, followed by what was delivered to it.
pub proof fn mailboxes_lose_nothing(
    start: Situation,
    history: Seq<Operation>,
    number: int,
    mailbox: MailboxModel,
)
    requires
        crate::client::mailbox_at(start.client.mailboxes, number) == Some(mailbox),
        kept_open(history, number),
    ensures
        crate::client::mailbox_at(
            after_history(start, history).client.mailboxes,
            number,
        ) matches Some(left) && {
            &&& fetched_payloads(start, history, number) + left.payloads == mailbox.payloads
                + delivered_payloads(start, history, number)
            &&& fetched_broadcasts(start, history, number) + left.broadcasts == mailbox.broadcasts
                + delivered_broadcasts(start, history, number)
        },
    decreases history.len(),
{
    if history.len() == 0 {
        assert(Seq::<PostgresPayload>::empty() + mailbox.payloads =~= mailbox.payloads + Seq::<
            PostgresPayload,
        >::empty());
        assert(Seq::<Value>::empty() + mailbox.broadcasts =~= mailbox.broadcasts + Seq::<
            Value,
        >::empty());
    } else {
        let init = history.drop_last();
        let operation = history.last();
        assert forall|i: int| 0 <= i < init.len() implies #[trigger] init[i] != (
        Operation::Close { number }) by {
            assert(init[i] == history[i]);
        }
        assert(history[history.len() - 1] != (Operation::Close { number }));
        mailboxes_lose_nothing(start, init, number, mailbox);
        let before = after_history(start, init);
        let kept = crate::client::mailbox_at(before.client.mailboxes, number)->0;
        lemma_operation_on_mailbox(before, operation, number);
        let left = crate::client::mailbox_at(
            after_operation(before, operation).client.mailboxes,
            number,
        )->0;
        lemma_one_more(
            fetched_payloads(start, init, number),
            kept.payloads,
            mailbox.payloads,
            delivered_payloads(start, init, number),
        );
        lemma_one_more(
            fetched_broadcasts(start, init, number),
            kept.broadcasts,
            mailbox.broadcasts,
            delivered_broadcasts(start, init, number),
        );
    }
}

proof fn lemma_one_more<T>(fetched: Seq<T>, kept: Seq<T>, first: Seq<T>, delivered: Seq<T>)
    requires
        fetched + kept == first + delivered,
    ensures
        forall|item: T|
            fetched + #[trigger] kept.push(item) == first + delivered.push(item),
        kept.len() > 0 ==> fetched.push(kept[0]) + kept.skip(1) == first + delivered,
{
    assert forall|item: T| fetched + #[trigger] kept.push(item) == first + delivered.push(
        item,
    ) by {
        assert(fetched + kept.push(item) =~= (fetched + kept).push(item));
        assert(first + delivered.push(item) =~= (first + delivered).push(item));
    }
    if kept.len() > 0 {
        assert(fetched.push(kept[0]) + kept.skip(1) =~= fetched + kept);
    }
}

/// As long as a channel stays joined, everything that arrives for its topic is delivered to its
/// mailbox, and nothing else is.
pub proof fn a_joined_channel_gets_its_topics_messages(
    start: Situation,
    history: Seq<Operation>,
    channel: ChannelModel,
)
    requires
        in_order(start),
        stays_joined(start, history, channel),
    ensures
        delivered_payloads(start, history, channel.mailbox) == arrived_payloads(
            history,
            channel.topic,
        ),
        delivered_broadcasts(start, history, channel.mailbox) == arrived_broadcasts(
            history,
            channel.topic,
        ),
    decreases history.len(),
{
    if history.len() > 0 {
        let init = history.drop_last();
        a_joined_channel_gets_its_topics_messages(start, init, channel);
        clients_stay_in_order(start, init);
        let client = after_history(start, init).client;
        if let Operation::Arrival { message } = history.last() {
            assert(crate::client::joined(client.subscriptions, channel.topic) == Some(channel));
            if message.topic != channel.topic {
                lemma_other_mailbox(client.subscriptions, channel, message.topic);
            }
        }
    }
}

proof fn lemma_other_mailbox(
    subscriptions: Seq<ChannelModel>,
    channel: ChannelModel,
    other: Seq<char>,
)
    requires
        forall|i: int, j: int|
            0 <= i < j < subscriptions.len() ==> #[trigger] subscriptions[i].mailbox
                != #[trigger] subscriptions[j].mailbox,
        crate::client::joined(subscriptions, channel.topic) == Some(channel),
        other != channel.topic,
    ensures
        crate::client::joined(subscriptions, other) matches Some(second) ==> second.mailbox
            != channel.mailbox,
{
    if exists|i: int| 0 <= i < subscriptions.len() && #[trigger] subscriptions[i].topic == other {
        let i = choose|i: int|
            0 <= i < subscriptions.len() && #[trigger] subscriptions[i].topic == other;
        let j = choose|j: int|
            0 <= j < subscriptions.len() && #[trigger] subscriptions[j].topic == channel.topic;
        assert(subscriptions[j] == channel);
        assert(subscriptions[i].mailbox != subscriptions[j].mailbox);
    }
}

/// As long as a channel waits to be joined, nothing is delivered to its mailbox.
pub proof fn a_waiting_channel_gets_nothing(
    start: Situation,
    history: Seq<Operation>,
    channel: ChannelModel,
)
    requires
        in_order(start),
        keeps_waiting(start, history, channel),
    ensures
        delivered_payloads(start, history, channel.mailbox) == Seq::<PostgresPayload>::empty(),
        delivered_broadcasts(start, history, channel.mailbox) == Seq::<Value>::empty(),
    decreases history.len(),
{
    if history.len() > 0 {
        let init = history.drop_last();
        a_waiting_channel_gets_nothing(start, init, channel);
        clients_stay_in_order(start, init);
        let before = after_history(start, init);
        let subscriptions = before.client.subscriptions;
        assert(waiting(before).contains(CommandModel::Subscribe(channel)));
        let j = choose|j: int|
            0 <= j < waiting(before).len() && waiting(before)[j] == CommandModel::Subscribe(
                channel,
            );
        if let Operation::Arrival { message } = history.last() {
            if addressed(before.client, message.topic) == Some(channel.mailbox) {
                let i = choose|i: int|
                    0 <= i < subscriptions.len() && #[trigger] subscriptions[i].topic
                        == message.topic;
                assert(subscriptions[i].mailbox == channel.mailbox);
                assert(waiting(before)[j] is Subscribe);
                assert(false);
            }
        }
    }
}

/// A subscription delivers. A channel is asked for; its command waits, is taken and carried out,
/// whatever else is done with the client meanwhile; and as long as the channel stays joined and its
/// mailbox open, what is taken out of the mailbox, followed by what is left in it, is what arrives
/// for the channel's topic from then on, in the order of arrival.
pub proof fn a_subscription_delivers(
    start: Situation,
    topic: Seq<char>,
    postgres_changes: Seq<PostgresChanges>,
    meanwhile: Seq<Operation>,
    index: int,
    later: Seq<Operation>,
)
    requires
        in_order(start),
        ({
            let channel = new_channel(start.client, topic, postgres_changes);
            let asked = after_operation(start, Operation::Subscribe { topic, postgres_changes });
            let ready = after_history(asked, meanwhile);
            let joined = after_operation(ready, Operation::CarryOut { index });
            let member = ChannelModel {
                join_ref: Some(crate::text::decimal(ready.refid)),
                ..channel
            };
            &&& keeps_waiting(asked, meanwhile, channel)
            &&& kept_open(meanwhile, channel.mailbox)
            &&& 0 <= index < ready.taken.len()
            &&& ready.taken[index] == CommandModel::Subscribe(channel)
            &&& stays_joined(joined, later, member)
            &&& kept_open(later, channel.mailbox)
        }),
    ensures
        ({
            let number = new_channel(start.client, topic, postgres_changes).mailbox;
            let asked = after_operation(start, Operation::Subscribe { topic, postgres_changes });
            let ready = after_history(asked, meanwhile);
            let joined = after_operation(ready, Operation::CarryOut { index });
            crate::client::mailbox_at(
                after_history(joined, later).client.mailboxes,
                number,
            ) matches Some(left) && {
                &&& fetched_payloads(joined, later, number) + left.payloads == arrived_payloads(
                    later,
                    topic,
                )
                &&& fetched_broadcasts(joined, later, number) + left.broadcasts
                    == arrived_broadcasts(later, topic)
            }
        }),
{
    let channel = new_channel(start.client, topic, postgres_changes);
    let number = channel.mailbox;
    let subscribe = Operation::Subscribe { topic, postgres_changes };
    let asked = after_operation(start, subscribe);
    let ready = after_history(asked, meanwhile);
    let joined = after_operation(ready, Operation::CarryOut { index });
    let member = ChannelModel { join_ref: Some(crate::text::decimal(ready.refid)), ..channel };
    let empty = MailboxModel { payloads: seq![], broadcasts: seq![] };
    operations_keep_clients_in_order(start, subscribe);
    clients_stay_in_order(asked, meanwhile);
    operations_keep_clients_in_order(ready, Operation::CarryOut { index });
    a_waiting_channel_gets_nothing(asked, meanwhile, channel);
    mailboxes_lose_nothing(asked, meanwhile, number, empty);
    let mailbox = crate::client::mailbox_at(ready.client.mailboxes, number)->0;
    assert((fetched_payloads(asked, meanwhile, number) + mailbox.payloads).len() == 0);
    assert((fetched_broadcasts(asked, meanwhile, number) + mailbox.broadcasts).len() == 0);
    assert(mailbox =~= empty);
    a_joined_channel_gets_its_topics_messages(joined, later, member);
    mailboxes_lose_nothing(joined, later, number, empty);
    assert(empty.payloads + arrived_payloads(later, topic) =~= arrived_payloads(later, topic));
    assert(empty.broadcasts + arrived_broadcasts(later, topic) =~= arrived_broadcasts(
        later,
        topic,
    ));
}

/// A channel whose command is carried out is joined, with its mailbox as it was.
pub proof fn a_carried_out_subscription_is_joined(
    situation: Situation,
    index: int,
    channel: ChannelModel,
)
    requires
        in_order(situation),
        0 <= index < situation.taken.len(),
        situation.taken[index] == CommandModel::Subscribe(channel),
        channel.join_ref is None,
    ensures
        ({
            let after = after_operation(situation, Operation::CarryOut { index });
            &&& crate::client::joined(after.client.subscriptions, channel.topic) == Some(
                ChannelModel {
                    join_ref: Some(crate::text::decimal(situation.refid)),
                    ..channel
                },
            )
            &&& after.client.mailboxes == situation.client.mailboxes
        }),
{
    crate::realtime_laws::joining_takes_over_the_topic(
        situation.client,
        situation.refid,
        channel,
        channel.topic,
    );
}

} // verus!
