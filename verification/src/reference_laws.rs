//! What holds of the references of a connection's messages.

use vstd::prelude::*;

use crate::client::{ClientModel, EventModel};
use crate::realtime::{ChannelModel, CommandModel, MessageModel};

verus! {

/// An event of a connection, and the client as it is when the event is taken in.
pub struct Moment {
    pub client: ClientModel,
    pub event: EventModel,
}

/// The next reference after all the events of `run`, where `refid` is the first.
pub open spec fn refid_after(run: Seq<Moment>, refid: int) -> int
    decreases run.len(),
{
    if run.len() == 0 {
        refid
    } else {
        crate::client::next_refid(
            run.last().client,
            refid_after(run.drop_last(), refid),
            run.last().event,
        )
    }
}

/// The messages that are sent upon all the events of `run`, in order, where `refid` is the first
/// reference.
pub open spec fn sent_in(run: Seq<Moment>, refid: int) -> Seq<MessageModel>
    decreases run.len(),
{
    if run.len() == 0 {
        seq![]
    } else {
        sent_in(run.drop_last(), refid) + crate::client::sent_upon(
            run.last().client,
            refid_after(run.drop_last(), refid),
            run.last().event,
        )
    }
}

/// How many references the messages use up: one each, but none for leaving a channel.
pub open spec fn references_used(sent: Seq<MessageModel>) -> int
    decreases sent.len(),
{
    if sent.len() == 0 {
        0
    } else {
        references_used(sent.drop_last()) + if sent.last().payload is Leave {
            0int
        } else {
            1
        }
    }
}

/// The message that joined `topic`, as far as `sent` goes, unless the topic was left since.
pub open spec fn standing_join(sent: Seq<MessageModel>, topic: Seq<char>) -> Option<MessageModel>
    decreases sent.len(),
{
    if sent.len() == 0 {
        None
    } else if sent.last().topic == topic && sent.last().payload is Join {
        Some(sent.last())
    } else if sent.last().topic == topic && sent.last().payload is Leave {
        None
    } else {
        standing_join(sent.drop_last(), topic)
    }
}

proof fn lemma_used_sum(a: Seq<MessageModel>, b: Seq<MessageModel>)
    ensures
        references_used(a + b) == references_used(a) + references_used(b),
    decreases b.len(),
{
    if b.len() == 0 {
        assert(a + b =~= a);
    } else {
        lemma_used_sum(a, b.drop_last());
        assert((a + b).drop_last() =~= a + b.drop_last());
    }
}

proof fn lemma_used_all(sent: Seq<MessageModel>)
    requires
        forall|i: int| 0 <= i < sent.len() ==> (#[trigger] sent[i]).payload !is Leave,
    ensures
        references_used(sent) == sent.len(),
    decreases sent.len(),
{
    if sent.len() > 0 {
        lemma_used_all(sent.drop_last());
    }
}

proof fn lemma_used_grows(sent: Seq<MessageModel>, i: int, j: int)
    requires
        0 <= i <= j <= sent.len(),
    ensures
        references_used(sent.take(i)) <= references_used(sent.take(j)),
    decreases j - i,
{
    if i < j {
        lemma_used_grows(sent, i, j - 1);
        assert(sent.take(j).drop_last() =~= sent.take(j - 1));
    }
}

proof fn lemma_event_references(client: ClientModel, refid: int, event: EventModel)
    ensures
        ({
            let sent = crate::client::sent_upon(client, refid, event);
            &&& crate::client::next_refid(client, refid, event) == refid + references_used(sent)
            &&& forall|i: int|
                0 <= i < sent.len() ==> {
                    &&& (#[trigger] sent[i]).reference == Some(
                        crate::text::decimal(refid + references_used(sent.take(i))),
                    )
                    &&& sent[i].join_ref is Some ==> sent[i].payload is Leave
                }
        }),
{
    let sent = crate::client::sent_upon(client, refid, event);
    if event matches EventModel::Command(CommandModel::Unsubscribe(_)) {
        if sent.len() > 0 {
            assert(references_used(sent.drop_last()) == 0);
        }
    } else {
        lemma_used_all(sent);
    }
    assert forall|i: int| 0 <= i < sent.len() implies references_used(#[trigger] sent.take(i))
        == i by {
        if event matches EventModel::Command(CommandModel::Unsubscribe(_)) {
        } else {
            lemma_used_all(sent.take(i));
        }
    }
}

/// The references of a connection's messages count up from the first one without a gap, whatever
/// happens to the client between its events: each message has the first reference that no message
/// before it used up, and a message that leaves a channel uses none up. Only such a message names
/// another one.
pub proof fn references_count_up(run: Seq<Moment>, refid: int)
    ensures
        ({
            let sent = sent_in(run, refid);
            &&& refid_after(run, refid) == refid + references_used(sent)
            &&& forall|i: int|
                0 <= i < sent.len() ==> {
                    &&& (#[trigger] sent[i]).reference == Some(
                        crate::text::decimal(refid + references_used(sent.take(i))),
                    )
                    &&& sent[i].join_ref is Some ==> sent[i].payload is Leave
                }
        }),
    decreases run.len(),
{
    if run.len() > 0 {
        let init = run.drop_last();
        references_count_up(init, refid);
        let middle = refid_after(init, refid);
        let before = sent_in(init, refid);
        let new = crate::client::sent_upon(run.last().client, middle, run.last().event);
        let sent = sent_in(run, refid);
        lemma_event_references(run.last().client, middle, run.last().event);
        lemma_used_sum(before, new);
        assert forall|i: int| 0 <= i < sent.len() implies {
            &&& (#[trigger] sent[i]).reference == Some(
                crate::text::decimal(refid + references_used(sent.take(i))),
            )
            &&& sent[i].join_ref is Some ==> sent[i].payload is Leave
        } by {
            if i < before.len() {
                assert(sent[i] == before[i]);
                assert(sent.take(i) =~= before.take(i));
            } else {
                let j = i - before.len();
                assert(sent[i] == new[j]);
                assert(sent.take(i) =~= before + new.take(j));
                lemma_used_sum(before, new.take(j));
            }
        }
    }
}

/// No two of the messages that a connection sends share a reference, those that leave a channel
/// aside, whatever happens to the client between its events.
pub proof fn references_are_never_reused(run: Seq<Moment>, refid: int)
    ensures
        ({
            let sent = sent_in(run, refid);
            forall|i: int, j: int|
                0 <= i < j < sent.len() && (#[trigger] sent[i]).payload !is Leave && (
                #[trigger] sent[j]).payload !is Leave ==> sent[i].reference != sent[j].reference
        }),
{
    let sent = sent_in(run, refid);
    references_count_up(run, refid);
    assert forall|i: int, j: int|
        0 <= i < j < sent.len() && (#[trigger] sent[i]).payload !is Leave && (
        #[trigger] sent[j]).payload !is Leave implies sent[i].reference != sent[j].reference by {
        let first = refid + references_used(sent.take(i));
        let second = refid + references_used(sent.take(j));
        assert(sent.take(i + 1).drop_last() =~= sent.take(i));
        lemma_used_grows(sent, i + 1, j);
        if crate::text::decimal(first) == crate::text::decimal(second) {
            crate::text::decimal_is_injective(first, second);
        }
    }
}

/// The channels that are joined after all the events of `run`, none at first.
pub open spec fn subscriptions_after(run: Seq<Moment>, refid: int) -> Seq<ChannelModel> {
    if run.len() == 0 {
        seq![]
    } else {
        crate::client::after_event(
            run.last().client,
            refid_after(run.drop_last(), refid),
            run.last().event,
        ).subscriptions
    }
}

/// Whether no channel is joined when `run` begins, and nothing but its events joins and leaves
/// channels.
pub open spec fn connected(run: Seq<Moment>, refid: int) -> bool
    decreases run.len(),
{
    run.len() > 0 ==> {
        &&& connected(run.drop_last(), refid)
        &&& run.last().client.subscriptions == subscriptions_after(run.drop_last(), refid)
    }
}

proof fn lemma_connected(run: Seq<Moment>, refid: int)
    requires
        connected(run, refid),
    ensures
        run.len() > 0 ==> {
            &&& run.last().client.wf()
            &&& crate::client::after_event(
                run.last().client,
                refid_after(run.drop_last(), refid),
                run.last().event,
            ).wf()
        },
    decreases run.len(),
{
    if run.len() > 0 {
        lemma_connected(run.drop_last(), refid);
        crate::realtime_laws::events_keep_the_invariant(
            run.last().client,
            refid_after(run.drop_last(), refid),
            run.last().event,
        );
    }
}

proof fn lemma_standing_sum(a: Seq<MessageModel>, b: Seq<MessageModel>, topic: Seq<char>)
    requires
        forall|i: int|
            0 <= i < b.len() && (#[trigger] b[i]).topic == topic ==> b[i].payload !is Join
                && b[i].payload !is Leave,
    ensures
        standing_join(a + b, topic) == standing_join(a, topic),
    decreases b.len(),
{
    if b.len() == 0 {
        assert(a + b =~= a);
    } else {
        lemma_standing_sum(a, b.drop_last(), topic);
        assert((a + b).drop_last() =~= a + b.drop_last());
        assert((a + b).last() == b[b.len() - 1]);
    }
}

proof fn lemma_standing_last(a: Seq<MessageModel>, message: MessageModel, topic: Seq<char>)
    ensures
        standing_join(a + seq![message], topic) == if message.topic == topic && message.payload
            is Join {
            Some(message)
        } else if message.topic == topic && message.payload is Leave {
            None
        } else {
            standing_join(a, topic)
        },
{
    assert((a + seq![message]).drop_last() =~= a);
}

spec fn names_its_join(
    subscriptions: Seq<ChannelModel>,
    sent: Seq<MessageModel>,
    topic: Seq<char>,
) -> bool {
    match crate::client::joined(subscriptions, topic) {
        Some(channel) => standing_join(sent, topic) matches Some(message) && message.reference
            == channel.join_ref,
        None => standing_join(sent, topic) is None,
    }
}

proof fn lemma_event_names_joins(
    client: ClientModel,
    refid: int,
    event: EventModel,
    before: Seq<MessageModel>,
    topic: Seq<char>,
)
    requires
        client.wf(),
        names_its_join(client.subscriptions, before, topic),
    ensures
        names_its_join(
            crate::client::after_event(client, refid, event).subscriptions,
            before + crate::client::sent_upon(client, refid, event),
            topic,
        ),
{
    let new = crate::client::sent_upon(client, refid, event);
    match event {
        EventModel::Command(CommandModel::Subscribe(channel)) => {
            if channel.join_ref is None {
                let message = crate::client::join_message(channel, client.access_token, refid);
                lemma_standing_last(before, message, topic);
                assert(new =~= seq![message]);
                crate::realtime_laws::joining_takes_over_the_topic(client, refid, channel, topic);
            } else {
                lemma_standing_sum(before, new, topic);
            }
        },
        EventModel::Command(CommandModel::Unsubscribe(left)) => {
            crate::realtime_laws::lemma_without_joined(client.subscriptions, left);
            if topic != left {
                crate::realtime_laws::lemma_joined_without(client, left, topic);
            }
            if let Some(channel) = crate::client::joined(client.subscriptions, left) {
                let message = crate::client::leave_message(channel, refid);
                assert(new =~= seq![message]);
                lemma_standing_last(before, message, topic);
            } else {
                lemma_standing_sum(before, new, topic);
            }
        },
        _ => {
            lemma_standing_sum(before, new, topic);
        },
    }
}

/// The joined channels are those whose topics were joined and not left since, each with the
/// reference of the message that joined it.
pub proof fn joined_channels_name_their_joins(run: Seq<Moment>, refid: int, topic: Seq<char>)
    requires
        connected(run, refid),
    ensures
        match crate::client::joined(subscriptions_after(run, refid), topic) {
            Some(channel) => standing_join(sent_in(run, refid), topic) matches Some(message)
                && message.reference == channel.join_ref,
            None => standing_join(sent_in(run, refid), topic) is None,
        },
    decreases run.len(),
{
    if run.len() > 0 {
        let init = run.drop_last();
        joined_channels_name_their_joins(init, refid, topic);
        lemma_connected(run, refid);
        lemma_event_names_joins(
            run.last().client,
            refid_after(init, refid),
            run.last().event,
            sent_in(init, refid),
            topic,
        );
    }
}

/// A message that leaves a channel names the message that joined it.
pub proof fn leaves_name_their_joins(run: Seq<Moment>, refid: int)
    requires
        connected(run, refid),
    ensures
        ({
            let sent = sent_in(run, refid);
            forall|i: int|
                0 <= i < sent.len() && (#[trigger] sent[i]).payload is Leave ==> (standing_join(
                    sent.take(i),
                    sent[i].topic,
                ) matches Some(message) && message.reference == sent[i].join_ref)
        }),
    decreases run.len(),
{
    if run.len() > 0 {
        let init = run.drop_last();
        leaves_name_their_joins(init, refid);
        let middle = refid_after(init, refid);
        let before = sent_in(init, refid);
        let new = crate::client::sent_upon(run.last().client, middle, run.last().event);
        let sent = sent_in(run, refid);
        assert forall|i: int| 0 <= i < sent.len() && (#[trigger] sent[i]).payload is Leave implies (
        standing_join(sent.take(i), sent[i].topic) matches Some(message) && message.reference
            == sent[i].join_ref) by {
            if i < before.len() {
                assert(sent[i] == before[i]);
                assert(sent.take(i) =~= before.take(i));
            } else {
                assert(sent[i] == new[i - before.len()]);
                assert(new.len() == 1);
                assert(sent.take(i) =~= before);
                joined_channels_name_their_joins(init, refid, sent[i].topic);
            }
        }
    }
}

/// Whether every channel was joined with a reference of its own below `refid`.
pub open spec fn own_references(subscriptions: Seq<ChannelModel>, refid: int) -> bool {
    &&& forall|i: int|
        0 <= i < subscriptions.len() ==> joined_below(#[trigger] subscriptions[i], refid)
    &&& forall|i: int, j: int|
        0 <= i < j < subscriptions.len() ==> #[trigger] subscriptions[i].join_ref
            != #[trigger] subscriptions[j].join_ref
}

/// Whether `channel` was joined with a reference below `refid`.
pub open spec fn joined_below(channel: ChannelModel, refid: int) -> bool {
    exists|k: int| k < refid && channel.join_ref == Some(#[trigger] crate::text::decimal(k))
}

proof fn lemma_event_keeps_references(client: ClientModel, refid: int, event: EventModel)
    requires
        own_references(client.subscriptions, refid),
    ensures
        own_references(
            crate::client::after_event(client, refid, event).subscriptions,
            crate::client::next_refid(client, refid, event),
        ),
{
    let after = crate::client::after_event(client, refid, event);
    let next = crate::client::next_refid(client, refid, event);
    let old_channels = client.subscriptions;
    assert forall|i: int| 0 <= i < old_channels.len() implies joined_below(
        #[trigger] old_channels[i],
        next,
    ) by {
        assert(joined_below(old_channels[i], refid));
        let k = choose|k: int|
            k < refid && old_channels[i].join_ref == Some(#[trigger] crate::text::decimal(k));
        assert(old_channels[i].join_ref == Some(crate::text::decimal(k)));
    }
    if let EventModel::Command(command) = event {
        let topic = match command {
            CommandModel::Subscribe(channel) => channel.topic,
            CommandModel::Unsubscribe(topic) => topic,
        };
        let rest = crate::client::without(old_channels, topic);
        crate::client::lemma_without(old_channels, topic);
        crate::realtime_laws::lemma_without_order(old_channels, topic);
        assert forall|i: int| 0 <= i < rest.len() implies joined_below(#[trigger] rest[i], next)
            && rest[i].join_ref != Some(crate::text::decimal(refid)) by {
            assert(old_channels.contains(rest[i]));
            let m = choose|m: int| 0 <= m < old_channels.len() && old_channels[m] == rest[i];
            assert(joined_below(old_channels[m], refid));
            let k = choose|k: int|
                k < refid && rest[i].join_ref == Some(#[trigger] crate::text::decimal(k));
            if crate::text::decimal(k) == crate::text::decimal(refid) {
                crate::text::decimal_is_injective(k, refid);
            }
        }
        assert forall|i: int, j: int| 0 <= i < j < rest.len() implies #[trigger] rest[i].join_ref
            != #[trigger] rest[j].join_ref by {
            let a = rest[i];
            let b = rest[j];
            let (k, l) = choose|k: int, l: int|
                0 <= k < l < old_channels.len() && #[trigger] old_channels[k] == a
                    && #[trigger] old_channels[l] == b;
            assert(old_channels[k].join_ref != old_channels[l].join_ref);
        }
        if let CommandModel::Subscribe(channel) = command {
            if channel.join_ref is None {
                assert(joined_below(after.subscriptions[rest.len() as int], next)) by {
                    assert(after.subscriptions[rest.len() as int].join_ref == Some(
                        crate::text::decimal(refid),
                    ));
                }
                assert forall|i: int| 0 <= i < rest.len() implies #[trigger] after.subscriptions[i]
                    == rest[i] by {}
            }
        }
    }
}

/// No two joined channels share the reference that they were joined with, and none has one that is
/// still to come.
pub proof fn joined_channels_have_their_own_references(run: Seq<Moment>, refid: int)
    requires
        connected(run, refid),
    ensures
        own_references(subscriptions_after(run, refid), refid_after(run, refid)),
    decreases run.len(),
{
    if run.len() > 0 {
        joined_channels_have_their_own_references(run.drop_last(), refid);
        lemma_event_keeps_references(
            run.last().client,
            refid_after(run.drop_last(), refid),
            run.last().event,
        );
    }
}

} // verus!
