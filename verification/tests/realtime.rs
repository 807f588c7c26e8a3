use serde_json::Value;
use supabase_middleware::client::{Event, RealtimeClient};
use supabase_middleware::realtime::{
    BroadcastConfig, Command, EventMessage, Events, PostgresChange, PostgresChanges, PostgresEvent,
    PostgresPayload, RealtimeChannel, SubscriptionSpec,
};

fn client() -> RealtimeClient {
    RealtimeClient::new("https://abc.supabase.co".to_string(), "anon".to_string(), None)
}

fn changes() -> PostgresChanges {
    PostgresChanges {
        event: PostgresEvent::Any,
        schema: "public".to_string(),
        table: "todos".to_string(),
        filter: Some("id=eq.1".to_string()),
    }
}

fn broadcast_channel(client: &mut RealtimeClient, topic: &str) -> RealtimeChannel {
    client.subscribe("ignored".to_string(), SubscriptionSpec::BroadcastChannel(topic.to_string()))
}

fn carry_out(client: &mut RealtimeClient, refid: &mut i64) -> Vec<EventMessage> {
    let command = client.next_command().unwrap();
    client.process(refid, Event::Command(command))
}

fn payload(n: i64) -> PostgresPayload {
    PostgresPayload {
        schema: "public".to_string(),
        table: "todos".to_string(),
        commit_timestamp: "now".to_string(),
        event_type: "INSERT".to_string(),
        record: Value::from(n),
        old_record: Value::Null,
        errors: None,
    }
}

fn message(topic: &str, payload: Events) -> Event {
    Event::Message(EventMessage {
        topic: topic.to_string(),
        payload,
        reference: None,
        join_ref: None,
    })
}

fn change_message(topic: &str, n: i64) -> Event {
    message(topic, Events::PostgresChanges { data: payload(n), ids: vec![1] })
}

fn broadcast_message(topic: &str, n: i64) -> Event {
    message(
        topic,
        Events::Broadcast {
            ty: "broadcast".to_string(),
            event: "INSERT".to_string(),
            payload: Value::from(n),
        },
    )
}

#[test]
fn url_is_a_websocket_url() {
    assert_eq!(
        client().realtime_url,
        "wss://abc.supabase.co/realtime/v1/websocket?apikey=anon&vsn=1.0.0"
    );
    let local =
        RealtimeClient::new("http://localhost:54321".to_string(), "k".to_string(), None);
    assert_eq!(
        local.realtime_url,
        "ws://localhost:54321/realtime/v1/websocket?apikey=k&vsn=1.0.0"
    );
}

#[test]
fn url_is_lent() {
    let mut client = client();
    let before = client.realtime_url().to_string();
    broadcast_channel(&mut client, "room");
    assert_eq!(before, "wss://abc.supabase.co/realtime/v1/websocket?apikey=anon&vsn=1.0.0");
    assert_eq!(client.realtime_url(), before);
}

#[test]
fn channel_asked_for_while_a_command_is_in_hand_has_its_own_mailbox() {
    let mut client = client();
    let mut refid: i64 = 0;
    let first = broadcast_channel(&mut client, "a");
    let in_hand = client.next_command().unwrap();
    let second = broadcast_channel(&mut client, "b");
    assert_ne!(first.mailbox, second.mailbox);
    client.process(&mut refid, Event::Command(in_hand));
    carry_out(&mut client, &mut refid);
    client.process(&mut refid, broadcast_message("realtime:a", 1));
    client.process(&mut refid, broadcast_message("realtime:b", 2));
    assert_eq!(client.next_broadcast(&second), Some(Value::from(2)));
    assert_eq!(client.next_broadcast(&second), None);
    assert_eq!(client.next_broadcast(&first), Some(Value::from(1)));
    assert_eq!(client.next_broadcast(&first), None);
}

#[test]
fn nothing_is_lost_while_other_things_are_done() {
    let mut client = client();
    let mut refid: i64 = 0;
    let other = broadcast_channel(&mut client, "other");
    let channel =
        client.subscribe("todos".to_string(), SubscriptionSpec::PostgresChanges(changes()));
    client.process(&mut refid, change_message("realtime:todos", 0));
    assert!(client.next_payload(&channel).is_none());
    carry_out(&mut client, &mut refid);
    client.process(&mut refid, change_message("realtime:todos", 0));
    assert!(client.next_payload(&channel).is_none());
    carry_out(&mut client, &mut refid);

    let mut fetched: Vec<Value> = Vec::new();
    client.process(&mut refid, change_message("realtime:todos", 1));
    client.update_access_token("t".to_string());
    client.process(&mut refid, change_message("realtime:todos", 2));
    fetched.push(client.next_payload(&channel).unwrap().record);
    other.unsubscribe(&mut client);
    client.process(&mut refid, change_message("realtime:other", 7));
    carry_out(&mut client, &mut refid);
    client.close(&other);
    client.process(&mut refid, change_message("realtime:todos", 3));
    let token = client.next_access_token().unwrap();
    client.process(&mut refid, Event::AccessToken(token));
    broadcast_channel(&mut client, "third");
    client.process(&mut refid, Event::Heartbeat);
    fetched.push(client.next_payload(&channel).unwrap().record);
    fetched.push(client.next_payload(&channel).unwrap().record);
    assert!(client.next_payload(&channel).is_none());
    assert_eq!(fetched, vec![Value::from(1), Value::from(2), Value::from(3)]);
}

#[test]
fn references_count_up_without_a_gap() {
    let mut client = client();
    let mut refid: i64 = 0;
    let mut sent: Vec<EventMessage> = Vec::new();
    let channel = broadcast_channel(&mut client, "a");
    sent.append(&mut carry_out(&mut client, &mut refid));
    broadcast_channel(&mut client, "b");
    sent.append(&mut client.process(&mut refid, Event::Heartbeat));
    channel.unsubscribe(&mut client);
    sent.append(&mut carry_out(&mut client, &mut refid));
    sent.append(&mut carry_out(&mut client, &mut refid));
    broadcast_channel(&mut client, "a");
    sent.append(&mut carry_out(&mut client, &mut refid));
    sent.append(&mut client.process(&mut refid, Event::AccessToken("t".to_string())));
    let references: Vec<String> =
        sent.iter().map(|message| message.reference.clone().unwrap()).collect();
    assert_eq!(references, vec!["0", "1", "2", "3", "3", "4", "5"]);
    assert_eq!(refid, 6);
    let named: Vec<Option<String>> =
        sent.iter().map(|message| message.join_ref.clone()).collect();
    assert_eq!(named, vec![None, None, None, Some("0".to_string()), None, None, None]);
    let topic = "realtime:a".to_string();
    assert_eq!(client.subscription(&topic).unwrap().join_ref, Some("3".to_string()));
}

#[test]
fn subscribing_waits_for_the_connection() {
    let mut client = client();
    let channel =
        client.subscribe("todos".to_string(), SubscriptionSpec::PostgresChanges(changes()));
    assert_eq!(channel.topic, "realtime:todos");
    assert_eq!(channel.postgres_changes.len(), 1);
    assert_eq!(channel.postgres_changes[0].table, "todos");
    assert_eq!(channel.join_ref, None);
    assert!(client.subscription(&channel.topic).is_none());
    match client.next_command() {
        Some(Command::Subscribe(asked)) => {
            assert_eq!(asked.topic, "realtime:todos");
            assert_eq!(asked.mailbox, channel.mailbox);
        }
        _ => panic!("no subscription"),
    }
    assert!(client.next_command().is_none());
}

#[test]
fn broadcast_channel_has_its_own_topic() {
    let mut client = client();
    let channel = broadcast_channel(&mut client, "room");
    assert_eq!(channel.topic, "realtime:room");
    assert!(channel.postgres_changes.is_empty());
}

#[test]
fn commands_are_carried_out_in_order() {
    let mut client = client();
    let first = broadcast_channel(&mut client, "a");
    let second = broadcast_channel(&mut client, "b");
    first.unsubscribe(&mut client);
    assert_ne!(first.mailbox, second.mailbox);
    let mut seen: Vec<String> = Vec::new();
    while let Some(command) = client.next_command() {
        seen.push(match command {
            Command::Subscribe(channel) => format!("+{}", channel.topic),
            Command::Unsubscribe(topic) => format!("-{}", topic),
        });
    }
    assert_eq!(seen, vec!["+realtime:a", "+realtime:b", "-realtime:a"]);
}

#[test]
fn table_channel_joins_with_its_changes() {
    let mut client = RealtimeClient::new(
        "https://abc".to_string(),
        "k".to_string(),
        Some("token".to_string()),
    );
    client.subscribe("todos".to_string(), SubscriptionSpec::PostgresChanges(changes()));
    let mut refid: i64 = 41;
    let sent = carry_out(&mut client, &mut refid);
    assert_eq!(refid, 42);
    assert_eq!(sent.len(), 1);
    assert_eq!(sent[0].topic, "realtime:todos");
    assert_eq!(sent[0].reference, Some("41".to_string()));
    assert_eq!(sent[0].join_ref, None);
    match &sent[0].payload {
        Events::Join { config, access_token } => {
            assert_eq!(config.private, None);
            assert_eq!(config.broadcast, None);
            assert_eq!(config.postgres_changes.len(), 1);
            assert_eq!(config.postgres_changes[0].event, PostgresEvent::Any);
            assert_eq!(config.postgres_changes[0].schema, "public");
            assert_eq!(config.postgres_changes[0].filter, Some("id=eq.1".to_string()));
            assert_eq!(access_token, &Some("token".to_string()));
        }
        other => panic!("{:?}", other),
    }
    let joined = client.subscription(&"realtime:todos".to_string()).unwrap();
    assert_eq!(joined.join_ref, Some("41".to_string()));
}

#[test]
fn broadcast_channel_joins_privately() {
    let mut client = client();
    broadcast_channel(&mut client, "room");
    let mut refid: i64 = 0;
    let sent = carry_out(&mut client, &mut refid);
    match &sent[0].payload {
        Events::Join { config, access_token } => {
            assert_eq!(config.private, Some(true));
            assert_eq!(
                config.broadcast,
                Some(BroadcastConfig { self_messages: false, ack: false })
            );
            assert!(config.postgres_changes.is_empty());
            assert_eq!(access_token, &None);
        }
        other => panic!("{:?}", other),
    }
}

#[test]
fn joined_channel_is_not_joined_again() {
    let mut client = client();
    let mut channel = broadcast_channel(&mut client, "room");
    channel.join_ref = Some("3".to_string());
    let mut refid: i64 = 5;
    let sent = client.process(&mut refid, Event::Command(Command::Subscribe(channel)));
    assert!(sent.is_empty());
    assert_eq!(refid, 5);
    assert!(client.subscription(&"realtime:room".to_string()).is_none());
}

#[test]
fn leaving_names_the_join() {
    let mut client = client();
    let channel = broadcast_channel(&mut client, "room");
    let mut refid: i64 = 7;
    let join = carry_out(&mut client, &mut refid);
    client.process(&mut refid, Event::Heartbeat);
    channel.unsubscribe(&mut client);
    let leave = carry_out(&mut client, &mut refid);
    assert_eq!(leave.len(), 1);
    assert_eq!(leave[0].topic, "realtime:room");
    assert!(matches!(leave[0].payload, Events::Leave {}));
    assert_eq!(leave[0].join_ref, join[0].reference);
    assert_eq!(leave[0].reference, Some("9".to_string()));
    assert_eq!(refid, 9);
    assert!(client.subscription(&channel.topic).is_none());
}

#[test]
fn leaving_an_unknown_topic_sends_nothing() {
    let mut client = client();
    let mut refid: i64 = 7;
    let command = Command::Unsubscribe("realtime:room".to_string());
    assert!(client.process(&mut refid, Event::Command(command)).is_empty());
    assert_eq!(refid, 7);
}

#[test]
fn messages_reach_their_channel_in_order() {
    let mut client = client();
    let a = broadcast_channel(&mut client, "a");
    let b = broadcast_channel(&mut client, "b");
    let mut refid: i64 = 0;
    carry_out(&mut client, &mut refid);
    carry_out(&mut client, &mut refid);
    for n in 1..=40 {
        assert!(client.process(&mut refid, change_message("realtime:a", n)).is_empty());
        assert!(client.process(&mut refid, broadcast_message("realtime:b", -n)).is_empty());
    }
    client.process(&mut refid, change_message("realtime:c", 100));
    assert_eq!(refid, 2);
    for n in 1..=40 {
        assert_eq!(client.next_payload(&a).unwrap().record, Value::from(n));
        assert_eq!(client.next_broadcast(&b).unwrap(), Value::from(-n));
    }
    assert!(client.next_payload(&a).is_none());
    assert!(client.next_payload(&b).is_none());
    assert!(client.next_broadcast(&a).is_none());
    assert!(client.next_broadcast(&b).is_none());
}

#[test]
fn new_subscription_takes_over_the_topic() {
    let mut client = client();
    let first = broadcast_channel(&mut client, "a");
    let second = broadcast_channel(&mut client, "a");
    let mut refid: i64 = 0;
    carry_out(&mut client, &mut refid);
    client.process(&mut refid, change_message("realtime:a", 1));
    carry_out(&mut client, &mut refid);
    client.process(&mut refid, change_message("realtime:a", 2));
    assert_eq!(client.next_payload(&first).unwrap().record, Value::from(1));
    assert!(client.next_payload(&first).is_none());
    assert_eq!(client.next_payload(&second).unwrap().record, Value::from(2));
    let joined = client.subscription(&"realtime:a".to_string()).unwrap();
    assert_eq!(joined.join_ref, Some("1".to_string()));
}

#[test]
fn nothing_arrives_before_joining_or_after_leaving() {
    let mut client = client();
    let a = broadcast_channel(&mut client, "a");
    let mut refid: i64 = 0;
    client.process(&mut refid, change_message("realtime:a", 1));
    carry_out(&mut client, &mut refid);
    a.unsubscribe(&mut client);
    carry_out(&mut client, &mut refid);
    client.process(&mut refid, change_message("realtime:a", 2));
    assert!(client.next_payload(&a).is_none());
}

#[test]
fn closed_mailbox_keeps_nothing() {
    let mut client = client();
    let a = broadcast_channel(&mut client, "a");
    let b = broadcast_channel(&mut client, "b");
    let mut refid: i64 = 0;
    carry_out(&mut client, &mut refid);
    carry_out(&mut client, &mut refid);
    client.process(&mut refid, change_message("realtime:a", 1));
    client.process(&mut refid, change_message("realtime:b", 2));
    client.close(&a);
    client.process(&mut refid, change_message("realtime:a", 3));
    assert!(client.next_payload(&a).is_none());
    assert_eq!(client.next_payload(&b).unwrap().record, Value::from(2));
}

#[test]
fn other_messages_change_nothing() {
    let mut client = client();
    let a = broadcast_channel(&mut client, "a");
    let mut refid: i64 = 0;
    carry_out(&mut client, &mut refid);
    assert!(client.process(&mut refid, message("realtime:a", Events::Heartbeat {})).is_empty());
    assert!(client.process(&mut refid, message("realtime:a", Events::Leave {})).is_empty());
    assert!(client.subscription(&a.topic).is_some());
    assert!(client.next_payload(&a).is_none());
}

#[test]
fn every_channel_is_told_of_a_new_token() {
    let mut client = client();
    broadcast_channel(&mut client, "a");
    broadcast_channel(&mut client, "b");
    let mut refid: i64 = 0;
    carry_out(&mut client, &mut refid);
    carry_out(&mut client, &mut refid);
    client.update_access_token("t1".to_string());
    client.update_access_token("t2".to_string());
    let token = client.next_access_token().unwrap();
    assert_eq!(token, "t1");
    let sent = client.process(&mut refid, Event::AccessToken(token));
    assert_eq!(refid, 4);
    let mut topics: Vec<String> = sent.iter().map(|m| m.topic.clone()).collect();
    topics.sort();
    assert_eq!(topics, vec!["realtime:a", "realtime:b"]);
    let references: Vec<Option<String>> = sent.iter().map(|m| m.reference.clone()).collect();
    assert_eq!(references, vec![Some("2".to_string()), Some("3".to_string())]);
    for m in &sent {
        assert_eq!(m.join_ref, None);
        match &m.payload {
            Events::AccessToken { access_token } => assert_eq!(access_token, "t1"),
            other => panic!("{:?}", other),
        }
    }
    assert_eq!(client.next_access_token(), Some("t2".to_string()));
    assert_eq!(client.next_access_token(), None);
}

#[test]
fn new_channels_join_with_the_new_token() {
    let mut client = client();
    client.update_access_token("t".to_string());
    broadcast_channel(&mut client, "a");
    let mut refid: i64 = 0;
    let sent = carry_out(&mut client, &mut refid);
    match &sent[0].payload {
        Events::Join { access_token, .. } => assert_eq!(access_token, &Some("t".to_string())),
        other => panic!("{:?}", other),
    }
}

#[test]
fn heartbeat_keeps_the_connection() {
    let mut client = client();
    let mut refid: i64 = 0;
    let sent = client.process(&mut refid, Event::Heartbeat);
    assert_eq!(refid, 1);
    assert_eq!(sent.len(), 1);
    assert_eq!(sent[0].topic, "phoenix");
    assert!(matches!(sent[0].payload, Events::Heartbeat {}));
    assert_eq!(sent[0].reference, Some("0".to_string()));
    assert_eq!(sent[0].join_ref, None);
}

#[test]
fn references_run_out_at_the_largest_number() {
    let mut client = client();
    let a = broadcast_channel(&mut client, "a");
    let leave = Event::Command(Command::Unsubscribe("realtime:a".to_string()));
    let join = Event::Command(Command::Subscribe(a));
    let token = Event::AccessToken("t".to_string());
    assert!(client.can_process(i64::MAX - 1, &Event::Heartbeat));
    assert!(!client.can_process(i64::MAX, &Event::Heartbeat));
    assert!(!client.can_process(i64::MAX, &join));
    assert!(client.can_process(i64::MAX, &leave));
    assert!(client.can_process(i64::MAX, &token));
    assert!(client.can_process(i64::MAX, &change_message("x", 1)));
    let mut refid: i64 = 0;
    carry_out(&mut client, &mut refid);
    assert!(!client.can_process(i64::MAX, &token));
}

#[test]
fn references_are_not_reused() {
    let mut client = client();
    let mut refid: i64 = 0;
    let mut seen: Vec<Option<String>> = Vec::new();
    for name in ["a", "b", "a", "c"] {
        broadcast_channel(&mut client, name);
        for m in carry_out(&mut client, &mut refid) {
            seen.push(m.reference);
        }
        for event in [Event::Heartbeat, Event::AccessToken("t".to_string())] {
            for m in client.process(&mut refid, event) {
                seen.push(m.reference);
            }
        }
    }
    let mut distinct = seen.clone();
    distinct.sort();
    distinct.dedup();
    assert_eq!(seen.len(), 16);
    assert_eq!(distinct.len(), seen.len());
}

#[test]
fn change_carries_the_read_record() {
    let change = PostgresChange::from(payload(12), "twelve".to_string());
    assert_eq!(change.schema, "public");
    assert_eq!(change.table, "todos");
    assert_eq!(change.commit_timestamp, "now");
    assert_eq!(change.event_type, "INSERT");
    assert_eq!(change.record, "twelve");
    assert_eq!(change.old_record, Value::Null);
    assert_eq!(change.errors, None);
}

#[test]
fn messages_are_copied_whole() {
    let events = [
        Events::Leave {},
        Events::Heartbeat {},
        Events::AccessToken { access_token: "t".to_string() },
        Events::PostgresChanges { data: payload(5), ids: vec![3, 4] },
        Events::Broadcast {
            ty: "broadcast".to_string(),
            event: "INSERT".to_string(),
            payload: Value::Array(vec![Value::from(1), Value::Null]),
        },
    ];
    for payload in events {
        let message = EventMessage {
            topic: "realtime:a".to_string(),
            payload,
            reference: Some("7".to_string()),
            join_ref: Some("1".to_string()),
        };
        assert_eq!(format!("{:?}", message.clone()), format!("{:?}", message));
    }
    let mut client = client();
    let mut refid: i64 = 0;
    client.subscribe("todos".to_string(), SubscriptionSpec::PostgresChanges(changes()));
    let join = carry_out(&mut client, &mut refid).remove(0);
    assert_eq!(format!("{:?}", join.clone()), format!("{:?}", join));
}
