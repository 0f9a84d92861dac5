use bytes::Bytes;
use joblib::broadcaster::{Actor, Message, Subscriber};
use joblib::types::{Output, OutputType};
use tokio::sync::mpsc::error::TryRecvError;
use tokio::sync::mpsc::{unbounded_channel, UnboundedReceiver};

/// Reads everything that waits in the channel and tells whether the channel has ended.
fn drain(rx: &mut UnboundedReceiver<Bytes>) -> (Vec<u8>, bool) {
    let mut received = Vec::new();
    loop {
        match rx.try_recv() {
            Ok(blob) => received.extend_from_slice(&blob),
            Err(TryRecvError::Empty) => return (received, false),
            Err(TryRecvError::Disconnected) => return (received, true),
        }
    }
}

fn stdout(text: &str) -> Output {
    Output::Stdout(Bytes::copy_from_slice(text.as_bytes()))
}

fn stderr(text: &str) -> Output {
    Output::Stderr(Bytes::copy_from_slice(text.as_bytes()))
}

#[test]
fn basic() {
    let mut broadcaster = Actor::new();
    let echo_str = "hello world!";
    let (tx, mut output) = unbounded_channel();
    broadcaster.stream_all(tx);
    broadcaster.on_output(Some(stdout(echo_str)));
    broadcaster.on_output(None);
    let (output_bytes, ended) = drain(&mut output);
    assert_eq!(String::from_utf8_lossy(&output_bytes), echo_str);
    assert!(ended);
}

#[test]
fn concurrent_output() {
    let mut broadcaster = Actor::new();
    let echo_str = "hello world!";
    broadcaster.on_output(Some(stdout("hello ")));
    let num_subs = 3600;
    let mut subscribers = Vec::with_capacity(num_subs);
    for _ in 0..num_subs {
        let (tx, rx) = unbounded_channel();
        broadcaster.stream_all(tx);
        subscribers.push(rx);
    }
    assert_eq!(broadcaster.subscriber_count(), num_subs);
    broadcaster.on_output(Some(stdout("world!")));
    broadcaster.on_output(None);
    let mut received_strs = Vec::new();
    for mut rx in subscribers {
        let (bytes, ended) = drain(&mut rx);
        assert!(ended);
        received_strs.push(String::from_utf8_lossy(&bytes).into_owned());
    }
    assert_eq!(received_strs.len(), num_subs);
    for res in received_strs {
        assert_eq!(res, echo_str);
    }
}

#[test]
fn new_broadcaster_is_empty_and_pending() {
    let broadcaster = Actor::new();
    assert!(broadcaster.output_pending());
    assert_eq!(broadcaster.history_len(), 0);
    assert_eq!(broadcaster.subscriber_count(), 0);
}

#[test]
fn late_joiner_receives_history_then_live_output() {
    let mut broadcaster = Actor::new();
    let (early_tx, mut early) = unbounded_channel();
    broadcaster.stream_all(early_tx);
    broadcaster.broadcast(stdout("A"));
    let (late_tx, mut late) = unbounded_channel();
    broadcaster.stream_all(late_tx);
    assert_eq!(drain(&mut late), (b"A".to_vec(), false));
    broadcaster.broadcast(stdout("B"));
    broadcaster.close_output();
    assert_eq!(drain(&mut early), (b"AB".to_vec(), true));
    assert_eq!(drain(&mut late), (b"B".to_vec(), true));
}

#[test]
fn streams_are_kept_apart() {
    let mut broadcaster = Actor::new();
    let (out_tx, mut out) = unbounded_channel();
    let (err_tx, mut err) = unbounded_channel();
    let (all_tx, mut all) = unbounded_channel();
    broadcaster.stream_stdout(out_tx);
    broadcaster.stream_stderr(err_tx);
    broadcaster.stream_all(all_tx);
    broadcaster.broadcast(stdout("out"));
    broadcaster.broadcast(stderr("err"));
    broadcaster.close_output();
    assert_eq!(drain(&mut out), (b"out".to_vec(), true));
    assert_eq!(drain(&mut err), (b"err".to_vec(), true));
    assert_eq!(drain(&mut all), (b"outerr".to_vec(), true));
}

#[test]
fn stream_all_follows_the_order_of_publication() {
    let mut broadcaster = Actor::new();
    broadcaster.broadcast(stderr("err"));
    broadcaster.broadcast(stdout("out"));
    broadcaster.broadcast(stderr("!"));
    let (all_tx, mut all) = unbounded_channel();
    broadcaster.stream_all(all_tx);
    let mut blobs = Vec::new();
    while let Ok(blob) = all.try_recv() {
        blobs.push(blob.to_vec());
    }
    assert_eq!(blobs, vec![b"err".to_vec(), b"out".to_vec(), b"!".to_vec()]);
}

#[test]
fn history_is_replayed_by_stream() {
    let mut broadcaster = Actor::new();
    broadcaster.broadcast(stdout("o1"));
    broadcaster.broadcast(stderr("e1"));
    broadcaster.broadcast(stdout("o2"));
    let (out_tx, mut out) = unbounded_channel();
    let (err_tx, mut err) = unbounded_channel();
    broadcaster.on_inbox(Some(Message::StreamStdout { subscriber: out_tx }));
    broadcaster.on_inbox(Some(Message::StreamStderr { subscriber: err_tx }));
    assert_eq!(drain(&mut out), (b"o1o2".to_vec(), false));
    assert_eq!(drain(&mut err), (b"e1".to_vec(), false));
    assert_eq!(broadcaster.subscriber_count(), 2);
    assert_eq!(broadcaster.history_len(), 3);
}

#[test]
fn subscriber_after_the_end_gets_the_whole_output() {
    let mut broadcaster = Actor::new();
    broadcaster.on_output(Some(stdout("fast ")));
    broadcaster.on_output(Some(stderr("exit")));
    broadcaster.on_output(None);
    assert!(!broadcaster.output_pending());
    let (tx, mut rx) = unbounded_channel();
    broadcaster.handle_request(Message::StreamAll { subscriber: tx });
    assert_eq!(broadcaster.subscriber_count(), 0);
    assert_eq!(drain(&mut rx), (b"fast exit".to_vec(), true));
    let (tx, mut rx) = unbounded_channel();
    broadcaster.stream_stderr(tx);
    assert_eq!(drain(&mut rx), (b"exit".to_vec(), true));
}

#[test]
fn dropped_subscriber_is_evicted_and_the_others_go_on() {
    let mut broadcaster = Actor::new();
    let (first_tx, mut first) = unbounded_channel();
    let (gone_tx, gone) = unbounded_channel();
    let (last_tx, mut last) = unbounded_channel();
    broadcaster.stream_all(first_tx);
    broadcaster.stream_all(gone_tx);
    broadcaster.stream_all(last_tx);
    broadcaster.broadcast(stdout("one "));
    assert_eq!(broadcaster.subscriber_count(), 3);
    drop(gone);
    broadcaster.broadcast(stdout("two "));
    assert_eq!(broadcaster.subscriber_count(), 2);
    broadcaster.broadcast(stderr("three"));
    broadcaster.close_output();
    assert_eq!(drain(&mut first), (b"one two three".to_vec(), true));
    assert_eq!(drain(&mut last), (b"one two three".to_vec(), true));
}

#[test]
fn subscriber_of_another_stream_is_not_evicted_by_a_chunk_it_does_not_get() {
    let mut broadcaster = Actor::new();
    let (err_tx, err) = unbounded_channel();
    broadcaster.stream_stderr(err_tx);
    drop(err);
    broadcaster.broadcast(stdout("out"));
    assert_eq!(broadcaster.subscriber_count(), 1);
    broadcaster.broadcast(stderr("err"));
    assert_eq!(broadcaster.subscriber_count(), 0);
}

#[test]
fn subscriber_that_is_gone_during_replay_is_not_registered() {
    let mut broadcaster = Actor::new();
    broadcaster.broadcast(stdout("out"));
    let (tx, rx) = unbounded_channel();
    drop(rx);
    broadcaster.stream_stdout(tx);
    assert_eq!(broadcaster.subscriber_count(), 0);
    assert_eq!(broadcaster.history_len(), 1);
}

#[test]
fn subscriber_that_is_gone_is_registered_while_nothing_is_sent() {
    let mut broadcaster = Actor::new();
    let (tx, rx) = unbounded_channel();
    drop(rx);
    broadcaster.stream_stdout(tx);
    assert_eq!(broadcaster.subscriber_count(), 1);
    broadcaster.broadcast(stdout("out"));
    assert_eq!(broadcaster.subscriber_count(), 0);
}

#[test]
fn output_after_the_end_is_not_taken() {
    let mut broadcaster = Actor::new();
    broadcaster.on_output(Some(stdout("kept")));
    broadcaster.on_output(None);
    broadcaster.on_output(Some(stdout("late")));
    assert_eq!(broadcaster.history_len(), 1);
    let (tx, mut rx) = unbounded_channel();
    broadcaster.stream_all(tx);
    assert_eq!(drain(&mut rx), (b"kept".to_vec(), true));
}

#[test]
fn subscribers_are_served_until_the_output_ends_though_the_inbox_has_ended() {
    let mut broadcaster = Actor::new();
    let (tx, mut rx) = unbounded_channel();
    assert!(broadcaster.inbox_open());
    assert!(broadcaster.on_inbox(Some(Message::StreamAll { subscriber: tx })));
    assert!(broadcaster.on_output(Some(stdout("x"))));
    assert!(broadcaster.on_inbox(None));
    assert!(!broadcaster.inbox_open());
    assert_eq!(broadcaster.subscriber_count(), 1);
    assert!(broadcaster.output_pending());
    assert!(broadcaster.on_output(Some(stdout("y"))));
    assert_eq!(drain(&mut rx), (b"xy".to_vec(), false));
    assert!(!broadcaster.on_output(None));
    assert_eq!(broadcaster.subscriber_count(), 0);
    assert_eq!(drain(&mut rx), (Vec::new(), true));
}

#[test]
fn broadcaster_waits_for_requests_after_the_output_has_ended() {
    let mut broadcaster = Actor::new();
    assert!(broadcaster.on_output(Some(stderr("e"))));
    assert!(broadcaster.on_output(None));
    let (tx, mut rx) = unbounded_channel();
    assert!(broadcaster.on_inbox(Some(Message::StreamStderr { subscriber: tx })));
    assert_eq!(drain(&mut rx), (b"e".to_vec(), true));
    assert!(!broadcaster.on_inbox(None));
}

#[test]
fn chunk_after_the_end_is_not_taken_by_broadcast() {
    let mut broadcaster = Actor::new();
    broadcaster.broadcast(stdout("kept"));
    broadcaster.close_output();
    broadcaster.broadcast(stdout("late"));
    assert_eq!(broadcaster.history_len(), 1);
    let (tx, mut rx) = unbounded_channel();
    broadcaster.stream_stdout(tx);
    assert_eq!(drain(&mut rx), (b"kept".to_vec(), true));
}

#[test]
fn two_subscribers_of_one_stream_receive_the_same_sequence() {
    let mut broadcaster = Actor::new();
    let (a_tx, mut a) = unbounded_channel();
    broadcaster.stream_stdout(a_tx);
    broadcaster.broadcast(stdout("1"));
    broadcaster.broadcast(stderr("x"));
    let (b_tx, mut b) = unbounded_channel();
    broadcaster.stream_stdout(b_tx);
    broadcaster.broadcast(stdout("2"));
    broadcaster.close_output();
    let mut seen_a = Vec::new();
    while let Ok(blob) = a.try_recv() {
        seen_a.push(blob);
    }
    let mut seen_b = Vec::new();
    while let Ok(blob) = b.try_recv() {
        seen_b.push(blob);
    }
    assert_eq!(seen_a, vec![Bytes::from_static(b"1"), Bytes::from_static(b"2")]);
    assert_eq!(seen_a, seen_b);
}

#[test]
fn subscriber_send_reports_a_closed_channel() {
    let (tx, mut rx) = unbounded_channel();
    let mut subscriber = Subscriber::new(tx, OutputType::All);
    assert!(subscriber.send(Bytes::from_static(b"a")));
    assert!(subscriber.offer(&stdout("b")));
    assert_eq!(drain(&mut rx), (b"ab".to_vec(), false));
    drop(rx);
    assert!(!subscriber.send(Bytes::from_static(b"c")));
    assert!(!subscriber.offer(&stderr("d")));
}

#[test]
fn offer_skips_a_chunk_of_another_stream() {
    let (tx, mut rx) = unbounded_channel();
    let mut subscriber = Subscriber::new(tx, OutputType::Stderr);
    assert!(subscriber.offer(&stdout("skipped")));
    assert!(subscriber.offer(&stderr("taken")));
    assert_eq!(drain(&mut rx), (b"taken".to_vec(), false));
}

#[test]
fn replay_history_stops_at_a_closed_channel() {
    let mut broadcaster = Actor::new();
    broadcaster.broadcast(stdout("a"));
    broadcaster.broadcast(stderr("b"));
    let (tx, mut rx) = unbounded_channel();
    let mut subscriber = Subscriber::new(tx, OutputType::All);
    assert!(broadcaster.replay_history(&mut subscriber));
    assert_eq!(drain(&mut rx), (b"ab".to_vec(), false));
    drop(rx);
    assert!(!broadcaster.replay_history(&mut subscriber));
}

#[test]
fn output_type_selects_by_stream() {
    assert!(OutputType::Stdout.selects(&stdout("x")));
    assert!(!OutputType::Stdout.selects(&stderr("x")));
    assert!(!OutputType::Stderr.selects(&stdout("x")));
    assert!(OutputType::Stderr.selects(&stderr("x")));
    assert!(OutputType::All.selects(&stdout("x")));
    assert!(OutputType::All.selects(&stderr("x")));
}

#[test]
fn output_clone_keeps_stream_and_bytes() {
    let chunk = stderr("payload");
    let copy = chunk.clone();
    assert!(matches!(&copy, Output::Stderr(blob) if &blob[..] == b"payload"));
    assert_eq!(&copy.blob()[..], &chunk.blob()[..]);
}
