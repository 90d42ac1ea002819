use sync_primitives::one_shot::{OneShotChannel, ThreadId};

#[test]
fn test_one_shot() {
    let mut channel: OneShotChannel<String> = OneShotChannel::new();
    let receiver_thread = ThreadId { id: 1 };
    let (send, receive) = channel.split(receiver_thread);
    send.send(&mut channel, String::from("hello world!"));
    assert_eq!(receive.receive(&mut channel, receiver_thread), "hello world!");
}

#[test]
fn send_names_the_thread_to_wake() {
    let mut channel: OneShotChannel<u64> = OneShotChannel::new();
    let receiver_thread = ThreadId { id: 42 };
    let (send, receive) = channel.split(receiver_thread);
    let wake = send.send(&mut channel, 5);
    assert_eq!(wake, receiver_thread);
    assert_eq!(receive.receive(&mut channel, receiver_thread), 5);
}

#[test]
fn unreceived_message_not_leaked_on_teardown() {
    let mut channel: OneShotChannel<String> = OneShotChannel::new();
    let me = ThreadId { id: 3 };
    let (send, _receive) = channel.split(me);
    send.send(&mut channel, String::from("never read"));
    // Teardown with a pending message hands the message back for
    // destruction instead of leaking it.
    let leftover = channel.close();
    assert_eq!(leftover, Some(String::from("never read")));
}

#[test]
fn teardown_with_no_message_pending() {
    let channel: OneShotChannel<String> = OneShotChannel::new();
    assert_eq!(channel.close(), None);

    // A completed cycle leaves nothing pending either.
    let mut channel: OneShotChannel<String> = OneShotChannel::new();
    let me = ThreadId { id: 4 };
    let (send, receive) = channel.split(me);
    send.send(&mut channel, String::from("taken"));
    let _ = receive.receive(&mut channel, me);
    assert_eq!(channel.close(), None);
}

#[test]
fn fresh_split_supports_one_more_cycle() {
    let mut channel: OneShotChannel<u64> = OneShotChannel::new();
    let me = ThreadId { id: 9 };

    let (send, receive) = channel.split(me);
    send.send(&mut channel, 10);
    assert_eq!(receive.receive(&mut channel, me), 10);

    let (send, receive) = channel.split(me);
    send.send(&mut channel, 20);
    assert_eq!(receive.receive(&mut channel, me), 20);
}
