use fakebook::domain::db_id::DbId;
use fakebook::infrastructure::errors::NotificationCenterError;
use fakebook::infrastructure::notification_center::{
    bridge_command, CommentNotification, Delivery, Listener, ListenerHandle, ListenerTopic,
    Notification, NotificationCenter, NotificationCenterDaemon, NotificationCenterDaemonCommand,
    PostNotification, Subscription, COMMAND_CAPACITY, COMMENT_CHANNEL, LISTENER_CAPACITY,
    POST_CHANNEL,
};
use tokio::sync::mpsc::error::TrySendError;
use tokio::sync::mpsc::{channel, Receiver, Sender};

fn id(raw: i32) -> DbId {
    DbId::from(raw)
}

fn post(author: i32, post: i32) -> Notification {
    Notification::Post(PostNotification { author_id: id(author), post_id: id(post) })
}

fn comment(author: i32, post: i32, comment: i32) -> Notification {
    Notification::Comment(CommentNotification {
        author_id: id(author),
        post_id: id(post),
        comment_id: id(comment),
    })
}

fn wait<F: std::future::Future>(future: F) -> F::Output {
    tokio::runtime::Builder::new_current_thread().build().unwrap().block_on(future)
}

fn listener(topics: Vec<ListenerTopic>) -> (Listener, Receiver<Notification>) {
    let (tx, rx) = channel::<Notification>(LISTENER_CAPACITY);
    (Listener::new(topics, tx), rx)
}

fn started_center() -> (NotificationCenter, Receiver<NotificationCenterDaemonCommand>) {
    let (tx, rx): (Sender<NotificationCenterDaemonCommand>, _) = channel(COMMAND_CAPACITY);
    let mut center = NotificationCenter::new();
    center.start_daemon(tx);
    (center, rx)
}

/// Does what the driver does with a delivery: one send per recipient.
fn perform(daemon: &NotificationCenterDaemon, delivery: Delivery) -> usize {
    let mut sent = 0;
    for at in delivery.recipients {
        let target = daemon.listener(at).unwrap();
        if wait(target.tx.send(delivery.notification)).is_ok() {
            sent += 1;
        }
    }
    sent
}

/// Does what the driver does on the receiving side: wait, then take the batch.
fn receive(handle: &mut ListenerHandle) -> Option<Vec<Notification>> {
    let limit = handle.limit();
    let received = wait(handle.rx.recv_many(&mut handle.buffer, limit));
    handle.take_batch(received)
}

#[test]
fn user_topic_matches_by_author() {
    let topic = ListenerTopic::User(id(7));
    assert!(topic.matches(&post(7, 42)));
    assert!(!topic.matches(&post(8, 42)));
    assert!(topic.matches(&comment(7, 1, 2)));
    assert!(!topic.matches(&comment(8, 7, 7)));
}

#[test]
fn post_topic_matches_by_post_whatever_the_author() {
    let topic = ListenerTopic::Post(id(42));
    assert!(topic.matches(&post(7, 42)));
    assert!(topic.matches(&post(8, 42)));
    assert!(topic.matches(&comment(9, 42, 1)));
    assert!(!topic.matches(&post(42, 41)));
    assert!(!topic.matches(&comment(42, 41, 42)));
}

#[test]
fn event_accessors() {
    assert_eq!(id(7), post(7, 42).author_id());
    assert_eq!(id(42), post(7, 42).post_id());
    assert_eq!(id(9), comment(9, 42, 1).author_id());
    assert_eq!(id(42), comment(9, 42, 1).post_id());
}

#[test]
fn listener_wants_what_any_topic_matches() {
    let (both, _rx) = listener(vec![ListenerTopic::User(id(7)), ListenerTopic::Post(id(99))]);
    assert!(both.cares_about(&post(7, 1)));
    assert!(both.cares_about(&post(1, 99)));
    assert!(both.cares_about(&comment(3, 99, 5)));
    assert!(both.cares_about(&post(7, 99)));
    assert!(!both.cares_about(&post(8, 98)));
}

#[test]
fn listener_without_topics_wants_nothing() {
    let (none, _rx) = listener(Vec::new());
    assert!(!none.cares_about(&post(7, 42)));
    assert!(!none.cares_about(&comment(7, 42, 1)));
}

#[test]
fn post_payload_is_parsed() {
    let parsed = PostNotification::try_from("42:7").unwrap();
    assert_eq!(PostNotification { post_id: id(42), author_id: id(7) }, parsed);
}

#[test]
fn comment_payload_is_parsed() {
    let parsed = CommentNotification::try_from("10:42:7").unwrap();
    assert_eq!(
        CommentNotification { comment_id: id(10), post_id: id(42), author_id: id(7) },
        parsed
    );
}

#[test]
fn signed_numbers_are_numbers() {
    let parsed = PostNotification::try_from("-5:+6").unwrap();
    assert_eq!(PostNotification { post_id: id(-5), author_id: id(6) }, parsed);
}

#[test]
fn malformed_post_payloads_fail() {
    for payload in ["abc:7", "42", "42:7:9", "", ":", "42:", ":7", "42: 7", " 42:7", "42:7 ",
        "4 2:7", "42;7", "2147483648:7", "42:-2147483649", "42:7:", "4.2:7"]
    {
        assert!(matches!(
            PostNotification::try_from(payload),
            Err(NotificationCenterError::ParsingFailed)
        ));
    }
}

#[test]
fn malformed_comment_payloads_fail() {
    for payload in ["10:42", "10:42:7:1", "a:42:7", "10:b:7", "10:42:c", "", "::", "10::7"] {
        assert!(matches!(
            CommentNotification::try_from(payload),
            Err(NotificationCenterError::ParsingFailed)
        ));
    }
}

#[test]
fn raw_notification_is_read_by_channel() {
    assert_eq!(post(7, 42), Notification::from_raw("post_notification", "42:7").unwrap());
    assert_eq!(
        comment(7, 42, 10),
        Notification::from_raw("comment_notification", "10:42:7").unwrap()
    );
    assert_eq!(post(7, 42), Notification::from_raw(POST_CHANNEL, "42:7").unwrap());
    assert_eq!(comment(7, 42, 10), Notification::from_raw(COMMENT_CHANNEL, "10:42:7").unwrap());
}

#[test]
fn raw_notification_on_another_channel_fails() {
    for channel in ["", "post", "post_notifications", "POST_NOTIFICATION", "user_notification"] {
        for payload in ["42:7", "10:42:7", "", "x"] {
            assert!(matches!(
                Notification::from_raw(channel, payload),
                Err(NotificationCenterError::ParsingFailed)
            ));
        }
    }
}

#[test]
fn raw_notification_with_the_other_channels_payload_fails() {
    assert!(Notification::from_raw("post_notification", "10:42:7").is_err());
    assert!(Notification::from_raw("comment_notification", "42:7").is_err());
}

#[test]
fn bridge_turns_good_messages_into_commands_and_drops_the_rest() {
    match bridge_command("post_notification", "42:7") {
        Some(NotificationCenterDaemonCommand::HandleNotification(event)) => {
            assert_eq!(post(7, 42), event)
        }
        _ => panic!("a well-formed message must become a command"),
    }
    assert!(bridge_command("post_notification", "abc:7").is_none());
    assert!(bridge_command("elsewhere", "42:7").is_none());
}

#[test]
fn new_daemon_is_empty() {
    let daemon = NotificationCenterDaemon::new();
    assert_eq!(0, daemon.len());
    assert!(daemon.listener(0).is_none());
    assert!(daemon.handle_notification(&post(7, 42)).is_empty());
}

#[test]
fn listeners_are_appended_without_deduplication() {
    let mut daemon = NotificationCenterDaemon::new();
    let (first, _rx1) = listener(vec![ListenerTopic::User(id(7))]);
    let (second, _rx2) = listener(vec![ListenerTopic::User(id(7))]);
    daemon.add_listener(first);
    daemon.add_listener(second);
    assert_eq!(2, daemon.len());
    assert_eq!(vec![0, 1], daemon.handle_notification(&post(7, 42)));
}

#[test]
fn recipients_are_the_interested_positions_in_order() {
    let mut daemon = NotificationCenterDaemon::new();
    let mut receivers = Vec::new();
    for topics in [
        vec![ListenerTopic::User(id(1))],
        vec![ListenerTopic::Post(id(42))],
        Vec::new(),
        vec![ListenerTopic::User(id(7)), ListenerTopic::Post(id(42))],
        vec![ListenerTopic::User(id(7))],
    ] {
        let (entry, rx) = listener(topics);
        daemon.add_listener(entry);
        receivers.push(rx);
    }
    assert_eq!(vec![1, 3, 4], daemon.handle_notification(&post(7, 42)));
    assert_eq!(vec![0], daemon.handle_notification(&comment(1, 5, 6)));
    assert_eq!(Vec::<usize>::new(), daemon.handle_notification(&post(2, 3)));
}

#[test]
fn fan_out_is_a_broadcast() {
    let (center, _commands) = started_center();
    let mut daemon = NotificationCenterDaemon::new();
    let Subscription { command, handle: mut by_user } =
        center.subscribe(vec![ListenerTopic::User(id(7))]).unwrap();
    assert!(daemon.dispatch(command).is_none());
    let Subscription { command, handle: mut by_post } =
        center.subscribe(vec![ListenerTopic::Post(id(42)), ListenerTopic::User(id(7))]).unwrap();
    assert!(daemon.dispatch(command).is_none());
    let Subscription { command, handle: mut elsewhere } =
        center.subscribe(vec![ListenerTopic::Post(id(1))]).unwrap();
    assert!(daemon.dispatch(command).is_none());

    let event = post(7, 42);
    let delivery =
        daemon.dispatch(NotificationCenterDaemonCommand::HandleNotification(event)).unwrap();
    assert_eq!(event, delivery.notification);
    assert_eq!(vec![0, 1], delivery.recipients);
    assert_eq!(2, perform(&daemon, delivery));

    assert_eq!(Some(vec![event]), receive(&mut by_user));
    assert_eq!(Some(vec![event]), receive(&mut by_post));
    assert!(elsewhere.rx.try_recv().is_err());
    assert_eq!(3, daemon.len());
}

#[test]
fn dropped_subscriber_stays_until_maintenance() {
    let (center, _commands) = started_center();
    let mut daemon = NotificationCenterDaemon::new();
    let Subscription { command, handle: gone } =
        center.subscribe(vec![ListenerTopic::User(id(7))]).unwrap();
    daemon.dispatch(command);
    let Subscription { command, handle: mut live } =
        center.subscribe(vec![ListenerTopic::Post(id(42))]).unwrap();
    daemon.dispatch(command);

    drop(gone);
    assert_eq!(2, daemon.len());
    let delivery =
        daemon.dispatch(NotificationCenterDaemonCommand::HandleNotification(post(7, 42))).unwrap();
    assert_eq!(vec![0, 1], delivery.recipients);
    assert_eq!(1, perform(&daemon, delivery));
    assert_eq!(2, daemon.len());

    assert!(daemon.dispatch(NotificationCenterDaemonCommand::Maintainance).is_none());
    assert_eq!(1, daemon.len());
    assert_eq!(vec![ListenerTopic::Post(id(42))], daemon.listener(0).unwrap().topics);
    assert_eq!(Some(vec![post(7, 42)]), receive(&mut live));

    let delivery =
        daemon.dispatch(NotificationCenterDaemonCommand::HandleNotification(post(7, 42))).unwrap();
    assert_eq!(vec![0], delivery.recipients);
    assert_eq!(1, perform(&daemon, delivery));
    assert_eq!(Some(vec![post(7, 42)]), receive(&mut live));
}

#[test]
fn maintenance_leaves_live_subscribers_alone() {
    let mut daemon = NotificationCenterDaemon::new();
    let (first, _rx1) = listener(vec![ListenerTopic::User(id(1))]);
    let (second, _rx2) = listener(vec![ListenerTopic::User(id(2))]);
    daemon.add_listener(first);
    daemon.add_listener(second);
    assert_eq!(vec![false, false], daemon.closed_flags());
    daemon.maintainence();
    assert_eq!(2, daemon.len());
    assert_eq!(vec![ListenerTopic::User(id(1))], daemon.listener(0).unwrap().topics);
    assert_eq!(vec![ListenerTopic::User(id(2))], daemon.listener(1).unwrap().topics);
}

#[test]
fn closed_flags_follow_the_receivers() {
    let mut daemon = NotificationCenterDaemon::new();
    let (first, rx1) = listener(vec![ListenerTopic::User(id(1))]);
    let (second, _rx2) = listener(vec![ListenerTopic::User(id(2))]);
    let (third, rx3) = listener(vec![ListenerTopic::User(id(3))]);
    daemon.add_listener(first);
    daemon.add_listener(second);
    daemon.add_listener(third);
    drop(rx1);
    drop(rx3);
    assert_eq!(vec![true, false, true], daemon.closed_flags());
    daemon.maintainence();
    assert_eq!(1, daemon.len());
    assert_eq!(vec![ListenerTopic::User(id(2))], daemon.listener(0).unwrap().topics);
}

#[test]
fn sweep_removes_exactly_the_flagged_positions() {
    let mut daemon = NotificationCenterDaemon::new();
    let mut receivers = Vec::new();
    for user in 0..5 {
        let (entry, rx) = listener(vec![ListenerTopic::User(id(user))]);
        daemon.add_listener(entry);
        receivers.push(rx);
    }
    daemon.sweep(&vec![true, false, true, false, false]);
    assert_eq!(3, daemon.len());
    assert_eq!(vec![ListenerTopic::User(id(1))], daemon.listener(0).unwrap().topics);
    assert_eq!(vec![ListenerTopic::User(id(3))], daemon.listener(1).unwrap().topics);
    assert_eq!(vec![ListenerTopic::User(id(4))], daemon.listener(2).unwrap().topics);
    daemon.sweep(&vec![false, true]);
    assert_eq!(2, daemon.len());
    assert_eq!(vec![ListenerTopic::User(id(4))], daemon.listener(1).unwrap().topics);
    daemon.sweep(&vec![true, true, true, true]);
    assert_eq!(0, daemon.len());
    daemon.sweep(&vec![true]);
    assert_eq!(0, daemon.len());
}

#[test]
fn three_events_arrive_as_one_batch_in_order() {
    let (center, _commands) = started_center();
    let mut daemon = NotificationCenterDaemon::new();
    let Subscription { command, mut handle } =
        center.subscribe(vec![ListenerTopic::User(id(7))]).unwrap();
    daemon.dispatch(command);
    let events = [post(7, 1), comment(7, 1, 2), post(7, 3)];
    for event in events {
        let delivery =
            daemon.dispatch(NotificationCenterDaemonCommand::HandleNotification(event)).unwrap();
        assert_eq!(1, perform(&daemon, delivery));
    }
    assert_eq!(Some(events.to_vec()), receive(&mut handle));
    assert!(handle.buffer.is_empty());
}

#[test]
fn a_batch_holds_at_most_the_limit() {
    let (tx, rx) = channel::<Notification>(64);
    let mut handle = ListenerHandle::new(rx);
    assert_eq!(16, handle.limit());
    for n in 0..20 {
        tx.try_send(post(7, n)).unwrap();
    }
    let first = receive(&mut handle).unwrap();
    assert_eq!((0..16).map(|n| post(7, n)).collect::<Vec<_>>(), first);
    let second = receive(&mut handle).unwrap();
    assert_eq!((16..20).map(|n| post(7, n)).collect::<Vec<_>>(), second);
}

#[test]
fn closed_and_drained_channel_ends_the_stream() {
    let (tx, rx) = channel::<Notification>(LISTENER_CAPACITY);
    let mut handle = ListenerHandle::new(rx);
    tx.try_send(post(7, 1)).unwrap();
    drop(tx);
    assert_eq!(Some(vec![post(7, 1)]), receive(&mut handle));
    assert_eq!(None, receive(&mut handle));
    assert_eq!(None, receive(&mut handle));
}

#[test]
fn take_batch_of_nothing_keeps_the_buffer() {
    let (_tx, rx) = channel::<Notification>(LISTENER_CAPACITY);
    let mut handle = ListenerHandle::new(rx);
    assert!(handle.buffer.is_empty());
    assert_eq!(None, handle.take_batch(0));
    handle.buffer.push(post(7, 1));
    handle.buffer.push(post(7, 2));
    assert_eq!(None, handle.take_batch(0));
    assert_eq!(2, handle.buffer.len());
    assert_eq!(Some(vec![post(7, 1), post(7, 2)]), handle.take_batch(2));
    assert!(handle.buffer.is_empty());
}

#[test]
fn subscribe_before_start_fails() {
    let center = NotificationCenter::new();
    assert!(!center.is_started());
    assert!(center.daemon_tx().is_none());
    assert!(matches!(
        center.subscribe(vec![ListenerTopic::User(id(7))]),
        Err(NotificationCenterError::SubscriptionFailed)
    ));
}

#[test]
fn subscribe_prepares_a_registration_and_a_connected_handle() {
    let (center, _commands) = started_center();
    assert!(center.is_started());
    assert!(center.daemon_tx().is_some());
    let topics = vec![ListenerTopic::User(id(7)), ListenerTopic::Post(id(9))];
    let Subscription { command, mut handle } = center.subscribe(topics.clone()).unwrap();
    let registered = match command {
        NotificationCenterDaemonCommand::AddListener(entry) => entry,
        _ => panic!("a subscription registers a listener"),
    };
    assert_eq!(topics, registered.topics);
    assert!(handle.buffer.is_empty());
    registered.tx.try_send(post(7, 1)).unwrap();
    assert_eq!(Some(vec![post(7, 1)]), receive(&mut handle));
}

#[test]
fn subscriber_channel_holds_sixteen_events() {
    let (center, _commands) = started_center();
    let Subscription { command, handle } = center.subscribe(Vec::new()).unwrap();
    let registered = match command {
        NotificationCenterDaemonCommand::AddListener(entry) => entry,
        _ => panic!("a subscription registers a listener"),
    };
    for n in 0..16 {
        registered.tx.try_send(post(7, n)).unwrap();
    }
    assert!(matches!(registered.tx.try_send(post(7, 16)), Err(TrySendError::Full(_))));
    drop(handle);
    assert!(matches!(registered.tx.try_send(post(7, 17)), Err(TrySendError::Closed(_))));
}

#[test]
fn subscribing_through_the_command_queue() {
    let (center, mut commands) = started_center();
    let mut daemon = NotificationCenterDaemon::new();
    let Subscription { command, handle: mut handle } =
        center.subscribe(vec![ListenerTopic::Post(id(42))]).unwrap();
    wait(center.daemon_tx().unwrap().send(command)).unwrap();
    wait(center.daemon_tx().unwrap().send(bridge_command("comment_notification", "10:42:7").unwrap()))
        .unwrap();
    while let Ok(command) = commands.try_recv() {
        if let Some(delivery) = daemon.dispatch(command) {
            perform(&daemon, delivery);
        }
    }
    assert_eq!(1, daemon.len());
    assert_eq!(Some(vec![comment(7, 42, 10)]), receive(&mut handle));
}

#[test]
fn dead_daemon_is_reported_as_an_error() {
    let (center, commands) = started_center();
    drop(commands);
    let Subscription { command, .. } = center.subscribe(Vec::new()).unwrap();
    let failure = wait(center.daemon_tx().unwrap().send(command)).unwrap_err();
    let error = NotificationCenter::daemon_dead(failure.to_string());
    assert_eq!("The daemon seems to be dead: channel closed", error.to_string());
    let error = NotificationCenter::daemon_failed_to_start("no route to host".to_string());
    assert_eq!("The daemon failed to start: no route to host", error.to_string());
}
