use worker_supervisor::ids::SubscriptionTarget;
use worker_supervisor::notifications::{Delivery, Notification, NotificationRouter};
use worker_supervisor::requests::{
    expect_data, resolve, AbandonedRequest, RequestCorrelator, RequestError, ResponseOutcome,
};

fn note(target: u128, event: u32) -> Notification {
    Notification { target: SubscriptionTarget::Uuid(target), event, payload: vec![event as u8] }
}

fn events(delivery: &Delivery) -> Vec<u32> {
    delivery.notifications.iter().map(|n| n.event).collect()
}

#[test]
fn notifications_reach_subscribers_in_registration_order() {
    let mut router = NotificationRouter::new();
    let first = router.subscribe(SubscriptionTarget::Uuid(1)).unwrap();
    let other = router.subscribe(SubscriptionTarget::Uuid(2)).unwrap();
    let second = router.subscribe(SubscriptionTarget::Uuid(1)).unwrap();
    assert_eq!((first, other, second), (0, 1, 2));
    let delivery = router.notify(note(1, 10));
    assert_eq!(delivery.subscribers, vec![first, second]);
    assert_eq!(delivery.notifications, vec![note(1, 10)]);
    let delivery = router.notify(note(2, 11));
    assert_eq!(delivery.subscribers, vec![other]);
}

#[test]
fn notification_without_subscriber_has_no_receiver() {
    let mut router = NotificationRouter::new();
    let delivery = router.notify(note(5, 1));
    assert_eq!(events(&delivery), vec![1]);
    assert!(delivery.subscribers.is_empty());
}

#[test]
fn unsubscribe_removes_exactly_that_callback() {
    let mut router = NotificationRouter::new();
    let a = router.subscribe(SubscriptionTarget::Uuid(1)).unwrap();
    let b = router.subscribe(SubscriptionTarget::Uuid(1)).unwrap();
    let c = router.subscribe(SubscriptionTarget::Uuid(1)).unwrap();
    assert!(router.unsubscribe(b));
    assert!(!router.unsubscribe(b));
    assert!(!router.unsubscribe(99));
    assert_eq!(router.notify(note(1, 3)).subscribers, vec![a, c]);
    let d = router.subscribe(SubscriptionTarget::Uuid(1)).unwrap();
    assert_eq!(d, 3);
    assert_eq!(router.notify(note(1, 4)).subscribers, vec![a, c, d]);
}

#[test]
fn string_and_uuid_targets_are_distinct() {
    let mut router = NotificationRouter::new();
    let by_text = router.subscribe(SubscriptionTarget::String("1".to_string())).unwrap();
    let by_id = router.subscribe(SubscriptionTarget::Uuid(1)).unwrap();
    let delivery = router.notify(Notification {
        target: SubscriptionTarget::String("1".to_string()),
        event: 0,
        payload: Vec::new(),
    });
    assert_eq!(delivery.subscribers, vec![by_text]);
    assert_eq!(router.notify(note(1, 0)).subscribers, vec![by_id]);
}

#[test]
fn buffered_target_waits_while_other_target_is_served() {
    let x = 0xaau128;
    let y = 0xbbu128;
    let mut router = NotificationRouter::new();
    let on_y = router.subscribe(SubscriptionTarget::Uuid(y)).unwrap();
    let guard = router.buffer_messages_for(SubscriptionTarget::Uuid(x));
    assert!(router.is_buffering(&SubscriptionTarget::Uuid(x)));
    assert!(!router.is_buffering(&SubscriptionTarget::Uuid(y)));

    let held = router.notify(note(x, 1));
    assert!(held.notifications.is_empty());
    assert!(held.subscribers.is_empty());

    let served = router.notify(note(y, 2));
    assert_eq!(events(&served), vec![2]);
    assert_eq!(served.subscribers, vec![on_y]);

    let held = router.notify(note(x, 3));
    assert!(held.notifications.is_empty());

    let on_x = router.subscribe(SubscriptionTarget::Uuid(x)).unwrap();
    let flushed = router.release(guard);
    assert_eq!(flushed.notifications, vec![note(x, 1), note(x, 3)]);
    assert_eq!(flushed.subscribers, vec![on_x]);
    assert!(!router.is_buffering(&SubscriptionTarget::Uuid(x)));

    let direct = router.notify(note(x, 4));
    assert_eq!(events(&direct), vec![4]);
    assert_eq!(direct.subscribers, vec![on_x]);
}

#[test]
fn order_is_kept_across_a_flush() {
    let mut router = NotificationRouter::new();
    let sub = router.subscribe(SubscriptionTarget::Uuid(7)).unwrap();
    let mut seen: Vec<u32> = Vec::new();
    seen.extend(events(&router.notify(note(7, 1))));
    let guard = router.buffer_messages_for(SubscriptionTarget::Uuid(7));
    seen.extend(events(&router.notify(note(7, 2))));
    seen.extend(events(&router.notify(note(8, 100))).into_iter().filter(|e| *e < 100));
    seen.extend(events(&router.notify(note(7, 3))));
    assert_eq!(seen, vec![1]);
    let flushed = router.release(guard);
    assert_eq!(flushed.subscribers, vec![sub]);
    seen.extend(events(&flushed));
    seen.extend(events(&router.notify(note(7, 4))));
    assert_eq!(seen, vec![1, 2, 3, 4]);
}

#[test]
fn two_guards_for_different_targets() {
    let mut router = NotificationRouter::new();
    let first = router.buffer_messages_for(SubscriptionTarget::Uuid(1));
    let second = router.buffer_messages_for(SubscriptionTarget::String("pid".to_string()));
    assert_eq!(first.target(), &SubscriptionTarget::Uuid(1));
    router.notify(note(1, 1));
    router.notify(Notification {
        target: SubscriptionTarget::String("pid".to_string()),
        event: 2,
        payload: Vec::new(),
    });
    assert_eq!(events(&router.release(first)), vec![1]);
    assert!(router.is_buffering(&SubscriptionTarget::String("pid".to_string())));
    assert_eq!(events(&router.release(second)), vec![2]);
    assert!(!router.is_buffering(&SubscriptionTarget::String("pid".to_string())));
}

#[test]
fn released_empty_gate_delivers_nothing() {
    let mut router = NotificationRouter::new();
    let guard = router.buffer_messages_for(SubscriptionTarget::Uuid(1));
    let flushed = router.release(guard);
    assert!(flushed.notifications.is_empty());
}

#[test]
fn target_equality_and_copy() {
    let a = SubscriptionTarget::String("abc".to_string());
    assert!(a.same_as(&a.duplicate()));
    assert!(!a.same_as(&SubscriptionTarget::String("abd".to_string())));
    assert!(!a.same_as(&SubscriptionTarget::Uuid(0)));
    assert!(SubscriptionTarget::Uuid(3).same_as(&SubscriptionTarget::Uuid(3)));
    assert!(!SubscriptionTarget::Uuid(3).same_as(&SubscriptionTarget::Uuid(4)));
}

#[test]
fn correlation_ids_do_not_collide() {
    let mut requests = RequestCorrelator::new();
    let a = requests.begin().unwrap();
    let b = requests.begin().unwrap();
    let c = requests.begin().unwrap();
    assert_eq!((a, b, c), (0, 1, 2));
    assert!(requests.is_pending(a) && requests.is_pending(b) && requests.is_pending(c));
    assert!(!requests.is_pending(3));
}

#[test]
fn retired_id_is_not_handed_out_next() {
    let mut requests = RequestCorrelator::new();
    let a = requests.begin().unwrap();
    let b = requests.begin().unwrap();
    assert_eq!(requests.complete(a, ResponseOutcome::Accepted(None)), Some(Ok(None)));
    let c = requests.begin().unwrap();
    assert_eq!((a, b, c), (0, 1, 2));
    assert!(!requests.is_pending(a));
    assert!(requests.is_pending(b) && requests.is_pending(c));
}

#[test]
fn response_is_accepted_once() {
    let mut requests = RequestCorrelator::new();
    let id = requests.begin().unwrap();
    let first = requests.complete(id, ResponseOutcome::Accepted(Some(vec![1, 2, 3])));
    assert_eq!(first, Some(Ok(Some(vec![1, 2, 3]))));
    assert!(!requests.is_pending(id));
    let second = requests.complete(id, ResponseOutcome::Accepted(None));
    assert_eq!(second, None);
    assert_eq!(requests.complete(77, ResponseOutcome::Accepted(None)), None);
}

#[test]
fn rejected_response_carries_the_reason() {
    let mut requests = RequestCorrelator::new();
    let id = requests.begin().unwrap();
    let result = requests.complete(id, ResponseOutcome::Rejected("no such router".to_string()));
    assert_eq!(result, Some(Err(RequestError::Response { reason: "no such router".to_string() })));
}

#[test]
fn deadline_retires_the_request() {
    let mut requests = RequestCorrelator::new();
    let a = requests.begin().unwrap();
    let b = requests.begin().unwrap();
    assert_eq!(requests.time_out(a), Some(RequestError::TimedOut));
    assert_eq!(requests.time_out(a), None);
    assert_eq!(requests.complete(a, ResponseOutcome::Accepted(None)), None);
    assert!(requests.is_pending(b));
}

#[test]
fn transport_close_fails_requests_in_flight_and_later_ones() {
    let mut requests = RequestCorrelator::new();
    let a = requests.begin().unwrap();
    let b = requests.begin().unwrap();
    assert!(!requests.is_closed());
    let abandoned = requests.close();
    assert_eq!(
        abandoned,
        vec![
            AbandonedRequest { id: a, failure: RequestError::ChannelClosed },
            AbandonedRequest { id: b, failure: RequestError::ChannelClosed },
        ]
    );
    assert!(requests.is_closed());
    assert!(!requests.is_pending(a));
    assert_eq!(requests.begin(), Err(RequestError::ChannelClosed));
    assert!(!requests.is_pending(2));
    assert_eq!(requests.complete(a, ResponseOutcome::Accepted(None)), None);
    assert_eq!(requests.close(), Vec::<AbandonedRequest>::new());
}

#[test]
fn close_abandons_only_what_is_still_in_flight() {
    let mut requests = RequestCorrelator::new();
    let a = requests.begin().unwrap();
    let b = requests.begin().unwrap();
    let c = requests.begin().unwrap();
    assert_eq!(requests.complete(b, ResponseOutcome::Accepted(None)), Some(Ok(None)));
    let abandoned = requests.close();
    let ids: Vec<u64> = abandoned.iter().map(|request| request.id).collect();
    assert_eq!(ids, vec![a, c]);
    assert!(abandoned.iter().all(|request| request.failure == RequestError::ChannelClosed));
}

#[test]
fn resolve_and_expect_data() {
    assert_eq!(resolve(ResponseOutcome::Accepted(None)), Ok(None));
    assert_eq!(resolve(ResponseOutcome::Accepted(Some(vec![9]))), Ok(Some(vec![9])));
    assert_eq!(
        resolve(ResponseOutcome::Rejected("bad".to_string())),
        Err(RequestError::Response { reason: "bad".to_string() })
    );
    assert_eq!(expect_data(Some(vec![1])), Ok(vec![1]));
    assert_eq!(expect_data(Some(Vec::new())), Ok(Vec::new()));
    assert_eq!(expect_data(None), Err(RequestError::NoData));
}

#[test]
fn request_error_messages() {
    assert_eq!(RequestError::ChannelClosed.message(), "Channel already closed");
    assert_eq!(RequestError::TimedOut.message(), "Request timed out");
    assert_eq!(
        RequestError::Response { reason: "x".to_string() }.message(),
        "Received response error: x"
    );
    assert_eq!(
        RequestError::FailedToParse { error: "eof".to_string() }.message(),
        "Failed to parse response from worker: eof"
    );
    assert_eq!(RequestError::NoData.message(), "Worker did not return any data in response");
    assert_eq!(
        RequestError::ResponseConversion("odd".to_string()).message(),
        "Response conversion error: odd"
    );
}
