//! What the notification router and its buffering gates do, as a
//! mathematical state machine, and the law of ordered delivery.

use crate::ids::TargetKey;
use vstd::prelude::*;

verus! {

/// A notification from the engine, as a mathematical value.
pub struct NotificationView {
    /// The recipient it is addressed to.
    pub target: TargetKey,
    /// The tag of the event it reports.
    pub event: u32,
    /// Its payload, which this layer does not read.
    pub payload: Seq<u8>,
}

/// One registered callback, as a mathematical value.
pub struct SubscriptionView {
    /// The handle by which the callback is removed again.
    pub id: u64,
    /// The recipient whose notifications it receives.
    pub target: TargetKey,
}

/// One notification handed to the callbacks that receive it.
pub struct DispatchView {
    /// The notification.
    pub notification: NotificationView,
    /// The callbacks to call, in the order in which they were registered.
    pub subscribers: Seq<u64>,
}

/// What can happen to a router.
pub enum RouterEvent {
    /// A callback is registered for a recipient.
    Subscribe(TargetKey),
    /// The callback with this handle is removed.
    Unsubscribe(u64),
    /// A buffering guard is taken for a recipient.
    Hold(TargetKey),
    /// The buffering guard of a recipient is released.
    Release(TargetKey),
    /// The engine emits a notification.
    Notify(NotificationView),
}

/// The state of a router.
pub struct RouterState {
    /// The registered callbacks, oldest first.
    pub subscriptions: Seq<SubscriptionView>,
    /// The recipients that are being buffered, each with the notifications
    /// that wait for it, oldest first.
    pub gates: Map<TargetKey, Seq<NotificationView>>,
    /// The handle that the next registered callback gets.
    pub next_id: u64,
}

/// The handles of the callbacks registered for `target`, oldest first.
pub open spec fn subscribers_of(subscriptions: Seq<SubscriptionView>, target: TargetKey) -> Seq<
    u64,
>
    decreases subscriptions.len(),
{
    if subscriptions.len() == 0 {
        Seq::empty()
    } else {
        let earlier = subscribers_of(subscriptions.drop_last(), target);
        if subscriptions.last().target == target {
            earlier.push(subscriptions.last().id)
        } else {
            earlier
        }
    }
}

/// The subscriptions that remain when the one with handle `id` is removed.
pub open spec fn without_id(subscriptions: Seq<SubscriptionView>, id: u64) -> Seq<
    SubscriptionView,
>
    decreases subscriptions.len(),
{
    if subscriptions.len() == 0 {
        Seq::empty()
    } else {
        let earlier = without_id(subscriptions.drop_last(), id);
        if subscriptions.last().id == id {
            earlier
        } else {
            earlier.push(subscriptions.last())
        }
    }
}

/// A notification together with the callbacks that receive it.
pub open spec fn dispatch_of(
    subscriptions: Seq<SubscriptionView>,
    notification: NotificationView,
) -> DispatchView {
    DispatchView {
        notification,
        subscribers: subscribers_of(subscriptions, notification.target),
    }
}

/// The dispatches that empty a queue, in the order in which it was filled.
pub open spec fn flush_of(
    subscriptions: Seq<SubscriptionView>,
    queue: Seq<NotificationView>,
) -> Seq<DispatchView> {
    queue.map_values(|n: NotificationView| dispatch_of(subscriptions, n))
}

/// The notifications of a sequence that are addressed to `target`, in order.
pub open spec fn for_target(notifications: Seq<NotificationView>, target: TargetKey) -> Seq<
    NotificationView,
>
    decreases notifications.len(),
{
    if notifications.len() == 0 {
        Seq::empty()
    } else {
        let earlier = for_target(notifications.drop_last(), target);
        if notifications.last().target == target {
            earlier.push(notifications.last())
        } else {
            earlier
        }
    }
}

/// The notifications that a sequence of dispatches hands out, in order.
pub open spec fn notifications_of(dispatches: Seq<DispatchView>) -> Seq<NotificationView> {
    dispatches.map_values(|d: DispatchView| d.notification)
}

/// The notifications that the engine emits in a sequence of events, in order.
pub open spec fn emitted(events: Seq<RouterEvent>) -> Seq<NotificationView>
    decreases events.len(),
{
    if events.len() == 0 {
        Seq::empty()
    } else {
        let earlier = emitted(events.drop_last());
        match events.last() {
            RouterEvent::Notify(notification) => earlier.push(notification),
            _ => earlier,
        }
    }
}

impl RouterState {
    /// A router with no callback and no gate.
    pub open spec fn initial() -> RouterState {
        RouterState { subscriptions: Seq::empty(), gates: Map::empty(), next_id: 0 }
    }

    /// Every waiting notification waits in the queue of its own recipient.
    pub open spec fn wf(self) -> bool {
        forall|target: TargetKey, i: int|
            self.gates.dom().contains(target) && 0 <= i < self.gates[target].len() ==> (
            #[trigger] self.gates[target][i]).target == target
    }

    /// Whether notifications for `target` are being buffered.
    pub open spec fn is_buffering(self, target: TargetKey) -> bool {
        self.gates.dom().contains(target)
    }

    /// The notifications that wait for `target`, oldest first.
    pub open spec fn queued(self, target: TargetKey) -> Seq<NotificationView> {
        if self.gates.dom().contains(target) {
            self.gates[target]
        } else {
            Seq::empty()
        }
    }

    /// The state after one event, and the dispatches that the event causes.
    ///
    /// A notification for a buffered recipient joins the end of its queue; any
    /// other is dispatched at once. Releasing a guard dispatches the queue in
    /// the order of arrival and ends the buffering. Taking a guard that is
    /// already held, or releasing one that is not, changes nothing.
    pub open spec fn step(self, event: RouterEvent) -> (RouterState, Seq<DispatchView>) {
        match event {
            RouterEvent::Subscribe(target) => {
                if self.next_id < u64::MAX {
                    (
                        RouterState {
                            subscriptions: self.subscriptions.push(
                                SubscriptionView { id: self.next_id, target },
                            ),
                            next_id: (self.next_id + 1) as u64,
                            ..self
                        },
                        Seq::empty(),
                    )
                } else {
                    (self, Seq::empty())
                }
            },
            RouterEvent::Unsubscribe(id) => (
                RouterState { subscriptions: without_id(self.subscriptions, id), ..self },
                Seq::empty(),
            ),
            RouterEvent::Hold(target) => {
                if self.gates.dom().contains(target) {
                    (self, Seq::empty())
                } else {
                    (
                        RouterState { gates: self.gates.insert(target, Seq::empty()), ..self },
                        Seq::empty(),
                    )
                }
            },
            RouterEvent::Release(target) => {
                if self.gates.dom().contains(target) {
                    (
                        RouterState { gates: self.gates.remove(target), ..self },
                        flush_of(self.subscriptions, self.gates[target]),
                    )
                } else {
                    (self, Seq::empty())
                }
            },
            RouterEvent::Notify(notification) => {
                if self.gates.dom().contains(notification.target) {
                    (
                        RouterState {
                            gates: self.gates.insert(
                                notification.target,
                                self.gates[notification.target].push(notification),
                            ),
                            ..self
                        },
                        Seq::empty(),
                    )
                } else {
                    (self, seq![dispatch_of(self.subscriptions, notification)])
                }
            },
        }
    }

    /// The state after a sequence of events, and all the dispatches that they
    /// cause, in order.
    pub open spec fn run(self, events: Seq<RouterEvent>) -> (RouterState, Seq<DispatchView>)
        decreases events.len(),
    {
        if events.len() == 0 {
            (self, Seq::empty())
        } else {
            let (before, earlier) = self.run(events.drop_last());
            let (after, latest) = before.step(events.last());
            (after, earlier + latest)
        }
    }
}

/// Removing a handle that no subscription has changes nothing.
pub proof fn lemma_without_id_absent(subscriptions: Seq<SubscriptionView>, id: u64)
    requires
        forall|i: int| 0 <= i < subscriptions.len() ==> (#[trigger] subscriptions[i]).id != id,
    ensures
        without_id(subscriptions, id) == subscriptions,
    decreases subscriptions.len(),
{
    if subscriptions.len() == 0 {
        assert(without_id(subscriptions, id) =~= subscriptions);
    } else {
        let earlier = subscriptions.drop_last();
        assert forall|i: int| 0 <= i < earlier.len() implies (#[trigger] earlier[i]).id != id by {
            assert(earlier[i] == subscriptions[i]);
        }
        lemma_without_id_absent(earlier, id);
        assert(subscriptions.last() == subscriptions[subscriptions.len() - 1]);
        assert(earlier.push(subscriptions.last()) =~= subscriptions);
    }
}

/// Where no two subscriptions share a handle, removing a handle removes the
/// one subscription that has it and keeps the others in their order.
pub proof fn lemma_without_id_present(subscriptions: Seq<SubscriptionView>, at: int)
    requires
        0 <= at < subscriptions.len(),
        forall|i: int, j: int|
            0 <= i < subscriptions.len() && 0 <= j < subscriptions.len() && i != j ==> (
            #[trigger] subscriptions[i]).id != (#[trigger] subscriptions[j]).id,
    ensures
        without_id(subscriptions, subscriptions[at].id) == subscriptions.remove(at),
    decreases subscriptions.len(),
{
    let id = subscriptions[at].id;
    let earlier = subscriptions.drop_last();
    let last = subscriptions.len() - 1;
    assert(subscriptions.last() == subscriptions[last]);
    if at == last {
        assert forall|i: int| 0 <= i < earlier.len() implies (#[trigger] earlier[i]).id != id by {
            assert(earlier[i] == subscriptions[i]);
        }
        lemma_without_id_absent(earlier, id);
        assert(subscriptions.remove(at) =~= earlier);
    } else {
        assert forall|i: int, j: int|
            0 <= i < earlier.len() && 0 <= j < earlier.len() && i != j implies (
            #[trigger] earlier[i]).id != (#[trigger] earlier[j]).id by {
            assert(earlier[i] == subscriptions[i]);
            assert(earlier[j] == subscriptions[j]);
        }
        assert(earlier[at] == subscriptions[at]);
        lemma_without_id_present(earlier, at);
        assert(subscriptions[last].id != subscriptions[at].id);
        assert(earlier.remove(at).push(subscriptions.last()) =~= subscriptions.remove(at));
    }
}

/// Selecting the notifications of one recipient goes through concatenation.
pub proof fn lemma_for_target_concat(
    first: Seq<NotificationView>,
    second: Seq<NotificationView>,
    target: TargetKey,
)
    ensures
        for_target(first + second, target) == for_target(first, target) + for_target(
            second,
            target,
        ),
    decreases second.len(),
{
    if second.len() == 0 {
        assert(first + second =~= first);
        assert(for_target(first, target) + for_target(second, target) =~= for_target(
            first,
            target,
        ));
    } else {
        lemma_for_target_concat(first, second.drop_last(), target);
        assert((first + second).drop_last() =~= first + second.drop_last());
        assert((first + second).last() == second.last());
        if second.last().target == target {
            assert(for_target(first, target) + for_target(second.drop_last(), target).push(
                second.last(),
            ) =~= (for_target(first, target) + for_target(second.drop_last(), target)).push(
                second.last(),
            ));
        }
    }
}

/// A sequence of notifications that are all addressed to `target` is its own
/// selection for `target`.
pub proof fn lemma_for_target_all(notifications: Seq<NotificationView>, target: TargetKey)
    requires
        forall|i: int| 0 <= i < notifications.len() ==> (#[trigger] notifications[i]).target
            == target,
    ensures
        for_target(notifications, target) == notifications,
    decreases notifications.len(),
{
    if notifications.len() == 0 {
        assert(for_target(notifications, target) =~= notifications);
    } else {
        let earlier = notifications.drop_last();
        assert forall|i: int| 0 <= i < earlier.len() implies (#[trigger] earlier[i]).target
            == target by {
            assert(earlier[i] == notifications[i]);
        }
        lemma_for_target_all(earlier, target);
        assert(notifications.last() == notifications[notifications.len() - 1]);
        assert(earlier.push(notifications.last()) =~= notifications);
    }
}

/// A sequence of notifications of which none is addressed to `target` has an
/// empty selection for `target`.
pub proof fn lemma_for_target_none(notifications: Seq<NotificationView>, target: TargetKey)
    requires
        forall|i: int| 0 <= i < notifications.len() ==> (#[trigger] notifications[i]).target
            != target,
    ensures
        for_target(notifications, target) == Seq::<NotificationView>::empty(),
    decreases notifications.len(),
{
    if notifications.len() > 0 {
        let earlier = notifications.drop_last();
        assert forall|i: int| 0 <= i < earlier.len() implies (#[trigger] earlier[i]).target
            != target by {
            assert(earlier[i] == notifications[i]);
        }
        lemma_for_target_none(earlier, target);
        assert(notifications.last() == notifications[notifications.len() - 1]);
    }
}

/// The selection from a single notification.
pub proof fn lemma_for_target_single(notification: NotificationView, target: TargetKey)
    ensures
        for_target(seq![notification], target) == if notification.target == target {
            seq![notification]
        } else {
            Seq::<NotificationView>::empty()
        },
{
    let single = seq![notification];
    assert(single.drop_last() =~= Seq::<NotificationView>::empty());
    assert(for_target(single.drop_last(), target) =~= Seq::<NotificationView>::empty());
    assert(single.last() == notification);
    if notification.target == target {
        assert(for_target(single, target) =~= seq![notification]);
    }
}

/// Emptying a queue hands out exactly the notifications of the queue.
pub proof fn lemma_flush_notifications(
    subscriptions: Seq<SubscriptionView>,
    queue: Seq<NotificationView>,
)
    ensures
        notifications_of(flush_of(subscriptions, queue)) == queue,
{
    assert(notifications_of(flush_of(subscriptions, queue)) =~= queue);
}

/// One event keeps every waiting notification in the queue of its recipient.
pub proof fn lemma_step_keeps_wf(state: RouterState, event: RouterEvent)
    requires
        state.wf(),
    ensures
        state.step(event).0.wf(),
{
    let after = state.step(event).0;
    assert forall|target: TargetKey, i: int|
        after.gates.dom().contains(target) && 0 <= i < after.gates[target].len() implies (
        #[trigger] after.gates[target][i]).target == target by {
        match event {
            RouterEvent::Notify(notification) => {
                if state.gates.dom().contains(notification.target) && target
                    == notification.target {
                    if i < state.gates[target].len() {
                        assert(after.gates[target][i] == state.gates[target][i]);
                    }
                } else {
                    assert(after.gates[target][i] == state.gates[target][i]);
                }
            },
            RouterEvent::Hold(held) => {
                if !state.gates.dom().contains(held) && target == held {
                } else {
                    assert(after.gates[target][i] == state.gates[target][i]);
                }
            },
            _ => {
                assert(after.gates[target][i] == state.gates[target][i]);
            },
        }
    }
}

/// A run of events keeps every waiting notification in the queue of its
/// recipient.
pub proof fn lemma_run_keeps_wf(state: RouterState, events: Seq<RouterEvent>)
    requires
        state.wf(),
    ensures
        state.run(events).0.wf(),
    decreases events.len(),
{
    if events.len() > 0 {
        lemma_run_keeps_wf(state, events.drop_last());
        lemma_step_keeps_wf(state.run(events.drop_last()).0, events.last());
    }
}

/// Over one event, what was handed out for `target` followed by what still
/// waits for it is what waited before followed by what the event emitted for
/// it.
pub proof fn lemma_step_ordered(state: RouterState, event: RouterEvent, target: TargetKey)
    requires
        state.wf(),
    ensures
        for_target(notifications_of(state.step(event).1), target) + state.step(event).0.queued(
            target,
        ) == state.queued(target) + for_target(emitted(seq![event]), target),
{
    let (after, dispatches) = state.step(event);
    let handed = for_target(notifications_of(dispatches), target);
    let fresh = for_target(emitted(seq![event]), target);
    assert(seq![event].drop_last() =~= Seq::<RouterEvent>::empty());
    assert(emitted(seq![event].drop_last()) =~= Seq::<NotificationView>::empty());
    match event {
        RouterEvent::Notify(notification) => {
            assert(emitted(seq![event]) =~= seq![notification]);
            lemma_for_target_single(notification, target);
            if state.gates.dom().contains(notification.target) {
                assert(notifications_of(dispatches) =~= Seq::<NotificationView>::empty());
                if notification.target == target {
                    assert(fresh =~= seq![notification]);
                    assert(handed + after.queued(target) =~= state.queued(target) + fresh);
                } else {
                    assert(fresh =~= Seq::<NotificationView>::empty());
                    assert(handed + after.queued(target) =~= state.queued(target) + fresh);
                }
            } else {
                assert(notifications_of(dispatches) =~= seq![notification]);
                assert(after == state);
                assert(handed == fresh);
                if notification.target == target {
                    assert(state.queued(target) =~= Seq::<NotificationView>::empty());
                    assert(handed + after.queued(target) =~= state.queued(target) + fresh);
                } else {
                    assert(fresh =~= Seq::<NotificationView>::empty());
                    assert(handed + after.queued(target) =~= state.queued(target) + fresh);
                }
            }
        },
        RouterEvent::Release(released) => {
            assert(emitted(seq![event]) =~= Seq::<NotificationView>::empty());
            assert(fresh =~= Seq::<NotificationView>::empty());
            if state.gates.dom().contains(released) {
                let queue = state.gates[released];
                lemma_flush_notifications(state.subscriptions, queue);
                if released == target {
                    lemma_for_target_all(queue, target);
                    assert(after.queued(target) =~= Seq::<NotificationView>::empty());
                    assert(handed + after.queued(target) =~= state.queued(target) + fresh);
                } else {
                    lemma_for_target_none(queue, target);
                    assert(after.queued(target) == state.queued(target));
                    assert(handed + after.queued(target) =~= state.queued(target) + fresh);
                }
            } else {
                assert(notifications_of(dispatches) =~= Seq::<NotificationView>::empty());
                assert(handed + after.queued(target) =~= state.queued(target) + fresh);
            }
        },
        RouterEvent::Hold(held) => {
            assert(emitted(seq![event]) =~= Seq::<NotificationView>::empty());
            assert(notifications_of(dispatches) =~= Seq::<NotificationView>::empty());
            assert(after.queued(target) =~= state.queued(target));
            assert(handed + after.queued(target) =~= state.queued(target) + fresh);
        },
        RouterEvent::Subscribe(_) => {
            assert(emitted(seq![event]) =~= Seq::<NotificationView>::empty());
            assert(notifications_of(dispatches) =~= Seq::<NotificationView>::empty());
            assert(handed + after.queued(target) =~= state.queued(target) + fresh);
        },
        RouterEvent::Unsubscribe(_) => {
            assert(emitted(seq![event]) =~= Seq::<NotificationView>::empty());
            assert(notifications_of(dispatches) =~= Seq::<NotificationView>::empty());
            assert(handed + after.queued(target) =~= state.queued(target) + fresh);
        },
    }
}

/// Ordered delivery. Over any run of events and for every recipient, the
/// notifications handed out for it, followed by those that still wait at its
/// gate, are the notifications that waited at the start followed by those
/// that the engine emitted for it, in the order of emission: none is lost,
/// none comes twice, and none overtakes another, whether or not it waited
/// behind a buffering guard.
pub proof fn lemma_ordered_delivery(
    state: RouterState,
    events: Seq<RouterEvent>,
    target: TargetKey,
)
    requires
        state.wf(),
    ensures
        for_target(notifications_of(state.run(events).1), target) + state.run(events).0.queued(
            target,
        ) == state.queued(target) + for_target(emitted(events), target),
    decreases events.len(),
{
    if events.len() == 0 {
        assert(notifications_of(state.run(events).1) =~= Seq::<NotificationView>::empty());
        assert(for_target(notifications_of(state.run(events).1), target) + state.queued(target)
            =~= state.queued(target) + for_target(emitted(events), target));
    } else {
        let earlier_events = events.drop_last();
        let (before, earlier) = state.run(earlier_events);
        let (after, latest) = before.step(events.last());
        lemma_ordered_delivery(state, earlier_events, target);
        lemma_run_keeps_wf(state, earlier_events);
        lemma_step_ordered(before, events.last(), target);
        assert(notifications_of(earlier + latest) =~= notifications_of(earlier)
            + notifications_of(latest));
        lemma_for_target_concat(notifications_of(earlier), notifications_of(latest), target);
        // what the last event emitted, taken alone and as the end of the run
        let single = seq![events.last()];
        assert(single.drop_last() =~= Seq::<RouterEvent>::empty());
        assert(emitted(single.drop_last()) =~= Seq::<NotificationView>::empty());
        assert(emitted(events) =~= emitted(earlier_events) + emitted(single)) by {
            match events.last() {
                RouterEvent::Notify(notification) => {
                    assert(emitted(single) =~= seq![notification]);
                },
                _ => {
                    assert(emitted(single) =~= Seq::<NotificationView>::empty());
                },
            }
        }
        lemma_for_target_concat(emitted(earlier_events), emitted(single), target);
        let handed_before = for_target(notifications_of(earlier), target);
        let handed_now = for_target(notifications_of(latest), target);
        assert((handed_before + handed_now) + after.queued(target) =~= handed_before + (
        handed_now + after.queued(target)));
        assert(handed_before + (before.queued(target) + for_target(emitted(single), target))
            =~= (handed_before + before.queued(target)) + for_target(emitted(single), target));
        assert((state.queued(target) + for_target(emitted(earlier_events), target))
            + for_target(emitted(single), target) =~= state.queued(target) + (for_target(
            emitted(earlier_events),
            target,
        ) + for_target(emitted(single), target)));
    }
}

/// With no guard held for a recipient at the start and at the end of a run,
/// the notifications handed out for it are exactly those that the engine
/// emitted for it, in the order of emission.
pub proof fn lemma_delivery_without_guard(
    state: RouterState,
    events: Seq<RouterEvent>,
    target: TargetKey,
)
    requires
        state.wf(),
        !state.is_buffering(target),
        !state.run(events).0.is_buffering(target),
    ensures
        for_target(notifications_of(state.run(events).1), target) == for_target(
            emitted(events),
            target,
        ),
{
    lemma_ordered_delivery(state, events, target);
    let handed = for_target(notifications_of(state.run(events).1), target);
    let sent = for_target(emitted(events), target);
    assert(handed + Seq::<NotificationView>::empty() =~= handed);
    assert(Seq::<NotificationView>::empty() + sent =~= sent);
}

} // verus!
