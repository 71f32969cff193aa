//! The notification router with its buffering gates.

use crate::ids::{SubscriptionTarget, TargetKey};
use crate::routing::{
    lemma_without_id_absent, lemma_without_id_present, subscribers_of, DispatchView,
    NotificationView, RouterEvent, RouterState, SubscriptionView,
};
use vstd::prelude::*;

verus! {

/// A notification from the engine.
#[derive(Debug, PartialEq, Eq)]
pub struct Notification {
    /// The recipient it is addressed to.
    pub target: SubscriptionTarget,
    /// The tag of the event it reports.
    pub event: u32,
    /// Its payload, which this layer does not read.
    pub payload: Vec<u8>,
}

impl View for Notification {
    type V = NotificationView;

    open spec fn view(&self) -> NotificationView {
        NotificationView { target: self.target@, event: self.event, payload: self.payload@ }
    }
}

/// Notifications to hand to callbacks: each notification goes to every
/// listed callback, notification by notification, the callbacks in the listed
/// order.
#[derive(Debug, PartialEq, Eq)]
pub struct Delivery {
    /// The notifications, in the order in which the engine emitted them.
    pub notifications: Vec<Notification>,
    /// The handles of the callbacks, in the order of their registration.
    pub subscribers: Vec<u64>,
}

impl View for Delivery {
    type V = Seq<DispatchView>;

    open spec fn view(&self) -> Seq<DispatchView> {
        self.notifications@.map_values(
            |n: Notification| DispatchView { notification: n@, subscribers: self.subscribers@ },
        )
    }
}

/// The token of a held buffering gate. As long as it is not handed back,
/// notifications for its recipient wait.
#[derive(Debug)]
pub struct BufferMessagesGuard {
    target: SubscriptionTarget,
}

impl BufferMessagesGuard {
    /// The recipient whose notifications wait.
    pub closed spec fn key(&self) -> TargetKey {
        self.target@
    }

    /// The recipient whose notifications wait.
    pub fn target(&self) -> (target: &SubscriptionTarget)
        ensures
            target@ == self.key(),
    {
        &self.target
    }
}

struct Subscription {
    id: u64,
    target: SubscriptionTarget,
}

struct Gate {
    target: SubscriptionTarget,
    queue: Vec<Notification>,
}

spec fn subscription_views(subscriptions: Seq<Subscription>) -> Seq<SubscriptionView> {
    subscriptions.map_values(|s: Subscription| SubscriptionView { id: s.id, target: s.target@ })
}

spec fn queue_views(queue: Seq<Notification>) -> Seq<NotificationView> {
    queue.map_values(|n: Notification| n@)
}

spec fn has_gate(gates: Seq<Gate>, target: TargetKey) -> bool {
    exists|i: int| 0 <= i < gates.len() && (#[trigger] gates[i]).target@ == target
}

spec fn gate_index(gates: Seq<Gate>, target: TargetKey) -> int {
    choose|i: int| 0 <= i < gates.len() && (#[trigger] gates[i]).target@ == target
}

spec fn gates_view(gates: Seq<Gate>) -> Map<TargetKey, Seq<NotificationView>> {
    Map::new(
        |target: TargetKey| has_gate(gates, target),
        |target: TargetKey| queue_views(gates[gate_index(gates, target)].queue@),
    )
}

spec fn gates_wf(gates: Seq<Gate>) -> bool {
    &&& forall|i: int, j: int|
        0 <= i < gates.len() && 0 <= j < gates.len() && i != j ==> (#[trigger] gates[i]).target@
            != (#[trigger] gates[j]).target@
    &&& forall|i: int, k: int|
        0 <= i < gates.len() && 0 <= k < gates[i].queue@.len() ==> (
        #[trigger] gates[i].queue@[k]).target@ == gates[i].target@
}

spec fn subscriptions_wf(subscriptions: Seq<Subscription>, next_id: u64) -> bool {
    &&& forall|i: int|
        0 <= i < subscriptions.len() ==> (#[trigger] subscriptions[i]).id < next_id
    &&& forall|i: int, j: int|
        0 <= i < subscriptions.len() && 0 <= j < subscriptions.len() && i != j ==> (
        #[trigger] subscriptions[i]).id != (#[trigger] subscriptions[j]).id
}

proof fn lemma_gate_at(gates: Seq<Gate>, at: int)
    requires
        gates_wf(gates),
        0 <= at < gates.len(),
    ensures
        has_gate(gates, gates[at].target@),
        gate_index(gates, gates[at].target@) == at,
        gates_view(gates).dom().contains(gates[at].target@),
        gates_view(gates)[gates[at].target@] == queue_views(gates[at].queue@),
{
    let target = gates[at].target@;
    assert(has_gate(gates, target));
    let found = gate_index(gates, target);
    assert(gates[found].target@ == target);
}

proof fn lemma_gate_added(gates: Seq<Gate>, gate: Gate)
    requires
        gates_wf(gates),
        !has_gate(gates, gate.target@),
        gate.queue@.len() == 0,
    ensures
        gates_wf(gates.push(gate)),
        gates_view(gates.push(gate)) == gates_view(gates).insert(gate.target@, Seq::empty()),
{
    let after = gates.push(gate);
    assert forall|i: int, j: int|
        0 <= i < after.len() && 0 <= j < after.len() && i != j implies (
        #[trigger] after[i]).target@ != (#[trigger] after[j]).target@ by {
        if i < gates.len() {
            assert(after[i] == gates[i]);
        }
        if j < gates.len() {
            assert(after[j] == gates[j]);
        }
    }
    assert(gates_wf(after));
    let expected = gates_view(gates).insert(gate.target@, Seq::empty());
    assert forall|target: TargetKey| gates_view(after).dom().contains(target)
        == expected.dom().contains(target) by {
        if has_gate(after, target) {
            let i = gate_index(after, target);
            if i < gates.len() {
                assert(gates[i] == after[i]);
            }
        }
        if has_gate(gates, target) {
            let i = gate_index(gates, target);
            assert(after[i] == gates[i]);
        }
        if target == gate.target@ {
            assert(after[gates.len() as int] == gate);
        }
    }
    assert forall|target: TargetKey| gates_view(after).dom().contains(target) implies (
    #[trigger] gates_view(after)[target]) == expected[target] by {
        let i = gate_index(after, target);
        lemma_gate_at(after, i);
        if i < gates.len() {
            assert(after[i] == gates[i]);
            lemma_gate_at(gates, i);
        } else {
            assert(after[i] == gate);
            assert(queue_views(gate.queue@) =~= Seq::empty());
        }
    }
    assert(gates_view(after) =~= expected);
}

proof fn lemma_gate_removed(gates: Seq<Gate>, at: int)
    requires
        gates_wf(gates),
        0 <= at < gates.len(),
    ensures
        gates_wf(gates.remove(at)),
        gates_view(gates.remove(at)) == gates_view(gates).remove(gates[at].target@),
{
    let after = gates.remove(at);
    let gone = gates[at].target@;
    assert forall|i: int| 0 <= i < after.len() implies #[trigger] after[i] == gates[if i < at {
        i
    } else {
        i + 1
    }] by {}
    assert(gates_wf(after)) by {
        assert forall|i: int, j: int|
            0 <= i < after.len() && 0 <= j < after.len() && i != j implies (
            #[trigger] after[i]).target@ != (#[trigger] after[j]).target@ by {
            let oi = if i < at { i } else { i + 1 };
            let oj = if j < at { j } else { j + 1 };
            assert(after[i] == gates[oi]);
            assert(after[j] == gates[oj]);
        }
        assert forall|i: int, k: int|
            0 <= i < after.len() && 0 <= k < after[i].queue@.len() implies (
            #[trigger] after[i].queue@[k]).target@ == after[i].target@ by {
            let oi = if i < at { i } else { i + 1 };
            assert(after[i] == gates[oi]);
        }
    }
    let expected = gates_view(gates).remove(gone);
    assert forall|target: TargetKey| gates_view(after).dom().contains(target)
        == expected.dom().contains(target) by {
        if has_gate(after, target) {
            let i = gate_index(after, target);
            let oi = if i < at { i } else { i + 1 };
            assert(after[i] == gates[oi]);
            lemma_gate_at(gates, oi);
        }
        if has_gate(gates, target) && target != gone {
            let oi = gate_index(gates, target);
            let i = if oi < at { oi } else { oi - 1 };
            assert(after[i] == gates[oi]);
        }
    }
    assert forall|target: TargetKey| gates_view(after).dom().contains(target) implies (
    #[trigger] gates_view(after)[target]) == expected[target] by {
        let i = gate_index(after, target);
        let oi = if i < at { i } else { i + 1 };
        assert(after[i] == gates[oi]);
        lemma_gate_at(after, i);
        lemma_gate_at(gates, oi);
    }
    assert(gates_view(after) =~= expected);
}

proof fn lemma_gate_grown(gates: Seq<Gate>, after: Seq<Gate>, at: int, notification: Notification)
    requires
        gates_wf(gates),
        0 <= at < gates.len(),
        after.len() == gates.len(),
        forall|i: int| 0 <= i < gates.len() && i != at ==> after[i] == gates[i],
        after[at].target@ == gates[at].target@,
        after[at].queue@ == gates[at].queue@.push(notification),
        notification.target@ == gates[at].target@,
    ensures
        gates_wf(after),
        gates_view(after) == gates_view(gates).insert(
            notification.target@,
            gates_view(gates)[notification.target@].push(notification@),
        ),
{
    let target = notification.target@;
    assert(gates_wf(after)) by {
        assert forall|i: int, j: int|
            0 <= i < after.len() && 0 <= j < after.len() && i != j implies (
            #[trigger] after[i]).target@ != (#[trigger] after[j]).target@ by {
            assert(after[i].target@ == gates[i].target@);
            assert(after[j].target@ == gates[j].target@);
        }
        assert forall|i: int, k: int|
            0 <= i < after.len() && 0 <= k < after[i].queue@.len() implies (
            #[trigger] after[i].queue@[k]).target@ == after[i].target@ by {
            if i == at {
                if k < gates[at].queue@.len() {
                    assert(after[i].queue@[k] == gates[i].queue@[k]);
                }
            } else {
                assert(after[i] == gates[i]);
            }
        }
    }
    lemma_gate_at(gates, at);
    lemma_gate_at(after, at);
    let expected = gates_view(gates).insert(target, gates_view(gates)[target].push(notification@));
    assert forall|key: TargetKey| gates_view(after).dom().contains(key)
        == expected.dom().contains(key) by {
        if has_gate(after, key) {
            let i = gate_index(after, key);
            assert(after[i].target@ == gates[i].target@);
        }
        if has_gate(gates, key) {
            let i = gate_index(gates, key);
            assert(after[i].target@ == gates[i].target@);
        }
    }
    assert forall|key: TargetKey| gates_view(after).dom().contains(key) implies (
    #[trigger] gates_view(after)[key]) == expected[key] by {
        let i = gate_index(after, key);
        lemma_gate_at(after, i);
        lemma_gate_at(gates, i);
        if i == at {
            assert(queue_views(gates[at].queue@.push(notification)) =~= queue_views(
                gates[at].queue@,
            ).push(notification@));
        } else {
            assert(after[i] == gates[i]);
        }
    }
    assert(gates_view(after) =~= expected);
}

/// Dispatches inbound notifications to the callbacks registered for their
/// recipient, and holds them back for the recipients that are buffered.
pub struct NotificationRouter {
    subscriptions: Vec<Subscription>,
    gates: Vec<Gate>,
    next_id: u64,
}

impl View for NotificationRouter {
    type V = RouterState;

    closed spec fn view(&self) -> RouterState {
        RouterState {
            subscriptions: subscription_views(self.subscriptions@),
            gates: gates_view(self.gates@),
            next_id: self.next_id,
        }
    }
}

impl NotificationRouter {
    /// The invariant of the router: no recipient has two gates, and every
    /// waiting notification waits in the queue of its own recipient.
    pub closed spec fn wf(&self) -> bool {
        gates_wf(self.gates@) && subscriptions_wf(self.subscriptions@, self.next_id)
    }

    /// A router in a valid state has a valid mathematical state.
    pub proof fn lemma_wf_view(&self)
        requires
            self.wf(),
        ensures
            self@.wf(),
    {
        let gates = self.gates@;
        assert forall|target: TargetKey, i: int|
            self@.gates.dom().contains(target) && 0 <= i < self@.gates[target].len() implies (
            #[trigger] self@.gates[target][i]).target == target by {
            let g = gate_index(gates, target);
            assert(gates[g].target@ == target);
            assert(self@.gates[target][i] == gates[g].queue@[i]@);
        }
    }

    /// A router with no callback and no gate.
    pub fn new() -> (router: Self)
        ensures
            router.wf(),
            router@ == RouterState::initial(),
    {
        let router = NotificationRouter {
            subscriptions: Vec::new(),
            gates: Vec::new(),
            next_id: 0,
        };
        assert(router@.subscriptions =~= Seq::empty());
        assert(router@.gates =~= Map::empty());
        router
    }

    fn find_gate(&self, target: &SubscriptionTarget) -> (found: Option<usize>)
        ensures
            found matches Some(i) ==> i < self.gates@.len() && self.gates@[i as int].target@
                == target@,
            found is None ==> !has_gate(self.gates@, target@),
            found is Some ==> has_gate(self.gates@, target@),
    {
        let mut i: usize = 0;
        while i < self.gates.len()
            invariant
                i <= self.gates@.len(),
                forall|j: int| 0 <= j < i ==> (#[trigger] self.gates@[j]).target@ != target@,
            decreases self.gates@.len() - i,
        {
            if self.gates[i].target.same_as(target) {
                return Some(i);
            }
            i = i + 1;
        }
        None
    }

    /// Whether notifications for `target` are being buffered.
    pub fn is_buffering(&self, target: &SubscriptionTarget) -> (buffering: bool)
        ensures
            buffering == self@.is_buffering(target@),
    {
        self.find_gate(target).is_some()
    }

    fn subscribers_for(&self, target: &SubscriptionTarget) -> (handles: Vec<u64>)
        ensures
            handles@ == subscribers_of(self@.subscriptions, target@),
    {
        let ghost views = subscription_views(self.subscriptions@);
        let mut handles: Vec<u64> = Vec::new();
        let mut i: usize = 0;
        assert(views.take(0) =~= Seq::empty());
        while i < self.subscriptions.len()
            invariant
                i <= self.subscriptions@.len(),
                views == subscription_views(self.subscriptions@),
                handles@ == subscribers_of(views.take(i as int), target@),
            decreases self.subscriptions@.len() - i,
        {
            proof {
                assert(views.take(i as int + 1).drop_last() =~= views.take(i as int));
                assert(views.take(i as int + 1).last() == views[i as int]);
            }
            if self.subscriptions[i].target.same_as(target) {
                handles.push(self.subscriptions[i].id);
            }
            i = i + 1;
        }
        assert(views.take(i as int) =~= views);
        handles
    }

    /// Registers a callback for `target` and returns its handle, or `None`
    /// where no handle is left.
    pub fn subscribe(&mut self, target: SubscriptionTarget) -> (handle: Option<u64>)
        requires
            old(self).wf(),
        ensures
            final(self).wf(),
            final(self)@ == old(self)@.step(RouterEvent::Subscribe(target@)).0,
            handle == if old(self)@.next_id < u64::MAX {
                Some(old(self)@.next_id)
            } else {
                None
            },
    {
        if self.next_id == u64::MAX {
            return None;
        }
        let id = self.next_id;
        let ghost before = self.subscriptions@;
        self.subscriptions.push(Subscription { id, target });
        self.next_id = id + 1;
        proof {
            assert(subscription_views(self.subscriptions@) =~= subscription_views(before).push(
                SubscriptionView { id, target: target@ },
            ));
            assert forall|i: int, j: int|
                0 <= i < self.subscriptions@.len() && 0 <= j < self.subscriptions@.len() && i
                    != j implies (#[trigger] self.subscriptions@[i]).id != (
            #[trigger] self.subscriptions@[j]).id by {
                if i < before.len() {
                    assert(self.subscriptions@[i] == before[i]);
                }
                if j < before.len() {
                    assert(self.subscriptions@[j] == before[j]);
                }
            }
            assert forall|i: int| 0 <= i < self.subscriptions@.len() implies (
            #[trigger] self.subscriptions@[i]).id < self.next_id by {
                if i < before.len() {
                    assert(self.subscriptions@[i] == before[i]);
                }
            }
        }
        Some(id)
    }

    /// Removes the callback with the given handle. Returns whether there was
    /// one.
    pub fn unsubscribe(&mut self, handle: u64) -> (removed: bool)
        requires
            old(self).wf(),
        ensures
            final(self).wf(),
            final(self)@ == old(self)@.step(RouterEvent::Unsubscribe(handle)).0,
            removed == (exists|i: int|
                0 <= i < old(self)@.subscriptions.len() && (
                #[trigger] old(self)@.subscriptions[i]).id == handle),
    {
        let ghost before = self.subscriptions@;
        let ghost views = subscription_views(before);
        let mut i: usize = 0;
        while i < self.subscriptions.len()
            invariant
                i <= self.subscriptions@.len(),
                self.subscriptions@ == before,
                self.gates@ == old(self).gates@,
                self.next_id == old(self).next_id,
                before == old(self).subscriptions@,
                views == subscription_views(before),
                subscriptions_wf(before, self.next_id),
                gates_wf(self.gates@),
                forall|j: int| 0 <= j < i ==> (#[trigger] before[j]).id != handle,
            decreases self.subscriptions@.len() - i,
        {
            if self.subscriptions[i].id == handle {
                proof {
                    assert forall|a: int, b: int|
                        0 <= a < views.len() && 0 <= b < views.len() && a != b implies (
                    #[trigger] views[a]).id != (#[trigger] views[b]).id by {
                        assert(before[a].id != before[b].id);
                    }
                    lemma_without_id_present(views, i as int);
                    assert(views[i as int].id == handle);
                    assert(old(self)@.subscriptions[i as int].id == handle);
                }
                self.subscriptions.remove(i);
                proof {
                    let after = self.subscriptions@;
                    assert(after == before.remove(i as int));
                    assert(subscription_views(after) =~= views.remove(i as int));
                    assert forall|a: int| 0 <= a < after.len() implies #[trigger] after[a]
                        == before[if a < i { a } else { a + 1 }] by {}
                    assert forall|a: int, b: int|
                        0 <= a < after.len() && 0 <= b < after.len() && a != b implies (
                    #[trigger] after[a]).id != (#[trigger] after[b]).id by {
                        let oa = if a < i { a } else { a + 1 };
                        let ob = if b < i { b } else { b + 1 };
                        assert(after[a] == before[oa]);
                        assert(after[b] == before[ob]);
                    }
                    assert forall|a: int| 0 <= a < after.len() implies (#[trigger] after[a]).id
                        < self.next_id by {
                        let oa = if a < i { a } else { a + 1 };
                        assert(after[a] == before[oa]);
                    }
                }
                return true;
            }
            i = i + 1;
        }
        proof {
            assert forall|j: int| 0 <= j < views.len() implies (#[trigger] views[j]).id
                != handle by {
                assert(before[j].id != handle);
            }
            lemma_without_id_absent(views, handle);
        }
        false
    }

    /// Starts to buffer the notifications for `target`. Asking for a second
    /// guard while the first is still held is a usage error.
    pub fn buffer_messages_for(&mut self, target: SubscriptionTarget) -> (guard:
        BufferMessagesGuard)
        requires
            old(self).wf(),
            !old(self)@.is_buffering(target@),
        ensures
            final(self).wf(),
            final(self)@ == old(self)@.step(RouterEvent::Hold(target@)).0,
            final(self)@.is_buffering(target@),
            guard.key() == target@,
    {
        let guard = BufferMessagesGuard { target: target.duplicate() };
        let gate = Gate { target, queue: Vec::new() };
        proof {
            lemma_gate_added(self.gates@, gate);
        }
        self.gates.push(gate);
        guard
    }

    /// Ends the buffering that `guard` stands for: hands out the
    /// notifications that waited, in the order of their arrival, for the
    /// callbacks registered now.
    pub fn release(&mut self, guard: BufferMessagesGuard) -> (delivery: Delivery)
        requires
            old(self).wf(),
        ensures
            final(self).wf(),
            final(self)@ == old(self)@.step(RouterEvent::Release(guard.key())).0,
            delivery@ == old(self)@.step(RouterEvent::Release(guard.key())).1,
            !final(self)@.is_buffering(guard.key()),
    {
        match self.find_gate(&guard.target) {
            Some(at) => {
                proof {
                    lemma_gate_at(self.gates@, at as int);
                    lemma_gate_removed(self.gates@, at as int);
                }
                let ghost subscriptions = self@.subscriptions;
                let gate = self.gates.remove(at);
                let subscribers = self.subscribers_for(&gate.target);
                let delivery = Delivery { notifications: gate.queue, subscribers };
                proof {
                    let queue = queue_views(gate.queue@);
                    assert forall|k: int| 0 <= k < queue.len() implies (#[trigger] queue[k]).target
                        == guard.key() by {
                        assert(gate.queue@[k].target@ == gate.target@);
                    }
                    assert(delivery@ =~= queue.map_values(
                        |n: NotificationView|
                            DispatchView {
                                notification: n,
                                subscribers: subscribers_of(subscriptions, n.target),
                            },
                    ));
                }
                delivery
            },
            None => {
                let delivery = Delivery { notifications: Vec::new(), subscribers: Vec::new() };
                assert(delivery@ =~= Seq::empty());
                delivery
            },
        }
    }

    /// Takes in a notification from the engine: it joins the queue of its
    /// recipient where that one is buffered, and is handed out at once where
    /// it is not.
    pub fn notify(&mut self, notification: Notification) -> (delivery: Delivery)
        requires
            old(self).wf(),
        ensures
            final(self).wf(),
            final(self)@ == old(self)@.step(RouterEvent::Notify(notification@)).0,
            delivery@ == old(self)@.step(RouterEvent::Notify(notification@)).1,
    {
        match self.find_gate(&notification.target) {
            Some(at) => {
                let ghost before = self.gates@;
                let mut gate = self.gates.remove(at);
                gate.queue.push(notification);
                self.gates.insert(at, gate);
                proof {
                    lemma_gate_at(before, at as int);
                    lemma_gate_grown(before, self.gates@, at as int, notification);
                }
                let delivery = Delivery { notifications: Vec::new(), subscribers: Vec::new() };
                assert(delivery@ =~= Seq::empty());
                delivery
            },
            None => {
                let subscribers = self.subscribers_for(&notification.target);
                let mut notifications: Vec<Notification> = Vec::new();
                notifications.push(notification);
                let delivery = Delivery { notifications, subscribers };
                assert(delivery@ =~= seq![
                    DispatchView { notification: notification@, subscribers: subscribers@ },
                ]);
                delivery
            },
        }
    }
}

} // verus!
