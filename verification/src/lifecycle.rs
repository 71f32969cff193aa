//! The life cycle of an engine handle: how it closes, and which listeners
//! are told.

use crate::text::{signed_decimal, signed_decimal_string};
use vstd::prelude::*;
use vstd::string::*;

verus! {

/// Why an engine ended with an error.
#[derive(Debug, Copy, Clone, PartialEq, Eq, Structural)]
pub enum ExitError {
    /// Generic error.
    Generic,
    /// Settings error.
    Settings,
    /// Unknown error, with the status code that came back.
    Unknown {
        /// Status code returned by the engine.
        status_code: i32,
    },
    /// Unexpected error.
    Unexpected,
}

/// The way an engine ended, written as Rust writes the value for debugging.
pub open spec fn exit_status_text(status: Result<(), ExitError>) -> Seq<char> {
    match status {
        Ok(()) => "Ok(())"@,
        Err(ExitError::Generic) => "Err(Generic)"@,
        Err(ExitError::Settings) => "Err(Settings)"@,
        Err(ExitError::Unknown { status_code }) => "Err(Unknown { status_code: "@
            + signed_decimal(status_code as int) + " })"@,
        Err(ExitError::Unexpected) => "Err(Unexpected)"@,
    }
}

/// Writes the way an engine ended as Rust writes the value for debugging.
pub fn describe_exit(status: Result<(), ExitError>) -> (text: String)
    ensures
        text@ == exit_status_text(status),
{
    match status {
        Ok(()) => String::from_str("Ok(())"),
        Err(ExitError::Generic) => String::from_str("Err(Generic)"),
        Err(ExitError::Settings) => String::from_str("Err(Settings)"),
        Err(ExitError::Unknown { status_code }) => {
            let mut text = String::from_str("Err(Unknown { status_code: ");
            text.append(signed_decimal_string(status_code as i64).as_str());
            text.append(" })");
            text
        },
        Err(ExitError::Unexpected) => String::from_str("Err(Unexpected)"),
    }
}

/// What can end the life of a handle.
#[derive(Debug, Copy, Clone, PartialEq, Eq)]
pub enum LifecycleEvent {
    /// The owner closes the handle, or drops its last reference.
    Close,
    /// The engine ended.
    Exited(Result<(), ExitError>),
}

/// What the owner of the listeners and of the transport has to do.
#[derive(Debug, Copy, Clone, PartialEq, Eq)]
pub enum LifecycleAction {
    /// Send a close request to the engine, without waiting for the answer.
    SendCloseRequest,
    /// Call the `dead` listeners with the way the engine ended.
    NotifyDead(Result<(), ExitError>),
    /// Call the `close` listeners.
    NotifyClosed,
}

/// The closed flag after an event, and what the event asks for. Only the
/// event that closes the handle asks for anything: a close sends the close
/// request and tells the `close` listeners, an exit tells the `dead`
/// listeners and then the `close` listeners.
pub open spec fn lifecycle_step(closed: bool, event: LifecycleEvent) -> (
    bool,
    Seq<LifecycleAction>,
) {
    if closed {
        (true, Seq::empty())
    } else {
        match event {
            LifecycleEvent::Close => (
                true,
                seq![LifecycleAction::SendCloseRequest, LifecycleAction::NotifyClosed],
            ),
            LifecycleEvent::Exited(status) => (
                true,
                seq![LifecycleAction::NotifyDead(status), LifecycleAction::NotifyClosed],
            ),
        }
    }
}

/// The closed flag after a sequence of events, and all that they ask for, in
/// order.
pub open spec fn lifecycle_run(closed: bool, events: Seq<LifecycleEvent>) -> (
    bool,
    Seq<LifecycleAction>,
)
    decreases events.len(),
{
    if events.len() == 0 {
        (closed, Seq::empty())
    } else {
        let (before, earlier) = lifecycle_run(closed, events.drop_last());
        let (after, latest) = lifecycle_step(before, events.last());
        (after, earlier + latest)
    }
}

/// How many times `action` occurs in a sequence of actions.
pub open spec fn occurrences(actions: Seq<LifecycleAction>, action: LifecycleAction) -> nat
    decreases actions.len(),
{
    if actions.len() == 0 {
        0
    } else {
        occurrences(actions.drop_last(), action) + if actions.last() == action {
            1nat
        } else {
            0nat
        }
    }
}

/// How many times the `dead` listeners are called in a sequence of actions.
pub open spec fn dead_notices(actions: Seq<LifecycleAction>) -> nat
    decreases actions.len(),
{
    if actions.len() == 0 {
        0
    } else {
        dead_notices(actions.drop_last()) + if actions.last() is NotifyDead {
            1nat
        } else {
            0nat
        }
    }
}

/// A closed handle reacts to nothing: whatever happens, nothing is asked for
/// and it stays closed.
pub proof fn lemma_closed_stays_silent(events: Seq<LifecycleEvent>)
    ensures
        lifecycle_run(true, events) == (true, Seq::<LifecycleAction>::empty()),
    decreases events.len(),
{
    if events.len() > 0 {
        lemma_closed_stays_silent(events.drop_last());
        assert(Seq::<LifecycleAction>::empty() + Seq::<LifecycleAction>::empty()
            =~= Seq::<LifecycleAction>::empty());
    }
}

/// Of a sequence of events on an open handle only the first one acts: the
/// handle is closed after it, and all that is ever asked for is what that
/// first event asks for.
pub proof fn lemma_first_event_decides(events: Seq<LifecycleEvent>)
    requires
        events.len() > 0,
    ensures
        lifecycle_run(false, events) == (true, lifecycle_step(false, events[0]).1),
    decreases events.len(),
{
    let earlier = events.drop_last();
    let first = lifecycle_step(false, events[0]).1;
    if earlier.len() == 0 {
        assert(events.last() == events[0]);
        assert(lifecycle_run(false, earlier) == (false, Seq::<LifecycleAction>::empty()));
        assert(Seq::<LifecycleAction>::empty() + first =~= first);
        assert(lifecycle_run(false, events).1 =~= first);
    } else {
        lemma_first_event_decides(earlier);
        assert(earlier[0] == events[0]);
        assert(lifecycle_run(false, earlier) == (true, first));
        assert(lifecycle_step(true, events.last()) == (true, Seq::<LifecycleAction>::empty()));
        assert(first + Seq::<LifecycleAction>::empty() =~= first);
        assert(lifecycle_run(false, events).1 =~= first);
    }
}

/// Closing is idempotent. However many times an open handle is closed, one
/// close request is sent and the `close` listeners are called once.
pub proof fn lemma_close_is_idempotent(times: nat)
    requires
        times >= 1,
    ensures
        lifecycle_run(false, Seq::new(times, |i: int| LifecycleEvent::Close)) == (
            true,
            seq![LifecycleAction::SendCloseRequest, LifecycleAction::NotifyClosed],
        ),
{
    lemma_first_event_decides(Seq::new(times, |i: int| LifecycleEvent::Close));
}

/// In every sequence of events, on an open or a closed handle, at most one
/// close request is sent and the `close` listeners are called at most once.
pub proof fn lemma_close_at_most_once(closed: bool, events: Seq<LifecycleEvent>)
    ensures
        occurrences(lifecycle_run(closed, events).1, LifecycleAction::SendCloseRequest) <= 1,
        occurrences(lifecycle_run(closed, events).1, LifecycleAction::NotifyClosed) <= 1,
{
    let actions = lifecycle_run(closed, events).1;
    if closed {
        lemma_closed_stays_silent(events);
        assert(actions.len() == 0);
    } else if events.len() > 0 {
        lemma_first_event_decides(events);
        lemma_occurrences_of_pair(actions, LifecycleAction::SendCloseRequest);
        lemma_occurrences_of_pair(actions, LifecycleAction::NotifyClosed);
    } else {
        assert(actions.len() == 0);
    }
}

/// The `dead` listeners are called at most once, and they are called exactly
/// when the first thing that happens to the open handle is that the engine
/// ends: never after a close.
pub proof fn lemma_dead_at_most_once(events: Seq<LifecycleEvent>)
    ensures
        dead_notices(lifecycle_run(false, events).1) <= 1,
        dead_notices(lifecycle_run(false, events).1) == 1 <==> events.len() > 0
            && events[0] is Exited,
        dead_notices(lifecycle_run(true, events).1) == 0,
{
    lemma_closed_stays_silent(events);
    if events.len() > 0 {
        lemma_first_event_decides(events);
        let actions = lifecycle_step(false, events[0]).1;
        assert(actions.len() == 2);
        let one = actions.drop_last();
        assert(one.len() == 1);
        assert(one.drop_last().len() == 0);
        assert(dead_notices(one.drop_last()) == 0);
        assert(one.last() == actions[0]);
        assert(actions.last() == actions[1]);
        assert(dead_notices(one) == if actions[0] is NotifyDead { 1nat } else { 0nat });
        assert(dead_notices(actions) == dead_notices(one));
    } else {
        assert(lifecycle_run(false, events).1.len() == 0);
    }
}

/// Counting in a sequence of two actions.
proof fn lemma_occurrences_of_pair(actions: Seq<LifecycleAction>, action: LifecycleAction)
    requires
        actions.len() == 2,
        actions[0] != actions[1],
    ensures
        occurrences(actions, action) <= 1,
{
    let one = actions.drop_last();
    assert(one.len() == 1);
    assert(one.drop_last().len() == 0);
    assert(occurrences(one.drop_last(), action) == 0);
    assert(one.last() == actions[0]);
    assert(actions.last() == actions[1]);
    assert(occurrences(one, action) == if actions[0] == action { 1nat } else { 0nat });
}

} // verus!
