//! The handle of an engine: its start, the creation of entities inside it,
//! and its end.

use crate::ids::{
    is_random_uuid, uuid_text, RouterId, SubscriptionTarget, TargetKey, WebRtcServerId, WorkerId,
};
use crate::lifecycle::{
    describe_exit, exit_status_text, lifecycle_step, ExitError, LifecycleAction, LifecycleEvent,
};
use crate::notifications::{BufferMessagesGuard, Delivery, NotificationRouter};
use crate::requests::{id_after, CorrelatorState, RequestCorrelator, RequestError};
use crate::routing::{RouterEvent, RouterState};
use crate::settings::{
    log_tag_names, texts, StartError, StartErrorKind, UpdateSettingsFields, WorkerSettings,
    WorkerUpdateSettings,
};
use crate::text::{decimal, decimal_string};
use vstd::prelude::*;
use vstd::string::*;

verus! {

/// The two halves of the connection to an engine: the router of its
/// notifications and the correlator of the requests sent to it.
pub struct Channel {
    /// Routes inbound notifications.
    pub notifications: NotificationRouter,
    /// Correlates requests with responses.
    pub requests: RequestCorrelator,
}

/// An entity whose creation was asked of the engine and is not yet
/// answered. Notifications for the entity wait until the creation ends.
#[derive(Debug)]
pub struct PendingCreation {
    entity: u128,
    request_id: u64,
    guard: BufferMessagesGuard,
}

impl PendingCreation {
    /// The identifier that the entity was given.
    pub closed spec fn entity_id(&self) -> u128 {
        self.entity
    }

    /// The correlation id of the creation request.
    pub closed spec fn correlation_id(&self) -> u64 {
        self.request_id
    }

    /// The guard held is the one of the entity.
    pub closed spec fn wf(&self) -> bool {
        self.guard.key() == TargetKey::Uuid(self.entity)
    }

    /// The identifier that the entity was given.
    pub fn entity(&self) -> (entity: u128)
        ensures
            entity == self.entity_id(),
    {
        self.entity
    }

    /// The correlation id of the creation request.
    pub fn request_id(&self) -> (id: u64)
        ensures
            id == self.correlation_id(),
    {
        self.request_id
    }
}

impl Channel {
    /// Both halves are in a valid state.
    pub open spec fn wf(&self) -> bool {
        self.notifications.wf() && self.requests.wf()
    }

    /// A channel with no callback, no gate and no request in flight.
    pub fn new() -> (channel: Self)
        ensures
            channel.wf(),
            channel.notifications@ == RouterState::initial(),
            channel.requests@ == CorrelatorState::initial(),
    {
        Channel { notifications: NotificationRouter::new(), requests: RequestCorrelator::new() }
    }

    /// Starts the creation of the entity `entity`: its notifications are
    /// buffered from now on and the creation request is in flight. On a
    /// closed transport the request fails at once, the guard is given up and
    /// nothing has changed.
    pub fn begin_creation(&mut self, entity: u128) -> (outcome: Result<
        PendingCreation,
        RequestError,
    >)
        requires
            old(self).wf(),
            !old(self).notifications@.is_buffering(TargetKey::Uuid(entity)),
        ensures
            final(self).wf(),
            old(self).requests@.closed <==> outcome is Err,
            outcome matches Err(error) ==> error == RequestError::ChannelClosed
                && final(self).requests@ == old(self).requests@ && final(self).notifications@
                == old(self).notifications@,
            outcome matches Ok(pending) ==> creation_begun(
                *old(self),
                *final(self),
                pending,
                entity,
            ),
    {
        let guard = self.notifications.buffer_messages_for(SubscriptionTarget::Uuid(entity));
        match self.requests.begin() {
            Ok(request_id) => Ok(PendingCreation { entity, request_id, guard }),
            Err(error) => {
                let ghost held = self.notifications@;
                let _ = self.notifications.release(guard);
                proof {
                    let key = TargetKey::Uuid(entity);
                    assert(held.gates.remove(key) =~= old(self).notifications@.gates);
                }
                Err(error)
            },
        }
    }

    /// Ends a creation, whether it succeeded or not: the guard of the entity
    /// is released, and the notifications that waited for the entity are
    /// handed out in the order of their arrival, for the callbacks that are
    /// registered by now.
    pub fn end_creation(&mut self, pending: PendingCreation) -> (delivery: Delivery)
        requires
            old(self).wf(),
            pending.wf(),
        ensures
            final(self).wf(),
            final(self).requests@ == old(self).requests@,
            final(self).notifications@ == old(self).notifications@.step(
                RouterEvent::Release(TargetKey::Uuid(pending.entity_id())),
            ).0,
            delivery@ == old(self).notifications@.step(
                RouterEvent::Release(TargetKey::Uuid(pending.entity_id())),
            ).1,
            !final(self).notifications@.is_buffering(TargetKey::Uuid(pending.entity_id())),
    {
        self.notifications.release(pending.guard)
    }
}

/// Whether no entity with an identifier of the random kind has its
/// notifications buffered on a channel, so that a fresh random identifier
/// can be given a buffering guard whichever it is.
pub open spec fn random_ids_are_free(channel: Channel) -> bool {
    forall|id: u128| #[trigger]
        is_random_uuid(id) ==> !channel.notifications@.is_buffering(TargetKey::Uuid(id))
}

/// What holds once the creation of the entity `entity` has begun on a
/// channel: the creation request has the next free correlation id and is in
/// flight, and the notifications for the entity are buffered.
pub open spec fn creation_begun(
    before: Channel,
    after: Channel,
    pending: PendingCreation,
    entity: u128,
) -> bool {
    &&& pending.wf()
    &&& pending.entity_id() == entity
    &&& before.requests@.is_next_free(pending.correlation_id())
    &&& after.requests@ == (CorrelatorState {
        pending: before.requests@.pending.push(pending.correlation_id()),
        next_id: id_after(pending.correlation_id(), 1),
        closed: false,
    })
    &&& after.notifications@ == before.notifications@.step(
        RouterEvent::Hold(TargetKey::Uuid(entity)),
    ).0
}

/// Why the capabilities of a router could not be worked out.
#[derive(Debug, PartialEq, Eq)]
pub struct RtpCapabilitiesError {
    /// The failure in words.
    pub reason: String,
}

/// Error that caused the creation of a WebRTC server to fail.
#[derive(Debug, PartialEq, Eq)]
pub enum CreateWebRtcServerError {
    /// Request to the engine failed.
    Request(RequestError),
}

/// Error that caused the creation of a router to fail.
#[derive(Debug, PartialEq, Eq)]
pub enum CreateRouterError {
    /// RTP capabilities generation error.
    FailedRtpCapabilitiesGeneration(RtpCapabilitiesError),
    /// Request to the engine failed.
    Request(RequestError),
}

impl CreateWebRtcServerError {
    /// The error in words.
    pub fn message(&self) -> (text: String)
        ensures
            self matches CreateWebRtcServerError::Request(error) && text@
                == "Request to worker failed: "@ + error@.message(),
    {
        match self {
            CreateWebRtcServerError::Request(error) => {
                let mut text = String::from_str("Request to worker failed: ");
                text.append(error.message().as_str());
                text
            },
        }
    }
}

impl CreateRouterError {
    /// The error in words.
    pub fn message(&self) -> (text: String)
        ensures
            text@ == match self {
                CreateRouterError::FailedRtpCapabilitiesGeneration(error) =>
                    "RTP capabilities generation error: "@ + error.reason@,
                CreateRouterError::Request(error) => "Request to worker failed: "@
                    + error@.message(),
            },
    {
        match self {
            CreateRouterError::FailedRtpCapabilitiesGeneration(error) => {
                let mut text = String::from_str("RTP capabilities generation error: ");
                text.append(error.reason.as_str());
                text
            },
            CreateRouterError::Request(error) => {
                let mut text = String::from_str("Request to worker failed: ");
                text.append(error.message().as_str());
                text
            },
        }
    }
}

impl PendingCreation {
    /// The result of the creation of a router, once the engine has answered.
    pub fn router_result(&self, response: Result<(), RequestError>) -> (result: Result<
        RouterId,
        CreateRouterError,
    >)
        ensures
            result == match response {
                Ok(()) => Ok::<RouterId, CreateRouterError>(RouterId { value: self.entity_id() }),
                Err(error) => Err(CreateRouterError::Request(error)),
            },
    {
        match response {
            Ok(()) => Ok(RouterId { value: self.entity }),
            Err(error) => Err(CreateRouterError::Request(error)),
        }
    }

    /// The result of the creation of a WebRTC server, once the engine has
    /// answered.
    pub fn webrtc_server_result(&self, response: Result<(), RequestError>) -> (result: Result<
        WebRtcServerId,
        CreateWebRtcServerError,
    >)
        ensures
            result == match response {
                Ok(()) => Ok::<WebRtcServerId, CreateWebRtcServerError>(
                    WebRtcServerId { value: self.entity_id() },
                ),
                Err(error) => Err(CreateWebRtcServerError::Request(error)),
            },
    {
        match response {
            Ok(()) => Ok(WebRtcServerId { value: self.entity }),
            Err(error) => Err(CreateWebRtcServerError::Request(error)),
        }
    }
}

/// What tells a starting engine's handle how the start went.
#[derive(Debug, Copy, Clone, PartialEq, Eq)]
pub enum StartupSignal {
    /// The first notification of the engine came; `running` says whether it
    /// reports that the engine runs.
    FirstNotification {
        /// Whether the notification reports that the engine runs.
        running: bool,
    },
    /// The engine ended before its first notification.
    Exited(Result<(), ExitError>),
    /// The handle was given up before the first notification.
    Abandoned,
}

/// Whether a start succeeded, and the kind and words of its failure where it
/// did not, for the engine whose identifier reads `id_text`.
pub open spec fn startup_result_of(id_text: Seq<char>, signal: StartupSignal) -> Result<
    (),
    (StartErrorKind, Seq<char>),
> {
    match signal {
        StartupSignal::FirstNotification { running } => if running {
            Ok(())
        } else {
            Err(
                (
                    StartErrorKind::Other,
                    "unexpected first notification from worker [id:"@ + id_text + "]"@,
                ),
            )
        },
        StartupSignal::Exited(status) => Err(
            (
                StartErrorKind::NotFound,
                "worker thread exited before being ready [id:"@ + id_text
                    + "]: exit status "@ + exit_status_text(status),
            ),
        ),
        StartupSignal::Abandoned => Err(
            (StartErrorKind::Other, "Worker dropped before it is ready"@),
        ),
    }
}

/// The view of the result of a start.
pub open spec fn startup_view(result: Result<(), StartError>) -> Result<
    (),
    (StartErrorKind, Seq<char>),
> {
    match result {
        Ok(()) => Ok(()),
        Err(error) => Err((error.kind, error.message@)),
    }
}

/// Decides how the start of the engine whose identifier reads `id_text`
/// went: it succeeded if the first notification reports that the engine
/// runs, and failed on any other first notification, if the engine ended
/// first, or if the handle was given up.
pub fn startup_result(id_text: &str, signal: StartupSignal) -> (result: Result<(), StartError>)
    ensures
        startup_view(result) == startup_result_of(id_text@, signal),
{
    match signal {
        StartupSignal::FirstNotification { running } => {
            if running {
                Ok(())
            } else {
                let mut message = String::from_str(
                    "unexpected first notification from worker [id:",
                );
                message.append(id_text);
                message.append("]");
                Err(StartError { kind: StartErrorKind::Other, message })
            }
        },
        StartupSignal::Exited(status) => {
            let mut message = String::from_str("worker thread exited before being ready [id:");
            message.append(id_text);
            message.append("]: exit status ");
            message.append(describe_exit(status).as_str());
            Err(StartError { kind: StartErrorKind::NotFound, message })
        },
        StartupSignal::Abandoned => Err(
            StartError {
                kind: StartErrorKind::Other,
                message: String::from_str("Worker dropped before it is ready"),
            },
        ),
    }
}

/// The key under which the engine reports that it runs: the identifier of
/// the process that started it, in decimal.
pub fn readiness_target(process_id: u32) -> (target: SubscriptionTarget)
    ensures
        target@ == TargetKey::Text(decimal(process_id as nat)),
{
    SubscriptionTarget::String(decimal_string(process_id as u64))
}

/// The one-time exchange by which the engine says that it runs.
#[derive(Debug)]
pub struct ReadinessHandshake {
    answered: bool,
}

impl ReadinessHandshake {
    /// Whether the engine has sent its first notification.
    pub closed spec fn is_answered(&self) -> bool {
        self.answered
    }

    /// A handshake that waits for the first notification.
    pub fn new() -> (handshake: Self)
        ensures
            !handshake.is_answered(),
    {
        ReadinessHandshake { answered: false }
    }

    /// Whether the engine has sent its first notification.
    pub fn answered(&self) -> (answered: bool)
        ensures
            answered == self.is_answered(),
    {
        self.answered
    }

    /// Takes in the first notification of the engine. A second one breaks
    /// the engine's contract and must not be handed in.
    pub fn first_notification(&mut self, running: bool) -> (signal: StartupSignal)
        requires
            !old(self).is_answered(),
        ensures
            final(self).is_answered(),
            signal == (StartupSignal::FirstNotification { running }),
    {
        self.answered = true;
        StartupSignal::FirstNotification { running }
    }
}

/// A request in flight that updates the settings of the engine.
#[derive(Debug)]
pub struct UpdateSettingsRequest {
    /// The correlation id of the request.
    pub request_id: u64,
    /// The fields that the request carries.
    pub fields: UpdateSettingsFields,
}

impl UpdateSettingsRequest {
    /// The result of the update, once the request is resolved: success
    /// whatever the engine sent along, and the failure of the request
    /// unchanged.
    pub fn result(&self, response: Result<Option<Vec<u8>>, RequestError>) -> (result: Result<
        (),
        RequestError,
    >)
        ensures
            result == match response {
                Ok(_) => Ok::<(), RequestError>(()),
                Err(error) => Err(error),
            },
    {
        match response {
            Ok(_) => Ok(()),
            Err(error) => Err(error),
        }
    }
}

/// The registrations inside the engine that a snapshot reports.
#[derive(Debug, Clone, PartialEq, Eq)]
pub struct ChannelMessageHandlers {
    /// The entities that take requests.
    pub channel_request_handlers: Vec<u128>,
    /// The entities that take notifications.
    pub channel_notification_handlers: Vec<u128>,
}

/// A snapshot of the engine's state.
#[derive(Debug, Clone)]
#[non_exhaustive]
pub struct WorkerDump {
    /// The routers that exist in the engine.
    pub router_ids: Vec<RouterId>,
    /// The WebRTC servers that exist in the engine.
    pub webrtc_server_ids: Vec<WebRtcServerId>,
    /// The registrations inside the engine.
    pub channel_message_handlers: ChannelMessageHandlers,
}

/// The handle of an engine.
#[derive(Debug)]
pub struct Worker {
    id: WorkerId,
    closed: bool,
}

/// The state of a handle, as a mathematical value.
pub struct WorkerView {
    /// The 128 bits of the engine's identifier.
    pub id: u128,
    /// Whether the handle is closed.
    pub closed: bool,
}

impl View for Worker {
    type V = WorkerView;

    closed spec fn view(&self) -> WorkerView {
        WorkerView { id: self.id.value, closed: self.closed }
    }
}

/// All that a start hands to its caller.
pub struct StartedWorker {
    /// The handle.
    pub worker: Worker,
    /// The channel to the engine.
    pub channel: Channel,
    /// The arguments to invoke the engine with.
    pub spawn_args: Vec<String>,
    /// The guard that holds back the engine's first notification until a
    /// callback waits for it.
    pub ready_guard: BufferMessagesGuard,
}

/// What a handle does to wait for the engine's first notification.
pub struct ReadinessWatch {
    /// The handle of the callback that waits for the first notification, or
    /// `None` where no handle was left.
    pub subscription: Option<u64>,
    /// The notifications that had come before the callback waited.
    pub buffered: Delivery,
}

impl Worker {
    /// Prepares the start of an engine: checks the settings, writes the
    /// invocation arguments, gives the engine a fresh identifier, and opens a
    /// channel that buffers what the engine sends to the process
    /// `process_id` until a callback waits for it. An empty port range is
    /// refused before anything is started.
    pub fn new(settings: &WorkerSettings, process_id: u32) -> (outcome: Result<
        StartedWorker,
        StartError,
    >)
        ensures
            outcome is Ok <==> settings.ports_usable(),
            outcome matches Err(error) ==> error.kind == StartErrorKind::InvalidInput
                && error.message@ == "Invalid RTC ports range"@,
            outcome matches Ok(started) ==> {
                &&& texts(started.spawn_args@) == settings.spawn_args_spec()
                &&& is_random_uuid(started.worker@.id)
                &&& !started.worker@.closed
                &&& started.channel.wf()
                &&& started.channel.requests@ == CorrelatorState::initial()
                &&& started.channel.notifications@ == RouterState::initial().step(
                    RouterEvent::Hold(TargetKey::Text(decimal(process_id as nat))),
                ).0
                &&& started.ready_guard.key() == TargetKey::Text(decimal(process_id as nat))
            },
    {
        let spawn_args = match settings.spawn_args() {
            Ok(args) => args,
            Err(error) => {
                return Err(error);
            },
        };
        let id = WorkerId::new();
        let mut channel = Channel::new();
        let ready_guard = channel.notifications.buffer_messages_for(readiness_target(process_id));
        Ok(StartedWorker { worker: Worker { id, closed: false }, channel, spawn_args, ready_guard })
    }

    /// Worker id.
    pub fn id(&self) -> (id: WorkerId)
        ensures
            id.value == self@.id,
    {
        self.id
    }

    /// Whether the worker is closed.
    pub fn closed(&self) -> (closed: bool)
        ensures
            closed == self@.closed,
    {
        self.closed
    }

    /// Installs the callback that waits for the engine's first notification
    /// and only then releases the guard taken at the start, so that the
    /// notification cannot be lost: whatever came in the meantime is handed
    /// to that callback, in the order of arrival.
    pub fn wait_for_worker_ready(
        &self,
        channel: &mut Channel,
        ready_guard: BufferMessagesGuard,
    ) -> (watch: ReadinessWatch)
        requires
            old(channel).wf(),
        ensures
            final(channel).wf(),
            final(channel).requests@ == old(channel).requests@,
            final(channel).notifications@ == old(channel).notifications@.step(
                RouterEvent::Subscribe(ready_guard.key()),
            ).0.step(RouterEvent::Release(ready_guard.key())).0,
            watch.buffered@ == old(channel).notifications@.step(
                RouterEvent::Subscribe(ready_guard.key()),
            ).0.step(RouterEvent::Release(ready_guard.key())).1,
            watch.subscription == if old(channel).notifications@.next_id < u64::MAX {
                Some(old(channel).notifications@.next_id)
            } else {
                None
            },
    {
        let subscription = channel.notifications.subscribe(ready_guard.target().duplicate());
        let buffered = channel.notifications.release(ready_guard);
        ReadinessWatch { subscription, buffered }
    }

    /// Decides how the start of this engine went.
    pub fn startup_outcome(&self, signal: StartupSignal) -> (result: Result<(), StartError>)
        ensures
            startup_view(result) == startup_result_of(uuid_text(self@.id), signal),
    {
        startup_result(self.id.to_text().as_str(), signal)
    }

    fn react(&mut self, event: LifecycleEvent) -> (actions: Vec<LifecycleAction>)
        ensures
            final(self)@.id == old(self)@.id,
            final(self)@.closed == lifecycle_step(old(self)@.closed, event).0,
            actions@ == lifecycle_step(old(self)@.closed, event).1,
    {
        let mut actions: Vec<LifecycleAction> = Vec::new();
        if !self.closed {
            self.closed = true;
            match event {
                LifecycleEvent::Close => {
                    actions.push(LifecycleAction::SendCloseRequest);
                },
                LifecycleEvent::Exited(status) => {
                    actions.push(LifecycleAction::NotifyDead(status));
                },
            }
            actions.push(LifecycleAction::NotifyClosed);
        }
        assert(actions@ =~= lifecycle_step(old(self)@.closed, event).1);
        actions
    }

    /// Closes the handle. The first close sends a close request to the
    /// engine and calls the `close` listeners; every later one does nothing.
    pub fn close(&mut self) -> (actions: Vec<LifecycleAction>)
        ensures
            final(self)@.id == old(self)@.id,
            final(self)@.closed,
            actions@ == lifecycle_step(old(self)@.closed, LifecycleEvent::Close).1,
    {
        self.react(LifecycleEvent::Close)
    }

    /// Takes in the end of the engine. On a handle that is not closed yet
    /// the `dead` listeners are called with the way the engine ended, then
    /// the `close` listeners; on a closed one nothing is done.
    pub fn exited(&mut self, status: Result<(), ExitError>) -> (actions: Vec<LifecycleAction>)
        ensures
            final(self)@.id == old(self)@.id,
            final(self)@.closed,
            actions@ == lifecycle_step(old(self)@.closed, LifecycleEvent::Exited(status)).1,
    {
        self.react(LifecycleEvent::Exited(status))
    }

    /// Takes note of a new `close` listener. Returns whether it is to be
    /// called at once, which is the case exactly when the handle is already
    /// closed.
    pub fn on_close(&self) -> (call_now: bool)
        ensures
            call_now == self@.closed,
    {
        self.closed
    }

    /// Starts the creation of the router `router_id`. Where the router's
    /// capabilities could not be worked out, that failure is returned and
    /// nothing is asked of the engine; else the router's notifications are
    /// buffered and the creation request is in flight, or has failed at once
    /// on a closed transport.
    pub fn create_router_with_id(
        &self,
        channel: &mut Channel,
        router_id: RouterId,
        capabilities: Result<(), RtpCapabilitiesError>,
    ) -> (outcome: Result<PendingCreation, CreateRouterError>)
        requires
            old(channel).wf(),
            !old(channel).notifications@.is_buffering(TargetKey::Uuid(router_id.value)),
        ensures
            final(channel).wf(),
            outcome is Ok <==> capabilities is Ok && !old(channel).requests@.closed,
            capabilities matches Err(error) ==> outcome == Err::<
                PendingCreation,
                CreateRouterError,
            >(CreateRouterError::FailedRtpCapabilitiesGeneration(error)),
            capabilities is Ok && old(channel).requests@.closed ==> outcome == Err::<
                PendingCreation,
                CreateRouterError,
            >(CreateRouterError::Request(RequestError::ChannelClosed)),
            outcome is Err ==> final(channel).requests@ == old(channel).requests@ && final(channel).notifications@ == old(channel).notifications@,
            outcome matches Ok(pending) ==> creation_begun(
                *old(channel),
                *final(channel),
                pending,
                router_id.value,
            ),
    {
        match capabilities {
            Err(error) => Err(CreateRouterError::FailedRtpCapabilitiesGeneration(error)),
            Ok(()) => match channel.begin_creation(router_id.value) {
                Ok(pending) => Ok(pending),
                Err(error) => Err(CreateRouterError::Request(error)),
            },
        }
    }

    /// Starts the creation of a router under a fresh random identifier.
    /// Where the router's capabilities could not be worked out, that failure
    /// is returned and nothing is asked of the engine. Else it returns
    /// `None`, with nothing changed, in the one case that the fresh
    /// identifier is that of an entity whose notifications are being
    /// buffered already. Where no entity with an identifier of the random
    /// kind is being buffered that cannot happen, and the creation is
    /// started: it is in flight on an open transport, and has failed at once
    /// on a closed one.
    pub fn create_router(
        &self,
        channel: &mut Channel,
        capabilities: Result<(), RtpCapabilitiesError>,
    ) -> (outcome: Option<Result<PendingCreation, CreateRouterError>>)
        requires
            old(channel).wf(),
        ensures
            final(channel).wf(),
            capabilities is Ok && random_ids_are_free(*old(channel)) ==> outcome is Some,
            outcome matches Some(result) ==> (result is Ok <==> capabilities is Ok && !old(channel).requests@.closed),
            outcome matches Some(Err(CreateRouterError::FailedRtpCapabilitiesGeneration(_)))
                ==> capabilities is Err,
            capabilities matches Err(error) ==> outcome == Some(
                Err::<PendingCreation, CreateRouterError>(
                    CreateRouterError::FailedRtpCapabilitiesGeneration(error),
                ),
            ),
            outcome is None ==> capabilities is Ok,
            outcome matches Some(Err(CreateRouterError::Request(error))) ==> capabilities is Ok
                && old(channel).requests@.closed && error == RequestError::ChannelClosed,
            outcome matches Some(Ok(pending)) ==> capabilities is Ok && !old(channel).requests@.closed && is_random_uuid(pending.entity_id()) && !old(channel).notifications@.is_buffering(TargetKey::Uuid(pending.entity_id()))
                && creation_begun(*old(channel), *final(channel), pending, pending.entity_id()),
            !(outcome matches Some(Ok(_))) ==> final(channel).requests@ == old(channel).requests@
                && final(channel).notifications@ == old(channel).notifications@,
    {
        match capabilities {
            Err(error) => Some(Err(CreateRouterError::FailedRtpCapabilitiesGeneration(error))),
            Ok(()) => {
                let router_id = RouterId::new();
                if channel.notifications.is_buffering(&router_id.target()) {
                    None
                } else {
                    Some(self.create_router_with_id(channel, router_id, Ok(())))
                }
            },
        }
    }

    /// Starts the creation of the WebRTC server `server_id`: its
    /// notifications are buffered and the creation request is in flight, or
    /// has failed at once on a closed transport.
    pub fn create_webrtc_server_with_id(
        &self,
        channel: &mut Channel,
        server_id: WebRtcServerId,
    ) -> (outcome: Result<PendingCreation, CreateWebRtcServerError>)
        requires
            old(channel).wf(),
            !old(channel).notifications@.is_buffering(TargetKey::Uuid(server_id.value)),
        ensures
            final(channel).wf(),
            outcome is Ok <==> !old(channel).requests@.closed,
            outcome is Err ==> outcome == Err::<PendingCreation, CreateWebRtcServerError>(
                CreateWebRtcServerError::Request(RequestError::ChannelClosed),
            ) && final(channel).requests@ == old(channel).requests@ && final(channel).notifications@ == old(channel).notifications@,
            outcome matches Ok(pending) ==> creation_begun(
                *old(channel),
                *final(channel),
                pending,
                server_id.value,
            ),
    {
        match channel.begin_creation(server_id.value) {
            Ok(pending) => Ok(pending),
            Err(error) => Err(CreateWebRtcServerError::Request(error)),
        }
    }

    /// Starts the creation of a WebRTC server under a fresh random
    /// identifier. Returns `None`, with nothing changed, in the one case
    /// that the fresh identifier is that of an entity whose notifications
    /// are being buffered already. Where no entity with an identifier of
    /// the random kind is being buffered that cannot happen, and the
    /// creation is started: it is in flight on an open transport, and has
    /// failed at once on a closed one.
    pub fn create_webrtc_server(&self, channel: &mut Channel) -> (outcome: Option<
        Result<PendingCreation, CreateWebRtcServerError>,
    >)
        requires
            old(channel).wf(),
        ensures
            final(channel).wf(),
            random_ids_are_free(*old(channel)) ==> outcome is Some,
            outcome matches Some(result) ==> (result is Ok <==> !old(channel).requests@.closed),
            outcome matches Some(Err(CreateWebRtcServerError::Request(error))) ==> old(channel).requests@.closed && error == RequestError::ChannelClosed,
            outcome matches Some(Ok(pending)) ==> !old(channel).requests@.closed
                && is_random_uuid(pending.entity_id()) && !old(channel).notifications@.is_buffering(TargetKey::Uuid(pending.entity_id()))
                && creation_begun(*old(channel), *final(channel), pending, pending.entity_id()),
            !(outcome matches Some(Ok(_))) ==> final(channel).requests@ == old(channel).requests@
                && final(channel).notifications@ == old(channel).notifications@,
    {
        let server_id = WebRtcServerId::new();
        if channel.notifications.is_buffering(&server_id.target()) {
            None
        } else {
            Some(self.create_webrtc_server_with_id(channel, server_id))
        }
    }

    /// Starts the request that updates the settings of the engine: it
    /// carries only the fields that `data` holds. On a closed transport it
    /// fails at once and nothing changes.
    pub fn update_settings(&self, channel: &mut Channel, data: &WorkerUpdateSettings) -> (outcome:
        Result<UpdateSettingsRequest, RequestError>)
        requires
            old(channel).wf(),
        ensures
            final(channel).wf(),
            final(channel).notifications@ == old(channel).notifications@,
            old(channel).requests@.closed <==> outcome is Err,
            outcome matches Err(error) ==> error == RequestError::ChannelClosed && final(channel).requests@ == old(channel).requests@,
            outcome matches Ok(request) ==> {
                &&& old(channel).requests@.is_next_free(request.request_id)
                &&& final(channel).requests@ == (CorrelatorState {
                    pending: old(channel).requests@.pending.push(request.request_id),
                    next_id: id_after(request.request_id, 1),
                    closed: false,
                })
                &&& request.fields.log_level is Some <==> data.log_level is Some
                &&& request.fields.log_level matches Some(word) ==> word@
                    == data.log_level->Some_0.name()
                &&& request.fields.log_tags is Some <==> data.log_tags is Some
                &&& request.fields.log_tags matches Some(words) ==> texts(words@)
                    == log_tag_names(data.log_tags->Some_0@)
            },
    {
        match channel.requests.begin() {
            Ok(request_id) => Ok(
                UpdateSettingsRequest { request_id, fields: data.request_fields() },
            ),
            Err(error) => Err(error),
        }
    }

    /// Starts the request for a snapshot of the engine's state. Nothing but
    /// the request in flight changes; on a closed transport it fails at once
    /// and nothing changes at all.
    pub fn dump(&self, channel: &mut Channel) -> (outcome: Result<u64, RequestError>)
        requires
            old(channel).wf(),
        ensures
            final(channel).wf(),
            final(channel).notifications@ == old(channel).notifications@,
            old(channel).requests@.closed <==> outcome is Err,
            outcome matches Err(error) ==> error == RequestError::ChannelClosed && final(channel).requests@ == old(channel).requests@,
            outcome matches Ok(request_id) ==> old(channel).requests@.is_next_free(request_id)
                && final(channel).requests@ == (CorrelatorState {
                pending: old(channel).requests@.pending.push(request_id),
                next_id: id_after(request_id, 1),
                closed: false,
            }),
    {
        match channel.requests.begin() {
            Ok(request_id) => Ok(request_id),
            Err(error) => Err(error),
        }
    }

    /// The result of a snapshot request, once it is resolved: the body of
    /// the answer, which is yet to be decoded; the failure of the request
    /// unchanged; and the lack of a body as a failure of its own.
    pub fn dump_result(&self, response: Result<Option<Vec<u8>>, RequestError>) -> (result: Result<
        Vec<u8>,
        RequestError,
    >)
        ensures
            result == match response {
                Ok(Some(body)) => Ok::<Vec<u8>, RequestError>(body),
                Ok(None) => Err(RequestError::NoData),
                Err(error) => Err(error),
            },
    {
        match response {
            Ok(Some(body)) => Ok(body),
            Ok(None) => Err(RequestError::NoData),
            Err(error) => Err(error),
        }
    }
}

} // verus!
