//! Correlation of requests with their responses.

use crate::text::joined;
use vstd::prelude::*;
use vstd::string::*;

verus! {

/// Error that caused a request to the engine to fail.
#[derive(Debug, PartialEq, Eq)]
pub enum RequestError {
    /// Channel already closed.
    ChannelClosed,
    /// Request timed out.
    TimedOut,
    /// Received response error.
    Response {
        /// Error reason.
        reason: String,
    },
    /// Failed to parse response from the engine.
    FailedToParse {
        /// Error reason.
        error: String,
    },
    /// The engine did not return any data in response.
    NoData,
    /// Response conversion error, with the words of its cause.
    ResponseConversion(String),
}

/// A request error as a mathematical value.
pub enum RequestErrorView {
    /// Channel already closed.
    ChannelClosed,
    /// Request timed out.
    TimedOut,
    /// Received response error, with its reason.
    Response(Seq<char>),
    /// Failed to parse response, with the reason.
    FailedToParse(Seq<char>),
    /// No data in response.
    NoData,
    /// Response conversion error, with the words of its cause.
    ResponseConversion(Seq<char>),
}

impl View for RequestError {
    type V = RequestErrorView;

    open spec fn view(&self) -> RequestErrorView {
        match self {
            RequestError::ChannelClosed => RequestErrorView::ChannelClosed,
            RequestError::TimedOut => RequestErrorView::TimedOut,
            RequestError::Response { reason } => RequestErrorView::Response(reason@),
            RequestError::FailedToParse { error } => RequestErrorView::FailedToParse(error@),
            RequestError::NoData => RequestErrorView::NoData,
            RequestError::ResponseConversion(cause) => RequestErrorView::ResponseConversion(
                cause@,
            ),
        }
    }
}

impl RequestErrorView {
    /// The error in words.
    pub open spec fn message(self) -> Seq<char> {
        match self {
            RequestErrorView::ChannelClosed => "Channel already closed"@,
            RequestErrorView::TimedOut => "Request timed out"@,
            RequestErrorView::Response(reason) => "Received response error: "@ + reason,
            RequestErrorView::FailedToParse(error) => "Failed to parse response from worker: "@
                + error,
            RequestErrorView::NoData => "Worker did not return any data in response"@,
            RequestErrorView::ResponseConversion(cause) => "Response conversion error: "@
                + cause,
        }
    }
}

impl RequestError {
    /// The error in words.
    pub fn message(&self) -> (text: String)
        ensures
            text@ == self@.message(),
    {
        match self {
            RequestError::ChannelClosed => String::from_str("Channel already closed"),
            RequestError::TimedOut => String::from_str("Request timed out"),
            RequestError::Response { reason } => joined(
                "Received response error: ",
                reason.as_str(),
            ),
            RequestError::FailedToParse { error } => joined(
                "Failed to parse response from worker: ",
                error.as_str(),
            ),
            RequestError::NoData => String::from_str(
                "Worker did not return any data in response",
            ),
            RequestError::ResponseConversion(cause) => joined(
                "Response conversion error: ",
                cause.as_str(),
            ),
        }
    }
}

/// What the engine answered to a request.
#[derive(Debug, PartialEq, Eq)]
pub enum ResponseOutcome {
    /// The request was carried out; a body may come with the answer.
    Accepted(Option<Vec<u8>>),
    /// The request was refused, for the given reason.
    Rejected(String),
}

/// The result that an answer of the engine stands for.
pub open spec fn resolution_of(outcome: ResponseOutcome) -> Result<
    Option<Seq<u8>>,
    RequestErrorView,
> {
    match outcome {
        ResponseOutcome::Accepted(Some(body)) => Ok(Some(body@)),
        ResponseOutcome::Accepted(None) => Ok(None),
        ResponseOutcome::Rejected(reason) => Err(RequestErrorView::Response(reason@)),
    }
}

/// The view of a resolved request.
pub open spec fn resolution_view(resolution: Result<Option<Vec<u8>>, RequestError>) -> Result<
    Option<Seq<u8>>,
    RequestErrorView,
> {
    match resolution {
        Ok(Some(body)) => Ok(Some(body@)),
        Ok(None) => Ok(None),
        Err(error) => Err(error@),
    }
}

/// Turns an answer of the engine into the result of the request: the body
/// of an accepted one, the reason of a refused one as an error.
pub fn resolve(outcome: ResponseOutcome) -> (resolution: Result<Option<Vec<u8>>, RequestError>)
    ensures
        resolution_view(resolution) == resolution_of(outcome),
{
    match outcome {
        ResponseOutcome::Accepted(body) => Ok(body),
        ResponseOutcome::Rejected(reason) => Err(RequestError::Response { reason }),
    }
}

/// The body of an answer where one is expected: its absence is an error.
pub fn expect_data(body: Option<Vec<u8>>) -> (data: Result<Vec<u8>, RequestError>)
    ensures
        body is Some <==> data is Ok,
        data matches Ok(bytes) ==> bytes@ == body->Some_0@,
        data matches Err(error) ==> error@ == RequestErrorView::NoData,
{
    match body {
        Some(bytes) => Ok(bytes),
        None => Err(RequestError::NoData),
    }
}

/// A request that was in flight when the transport was torn down.
#[derive(Debug, PartialEq, Eq)]
pub struct AbandonedRequest {
    /// The correlation id of the request.
    pub id: u64,
    /// The failure that the request resolves to.
    pub failure: RequestError,
}

/// The requests with the given correlation ids, each resolved as failed
/// because the channel is closed.
pub open spec fn abandonment(pending: Seq<u64>) -> Seq<AbandonedRequest> {
    pending.map_values(|id: u64| AbandonedRequest { id, failure: RequestError::ChannelClosed })
}

/// The correlation id that lies `offset` steps after `from`, counting past
/// the largest id back to zero.
pub open spec fn id_after(from: u64, offset: int) -> u64 {
    ((from as int + offset) % 0x1_0000_0000_0000_0000) as u64
}

/// The state of a correlator, as a mathematical value.
pub struct CorrelatorState {
    /// The correlation ids of the requests in flight, oldest first.
    pub pending: Seq<u64>,
    /// The id at which the search for the next free id starts.
    pub next_id: u64,
    /// Whether the transport is torn down.
    pub closed: bool,
}

impl CorrelatorState {
    /// A correlator with no request in flight, on an open transport.
    pub open spec fn initial() -> CorrelatorState {
        CorrelatorState { pending: Seq::empty(), next_id: 0, closed: false }
    }

    /// No correlation id is in flight twice.
    pub open spec fn wf(self) -> bool {
        self.pending.no_duplicates()
    }

    /// Whether `id` is the id that the next request gets: the first one at or
    /// after `next_id` that no request in flight has.
    pub open spec fn is_next_free(self, id: u64) -> bool {
        exists|offset: int|
            0 <= offset <= self.pending.len() && id == #[trigger] id_after(self.next_id, offset)
                && !self.pending.contains(id) && forall|earlier: int|
                0 <= earlier < offset ==> self.pending.contains(
                    #[trigger] id_after(self.next_id, earlier),
                )
    }
}

/// A sequence that holds each of the first `count` ids after `from` has at
/// least `count` elements.
pub proof fn lemma_ids_need_room(pending: Seq<u64>, from: u64, count: int)
    requires
        0 <= count <= 0x1_0000_0000_0000_0000,
        forall|offset: int|
            0 <= offset < count ==> pending.contains(#[trigger] id_after(from, offset)),
    ensures
        pending.len() >= count,
    decreases count,
{
    if count > 0 {
        let last = id_after(from, count - 1);
        assert(pending.contains(last));
        let at = choose|i: int| 0 <= i < pending.len() && pending[i] == last;
        let rest = pending.remove(at);
        assert forall|offset: int| 0 <= offset < count - 1 implies rest.contains(
            #[trigger] id_after(from, offset),
        ) by {
            let id = id_after(from, offset);
            assert(pending.contains(id));
            let i = choose|i: int| 0 <= i < pending.len() && pending[i] == id;
            assert(id != last);
            if i < at {
                assert(rest[i] == id);
            } else {
                assert(rest[i - 1] == id);
            }
        }
        lemma_ids_need_room(rest, from, count - 1);
    }
}

/// The next free correlation id is unique: whatever is the next free id of
/// a state is the same id.
pub proof fn lemma_next_free_is_unique(state: CorrelatorState, first: u64, second: u64)
    requires
        state.is_next_free(first),
        state.is_next_free(second),
    ensures
        first == second,
{
    let a = choose|offset: int|
        0 <= offset <= state.pending.len() && first == #[trigger] id_after(state.next_id, offset)
            && !state.pending.contains(first) && forall|earlier: int|
            0 <= earlier < offset ==> state.pending.contains(
                #[trigger] id_after(state.next_id, earlier),
            );
    let b = choose|offset: int|
        0 <= offset <= state.pending.len() && second == #[trigger] id_after(
            state.next_id,
            offset,
        ) && !state.pending.contains(second) && forall|earlier: int|
            0 <= earlier < offset ==> state.pending.contains(
                #[trigger] id_after(state.next_id, earlier),
            );
    if a < b {
        assert(state.pending.contains(id_after(state.next_id, a)));
    } else if b < a {
        assert(state.pending.contains(id_after(state.next_id, b)));
    }
}

/// Where no request in flight has the id at which the search starts, that
/// id is the next free one.
pub proof fn lemma_next_free_at_start(state: CorrelatorState, id: u64)
    requires
        state.is_next_free(id),
        !state.pending.contains(state.next_id),
    ensures
        id == state.next_id,
{
    assert(state.next_id == id_after(state.next_id, 0));
    assert(state.is_next_free(state.next_id));
    lemma_next_free_is_unique(state, id, state.next_id);
}

/// Links each outbound request to its eventual response by a correlation id.
pub struct RequestCorrelator {
    pending: Vec<u64>,
    next_id: u64,
    closed: bool,
}

impl View for RequestCorrelator {
    type V = CorrelatorState;

    closed spec fn view(&self) -> CorrelatorState {
        CorrelatorState { pending: self.pending@, next_id: self.next_id, closed: self.closed }
    }
}

impl RequestCorrelator {
    /// The invariant of the correlator: no correlation id is in flight twice.
    pub open spec fn wf(&self) -> bool {
        self@.wf()
    }

    /// A correlator with no request in flight, on an open transport.
    pub fn new() -> (correlator: Self)
        ensures
            correlator.wf(),
            correlator@ == CorrelatorState::initial(),
    {
        RequestCorrelator { pending: Vec::new(), next_id: 0, closed: false }
    }

    /// Whether the transport is torn down.
    pub fn is_closed(&self) -> (closed: bool)
        ensures
            closed == self@.closed,
    {
        self.closed
    }

    fn position(&self, id: u64) -> (found: Option<usize>)
        ensures
            found matches Some(at) ==> at < self@.pending.len() && self@.pending[at as int] == id,
            found is None ==> !self@.pending.contains(id),
    {
        let mut i: usize = 0;
        while i < self.pending.len()
            invariant
                i <= self.pending@.len(),
                forall|j: int| 0 <= j < i ==> self.pending@[j] != id,
            decreases self.pending@.len() - i,
        {
            if self.pending[i] == id {
                return Some(i);
            }
            i = i + 1;
        }
        None
    }

    /// Whether a request with this correlation id is in flight.
    pub fn is_pending(&self, id: u64) -> (pending: bool)
        ensures
            pending == self@.pending.contains(id),
    {
        self.position(id).is_some()
    }

    /// Starts a request. On an open transport it gets the next free
    /// correlation id and is in flight from then on; on a closed one it fails
    /// at once and nothing changes.
    pub fn begin(&mut self) -> (outcome: Result<u64, RequestError>)
        requires
            old(self).wf(),
        ensures
            final(self).wf(),
            old(self)@.closed <==> outcome is Err,
            outcome matches Err(error) ==> error@ == RequestErrorView::ChannelClosed
                && final(self)@ == old(self)@,
            outcome matches Ok(id) ==> old(self)@.is_next_free(id) && final(self)@
                == (CorrelatorState {
                pending: old(self)@.pending.push(id),
                next_id: id_after(id, 1),
                closed: false,
            }),
    {
        if self.closed {
            return Err(RequestError::ChannelClosed);
        }
        let from = self.next_id;
        let mut candidate = from;
        let mut offset: usize = 0;
        let in_flight = self.pending.len();
        loop
            invariant
                in_flight == self.pending@.len(),
                self.pending@ == old(self).pending@,
                self.next_id == from,
                from == old(self).next_id,
                !self.closed,
                !old(self).closed,
                old(self).wf(),
                offset <= self.pending@.len(),
                candidate == id_after(from, offset as int),
                forall|earlier: int|
                    0 <= earlier < offset ==> self.pending@.contains(
                        #[trigger] id_after(from, earlier),
                    ),
            ensures
                !self.pending@.contains(candidate),
            decreases self.pending@.len() - offset,
        {
            if self.position(candidate).is_none() {
                break ;
            }
            proof {
                assert forall|earlier: int| 0 <= earlier < offset + 1 implies self.pending@.contains(
                    #[trigger] id_after(from, earlier),
                ) by {}
                lemma_ids_need_room(self.pending@, from, offset as int + 1);
            }
            candidate = if candidate == u64::MAX {
                0
            } else {
                candidate + 1
            };
            offset = offset + 1;
        }
        proof {
            assert(old(self)@.is_next_free(candidate)) by {
                assert(candidate == id_after(old(self)@.next_id, offset as int));
            }
            assert forall|i: int, j: int|
                0 <= i < self.pending@.push(candidate).len() && 0 <= j < self.pending@.push(
                    candidate,
                ).len() && i != j implies self.pending@.push(candidate)[i] != self.pending@.push(
                candidate,
            )[j] by {
                if i < self.pending@.len() {
                    assert(self.pending@.contains(self.pending@[i]));
                }
                if j < self.pending@.len() {
                    assert(self.pending@.contains(self.pending@[j]));
                }
            }
        }
        self.pending.push(candidate);
        self.next_id = if candidate == u64::MAX {
            0
        } else {
            candidate + 1
        };
        Ok(candidate)
    }

    /// Takes in the answer to the request with correlation id `id`. Where
    /// that request is in flight it is retired and its result returned; any
    /// other answer is dropped and nothing changes.
    pub fn complete(&mut self, id: u64, outcome: ResponseOutcome) -> (resolution: Option<
        Result<Option<Vec<u8>>, RequestError>,
    >)
        requires
            old(self).wf(),
        ensures
            final(self).wf(),
            resolution is Some <==> old(self)@.pending.contains(id),
            resolution matches Some(result) ==> resolution_view(result) == resolution_of(outcome),
            !final(self)@.pending.contains(id),
            final(self)@ == (CorrelatorState {
                pending: if old(self)@.pending.contains(id) {
                    old(self)@.pending.remove(old(self)@.pending.index_of(id))
                } else {
                    old(self)@.pending
                },
                ..old(self)@
            }),
    {
        if self.retire(id) {
            Some(resolve(outcome))
        } else {
            None
        }
    }

    /// Lets the deadline of the request with correlation id `id` pass. Where
    /// that request is in flight it is retired and fails as timed out; else
    /// nothing changes.
    pub fn time_out(&mut self, id: u64) -> (failure: Option<RequestError>)
        requires
            old(self).wf(),
        ensures
            final(self).wf(),
            failure is Some <==> old(self)@.pending.contains(id),
            failure matches Some(error) ==> error@ == RequestErrorView::TimedOut,
            !final(self)@.pending.contains(id),
            final(self)@ == (CorrelatorState {
                pending: if old(self)@.pending.contains(id) {
                    old(self)@.pending.remove(old(self)@.pending.index_of(id))
                } else {
                    old(self)@.pending
                },
                ..old(self)@
            }),
    {
        if self.retire(id) {
            Some(RequestError::TimedOut)
        } else {
            None
        }
    }

    fn retire(&mut self, id: u64) -> (retired: bool)
        requires
            old(self).wf(),
        ensures
            final(self).wf(),
            retired == old(self)@.pending.contains(id),
            !final(self)@.pending.contains(id),
            final(self)@ == (CorrelatorState {
                pending: if old(self)@.pending.contains(id) {
                    old(self)@.pending.remove(old(self)@.pending.index_of(id))
                } else {
                    old(self)@.pending
                },
                ..old(self)@
            }),
    {
        match self.position(id) {
            Some(at) => {
                let ghost before = self.pending@;
                proof {
                    assert(before.contains(id));
                    let chosen = before.index_of(id);
                    assert(before[chosen] == id);
                    assert(chosen == at);
                }
                self.pending.remove(at);
                proof {
                    let after = self.pending@;
                    assert forall|i: int| 0 <= i < after.len() implies #[trigger] after[i]
                        == before[if i < at { i } else { i + 1 }] by {}
                    assert forall|i: int, j: int|
                        0 <= i < after.len() && 0 <= j < after.len() && i != j implies after[i]
                        != after[j] by {
                        assert(after[i] == before[if i < at { i } else { i + 1 }]);
                        assert(after[j] == before[if j < at { j } else { j + 1 }]);
                    }
                    assert forall|i: int| 0 <= i < after.len() implies after[i] != id by {
                        assert(after[i] == before[if i < at { i } else { i + 1 }]);
                    }
                }
                true
            },
            None => false,
        }
    }

    /// Tears the transport down. Every request in flight is abandoned: it
    /// is returned, oldest first, with the failure it resolves to, which is
    /// that the channel is closed. From now on every new request fails at
    /// once.
    pub fn close(&mut self) -> (abandoned: Vec<AbandonedRequest>)
        requires
            old(self).wf(),
        ensures
            final(self).wf(),
            abandoned@ == abandonment(old(self)@.pending),
            final(self)@ == (CorrelatorState {
                pending: Seq::empty(),
                closed: true,
                ..old(self)@
            }),
    {
        let mut abandoned: Vec<AbandonedRequest> = Vec::new();
        let mut i: usize = 0;
        assert(abandoned@ =~= abandonment(self.pending@.take(0)));
        while i < self.pending.len()
            invariant
                i <= self.pending@.len(),
                self.pending@ == old(self).pending@,
                self.next_id == old(self).next_id,
                abandoned@ == abandonment(self.pending@.take(i as int)),
            decreases self.pending@.len() - i,
        {
            let id = self.pending[i];
            assert(abandoned@.push(
                AbandonedRequest { id, failure: RequestError::ChannelClosed },
            ) =~= abandonment(self.pending@.take(i as int + 1)));
            abandoned.push(AbandonedRequest { id, failure: RequestError::ChannelClosed });
            i = i + 1;
        }
        assert(self.pending@.take(i as int) =~= self.pending@);
        self.pending.clear();
        self.closed = true;
        abandoned
    }
}

} // verus!
