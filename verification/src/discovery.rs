//! One discovery round, as a machine that decides and does no I/O.
//!
//! A round binds a socket, enables broadcast on it, sends one request and
//! then receives replies until its deadline; whatever ends the round, the
//! socket is released before the round finishes. The machine holds the
//! state of the round. It names the action that is due, takes the event in
//! which that action ended and names the next action. The caller performs
//! the actions. An event that does not answer the action that is due
//! changes nothing, and the same action stays due.
//!
//! A reply that cannot be decoded is handled as the policy of the round
//! says: it is set aside and the round goes on, or it ends the round.

use crate::address::PeerAddress;
use crate::decoder::{decode, outcome_view};
use crate::error::{BrowserError, BrowserErrorView, BrowserProtocolError, ProtocolErrorView};
use crate::record::{records_view, InstanceRecord, RecordView};
use crate::wire::decoded;
use crate::MAX_INSTANCE_NAME_LEN;
use vstd::prelude::*;
use vstd::string::*;
use vstd::utf8::encode_utf8;

verus! {

/// The first byte of a request for every instance.
pub const REQUEST_ALL_INSTANCES: u8 = 0x02;

/// The first byte of a request for the instance whose name follows it.
pub const REQUEST_ONE_INSTANCE: u8 = 0x04;

/// What a round does with a reply that cannot be decoded.
#[derive(Debug, Clone, Copy, PartialEq, Eq, Structural)]
pub enum ReplyPolicy {
    /// The reply is set aside and the round goes on
    SkipMalformed,
    /// The reply ends the round, which fails with the reply's error
    AbortOnMalformed,
}

/// Where a round stands.
#[derive(Debug, Clone, Copy, PartialEq, Eq, Structural)]
pub enum Phase {
    /// The socket is to be bound
    Binding,
    /// Broadcast is to be enabled on the socket
    EnablingBroadcast,
    /// The request is to be sent
    Sending,
    /// A reply is awaited
    Receiving,
    /// The socket is to be released
    Releasing,
    /// The round is over
    Finished,
}

/// What the caller is to do next.
#[derive(Debug, Clone, Copy, PartialEq, Eq)]
pub enum Action {
    /// Bind a socket to an ephemeral local endpoint
    Bind,
    /// Enable broadcast on the socket
    EnableBroadcast,
    /// Send the request of the round to its target
    Send,
    /// Wait for one datagram, for no longer than `wait_ms` milliseconds
    Receive { wait_ms: u64 },
    /// Release the socket, which cannot fail
    Release,
    /// Take the outcome of the round
    Finish,
}

/// How an action ended.
#[derive(Debug)]
pub enum Event<E> {
    /// The action was performed
    Done,
    /// The transport failed to perform the action
    Failed(E),
    /// A datagram came in, `elapsed_ms` milliseconds after the request
    /// was sent
    Datagram { payload: Vec<u8>, elapsed_ms: u64 },
    /// No datagram came in before the wait was over
    TimedOut,
}

/// What an event is, its datagram taken as a sequence of bytes.
pub ghost enum EventView<E> {
    Done,
    Failed(E),
    Datagram { payload: Seq<u8>, elapsed_ms: u64 },
    TimedOut,
}

impl<E> View for Event<E> {
    type V = EventView<E>;

    open spec fn view(&self) -> EventView<E> {
        match self {
            Event::Done => EventView::Done,
            Event::Failed(e) => EventView::Failed(*e),
            Event::Datagram { payload, elapsed_ms } => EventView::Datagram {
                payload: payload@,
                elapsed_ms: *elapsed_ms,
            },
            Event::TimedOut => EventView::TimedOut,
        }
    }
}

/// Whether the name that a round is to ask for, if it asks for one, is
/// short enough to be sent.
pub open spec fn filter_fits(filter: Option<Seq<char>>) -> bool {
    match filter {
        None => true,
        Some(name) => encode_utf8(name).len() <= MAX_INSTANCE_NAME_LEN,
    }
}

/// The request datagram: one byte that says what is asked for and, where
/// one instance is asked for, the bytes of its name.
pub open spec fn request_bytes(filter: Option<Seq<char>>) -> Seq<u8> {
    match filter {
        None => seq![REQUEST_ALL_INSTANCES],
        Some(name) => seq![REQUEST_ONE_INSTANCE] + encode_utf8(name),
    }
}

/// What a sequence of protocol errors is: the sequence of their views.
pub open spec fn errors_view(errors: Seq<BrowserProtocolError>) -> Seq<ProtocolErrorView> {
    errors.map_values(|e: BrowserProtocolError| e@)
}

/// The state of a round.
pub ghost struct RoundView<E> {
    /// Where the round stands
    pub phase: Phase,
    /// Where the request goes
    pub target: PeerAddress,
    /// The request
    pub request: Seq<u8>,
    /// How long replies are awaited after the request was sent
    pub timeout_ms: u64,
    /// How long after the request was sent the last datagram came in
    pub elapsed_ms: u64,
    /// What is done with a reply that cannot be decoded
    pub policy: ReplyPolicy,
    /// The records of the replies so far, in the order of their arrival
    pub records: Seq<RecordView>,
    /// The errors of the replies that were set aside, in the order of
    /// their arrival
    pub rejected: Seq<ProtocolErrorView>,
    /// The error that ends the round, if one does
    pub failure: Option<BrowserErrorView<E>>,
}

impl<E> RoundView<E> {
    /// A round before its first action.
    pub open spec fn start(
        target: PeerAddress,
        request: Seq<u8>,
        timeout_ms: u64,
        policy: ReplyPolicy,
    ) -> RoundView<E> {
        RoundView {
            phase: Phase::Binding,
            target,
            request,
            timeout_ms,
            elapsed_ms: 0,
            policy,
            records: Seq::empty(),
            rejected: Seq::empty(),
            failure: None,
        }
    }

    /// Whether the round holds a socket that is not released yet.
    pub open spec fn holds_socket(self) -> bool {
        match self.phase {
            Phase::Binding => false,
            Phase::EnablingBroadcast => true,
            Phase::Sending => true,
            Phase::Receiving => true,
            Phase::Releasing => true,
            Phase::Finished => false,
        }
    }

    /// How long the round may still wait for a reply.
    pub open spec fn time_left(self) -> u64 {
        if self.elapsed_ms < self.timeout_ms {
            (self.timeout_ms - self.elapsed_ms) as u64
        } else {
            0
        }
    }

    /// The action that is due.
    pub open spec fn action(self) -> Action {
        match self.phase {
            Phase::Binding => Action::Bind,
            Phase::EnablingBroadcast => Action::EnableBroadcast,
            Phase::Sending => Action::Send,
            Phase::Receiving => Action::Receive { wait_ms: self.time_left() },
            Phase::Releasing => Action::Release,
            Phase::Finished => Action::Finish,
        }
    }

    /// The round in another phase.
    pub open spec fn moved_to(self, phase: Phase) -> RoundView<E> {
        RoundView { phase, ..self }
    }

    /// The round, about to release its socket because of `failure`.
    pub open spec fn failed_with(self, failure: BrowserErrorView<E>) -> RoundView<E> {
        RoundView { phase: Phase::Releasing, failure: Some(failure), ..self }
    }

    /// The round `elapsed_ms` milliseconds after the request was sent: it
    /// awaits a reply while the deadline has not passed, and releases its
    /// socket from then on.
    pub open spec fn waiting_at(self, elapsed_ms: u64) -> RoundView<E> {
        if elapsed_ms >= self.timeout_ms {
            RoundView { phase: Phase::Releasing, elapsed_ms, ..self }
        } else {
            RoundView { phase: Phase::Receiving, elapsed_ms, ..self }
        }
    }

    /// The round after the datagram `payload` came in.
    pub open spec fn received(self, payload: Seq<u8>, elapsed_ms: u64) -> RoundView<E> {
        match decoded(payload) {
            Ok(found) => (RoundView { records: self.records + found, ..self }).waiting_at(
                elapsed_ms,
            ),
            Err(e) => match self.policy {
                ReplyPolicy::SkipMalformed => (RoundView {
                    rejected: self.rejected.push(e),
                    ..self
                }).waiting_at(elapsed_ms),
                ReplyPolicy::AbortOnMalformed => self.failed_with(
                    BrowserErrorView::ProtocolError(e),
                ),
            },
        }
    }

    /// The round after `event`.
    pub open spec fn step(self, event: EventView<E>) -> RoundView<E> {
        match self.phase {
            Phase::Binding => match event {
                EventView::Done => self.moved_to(Phase::EnablingBroadcast),
                EventView::Failed(e) => RoundView {
                    phase: Phase::Finished,
                    failure: Some(BrowserErrorView::BindFailed(e)),
                    ..self
                },
                _ => self,
            },
            Phase::EnablingBroadcast => match event {
                EventView::Done => self.moved_to(Phase::Sending),
                EventView::Failed(e) => self.failed_with(BrowserErrorView::SetBroadcastFailed(e)),
                _ => self,
            },
            Phase::Sending => match event {
                EventView::Done => self.waiting_at(0),
                EventView::Failed(e) => self.failed_with(
                    BrowserErrorView::SendFailed(self.target, e),
                ),
                _ => self,
            },
            Phase::Receiving => match event {
                EventView::Datagram { payload, elapsed_ms } => self.received(payload, elapsed_ms),
                EventView::TimedOut => self.moved_to(Phase::Releasing),
                EventView::Failed(e) => self.failed_with(BrowserErrorView::ReceiveFailed(e)),
                EventView::Done => self,
            },
            Phase::Releasing => match event {
                EventView::Done => self.moved_to(Phase::Finished),
                _ => self,
            },
            Phase::Finished => self,
        }
    }

    /// What the round comes to: the error that ended it, or else the
    /// records of its replies.
    pub open spec fn outcome(self) -> Result<Seq<RecordView>, BrowserErrorView<E>> {
        match self.failure {
            Some(e) => Err(e),
            None => Ok(self.records),
        }
    }
}

/// One discovery round.
#[derive(Debug)]
pub struct Discovery<E> {
    phase: Phase,
    target: PeerAddress,
    request: Vec<u8>,
    timeout_ms: u64,
    elapsed_ms: u64,
    policy: ReplyPolicy,
    records: Vec<InstanceRecord>,
    rejected: Vec<BrowserProtocolError>,
    failure: Option<BrowserError<E>>,
}

impl<E> View for Discovery<E> {
    type V = RoundView<E>;

    closed spec fn view(&self) -> RoundView<E> {
        RoundView {
            phase: self.phase,
            target: self.target,
            request: self.request@,
            timeout_ms: self.timeout_ms,
            elapsed_ms: self.elapsed_ms,
            policy: self.policy,
            records: records_view(self.records@),
            rejected: errors_view(self.rejected@),
            failure: match self.failure {
                Some(e) => Some(e@),
                None => None,
            },
        }
    }
}

/// What the outcome of a round is, its records and its error taken by
/// their views.
pub open spec fn round_outcome_view<E>(
    r: Result<Vec<InstanceRecord>, BrowserError<E>>,
) -> Result<Seq<RecordView>, BrowserErrorView<E>> {
    match r {
        Ok(found) => Ok(records_view(found@)),
        Err(e) => Err(e@),
    }
}

/// The view of an optional name.
pub open spec fn filter_view(filter: Option<&str>) -> Option<Seq<char>> {
    match filter {
        Some(name) => Some(name@),
        None => None,
    }
}

/// The request datagram for `filter`, or `None` where the name is longer
/// than `MAX_INSTANCE_NAME_LEN` bytes.
pub fn request_datagram(filter: Option<&str>) -> (r: Option<Vec<u8>>)
    ensures
        r is Some <==> filter_fits(filter_view(filter)),
        r is Some ==> r->0@ == request_bytes(filter_view(filter)),
{
    match filter {
        None => {
            let mut request: Vec<u8> = Vec::new();
            request.push(REQUEST_ALL_INSTANCES);
            assert(request@ =~= request_bytes(filter_view(filter)));
            Some(request)
        },
        Some(name) => {
            let bytes = name.as_bytes();
            if bytes.len() > MAX_INSTANCE_NAME_LEN {
                None
            } else {
                let mut request: Vec<u8> = Vec::new();
                request.push(REQUEST_ONE_INSTANCE);
                request.extend_from_slice(bytes);
                assert(request@ =~= request_bytes(filter_view(filter)));
                Some(request)
            }
        },
    }
}

impl<E> Discovery<E> {
    /// Prepares a round that asks `target` for every instance, or for the
    /// instance named `filter`, and awaits replies for `timeout_ms`
    /// milliseconds. A name of more than `MAX_INSTANCE_NAME_LEN` bytes is
    /// refused with `InstanceNameTooLong`, before any action is due.
    pub fn begin(
        target: PeerAddress,
        filter: Option<&str>,
        timeout_ms: u64,
        policy: ReplyPolicy,
    ) -> (r: Result<Discovery<E>, BrowserError<E>>)
        ensures
            match r {
                Ok(round) => filter_fits(filter_view(filter)) && round@ == RoundView::<E>::start(
                    target,
                    request_bytes(filter_view(filter)),
                    timeout_ms,
                    policy,
                ),
                Err(e) => !filter_fits(filter_view(filter)) && e
                    == BrowserError::<E>::InstanceNameTooLong,
            },
    {
        match request_datagram(filter) {
            None => Err(BrowserError::InstanceNameTooLong),
            Some(request) => {
                let round = Discovery {
                    phase: Phase::Binding,
                    target,
                    request,
                    timeout_ms,
                    elapsed_ms: 0,
                    policy,
                    records: Vec::new(),
                    rejected: Vec::new(),
                    failure: None,
                };
                assert(round@.records =~= Seq::<RecordView>::empty());
                assert(round@.rejected =~= Seq::<ProtocolErrorView>::empty());
                Ok(round)
            },
        }
    }

    /// Where the round stands.
    pub fn phase(&self) -> (p: Phase)
        ensures
            p == self@.phase,
    {
        self.phase
    }

    /// Where the request goes.
    pub fn target(&self) -> (t: PeerAddress)
        ensures
            t == self@.target,
    {
        self.target
    }

    /// The request datagram.
    pub fn request(&self) -> (r: &[u8])
        ensures
            r@ == self@.request,
    {
        self.request.as_slice()
    }

    /// The errors of the replies that were set aside, in the order of
    /// their arrival.
    pub fn rejected(&self) -> (r: &[BrowserProtocolError])
        ensures
            errors_view(r@) == self@.rejected,
    {
        self.rejected.as_slice()
    }

    /// The action that is due.
    pub fn action(&self) -> (a: Action)
        ensures
            a == self@.action(),
    {
        match self.phase {
            Phase::Binding => Action::Bind,
            Phase::EnablingBroadcast => Action::EnableBroadcast,
            Phase::Sending => Action::Send,
            Phase::Receiving => {
                let wait_ms: u64 = if self.elapsed_ms < self.timeout_ms {
                    self.timeout_ms - self.elapsed_ms
                } else {
                    0
                };
                Action::Receive { wait_ms }
            },
            Phase::Releasing => Action::Release,
            Phase::Finished => Action::Finish,
        }
    }

    /// Ends the round with `failure`, after its socket is released.
    fn fail_with(&mut self, failure: BrowserError<E>)
        ensures
            final(self)@ == old(self)@.failed_with(failure@),
    {
        self.phase = Phase::Releasing;
        self.failure = Some(failure);
    }

    /// Notes the time, and awaits a reply or, at the deadline, stops.
    fn wait_at(&mut self, elapsed_ms: u64)
        ensures
            final(self)@ == old(self)@.waiting_at(elapsed_ms),
    {
        self.elapsed_ms = elapsed_ms;
        if elapsed_ms >= self.timeout_ms {
            self.phase = Phase::Releasing;
        } else {
            self.phase = Phase::Receiving;
        }
    }

    /// Decodes one datagram and keeps its records or deals with its error.
    fn receive(&mut self, payload: &[u8], elapsed_ms: u64)
        ensures
            final(self)@ == old(self)@.received(payload@, elapsed_ms),
    {
        let reply = decode(payload);
        assert(outcome_view(reply) == decoded(payload@));
        match reply {
            Ok(mut found) => {
                proof {
                    assert(records_view(self.records@ + found@) =~= records_view(self.records@)
                        + records_view(found@));
                }
                self.records.append(&mut found);
                self.wait_at(elapsed_ms);
            },
            Err(e) => match self.policy {
                ReplyPolicy::SkipMalformed => {
                    proof {
                        assert(errors_view(self.rejected@.push(e)) =~= errors_view(
                            self.rejected@,
                        ).push(e@));
                    }
                    self.rejected.push(e);
                    self.wait_at(elapsed_ms);
                },
                ReplyPolicy::AbortOnMalformed => {
                    self.fail_with(BrowserError::ProtocolError(e));
                },
            },
        }
    }

    /// Takes the event in which the action that was due ended, and names
    /// the action that is due after it.
    pub fn step(&mut self, event: Event<E>) -> (a: Action)
        ensures
            final(self)@ == old(self)@.step(event@),
            a == final(self)@.action(),
    {
        match self.phase {
            Phase::Binding => match event {
                Event::Done => {
                    self.phase = Phase::EnablingBroadcast;
                },
                Event::Failed(e) => {
                    self.phase = Phase::Finished;
                    self.failure = Some(BrowserError::BindFailed(e));
                },
                _ => {},
            },
            Phase::EnablingBroadcast => match event {
                Event::Done => {
                    self.phase = Phase::Sending;
                },
                Event::Failed(e) => {
                    self.fail_with(BrowserError::SetBroadcastFailed(e));
                },
                _ => {},
            },
            Phase::Sending => match event {
                Event::Done => {
                    self.wait_at(0);
                },
                Event::Failed(e) => {
                    let target = self.target;
                    self.fail_with(BrowserError::SendFailed(target, e));
                },
                _ => {},
            },
            Phase::Receiving => match event {
                Event::Datagram { payload, elapsed_ms } => {
                    self.receive(payload.as_slice(), elapsed_ms);
                },
                Event::TimedOut => {
                    self.phase = Phase::Releasing;
                },
                Event::Failed(e) => {
                    self.fail_with(BrowserError::ReceiveFailed(e));
                },
                Event::Done => {},
            },
            Phase::Releasing => match event {
                Event::Done => {
                    self.phase = Phase::Finished;
                },
                _ => {},
            },
            Phase::Finished => {},
        }
        self.action()
    }

    /// What the round comes to: the error that ended it, or else the
    /// records of its replies in the order of their arrival.
    pub fn into_outcome(self) -> (r: Result<Vec<InstanceRecord>, BrowserError<E>>)
        ensures
            round_outcome_view(r) == self@.outcome(),
    {
        match self.failure {
            Some(e) => Err(e),
            None => Ok(self.records),
        }
    }
}

} // verus!
