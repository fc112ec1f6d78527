//! What holds of every discovery round: the laws of the round's machine.

use crate::address::PeerAddress;
use crate::discovery::{filter_fits, EventView, Phase, ReplyPolicy, RoundView};
use crate::error::BrowserErrorView;
use crate::record::RecordView;
use crate::wire::decoded;
use crate::MAX_INSTANCE_NAME_LEN;
use vstd::prelude::*;
use vstd::utf8::encode_utf8;

verus! {

/// The round after its socket was bound, broadcast was enabled on it and
/// the request was sent.
pub open spec fn after_sending<E>(
    target: PeerAddress,
    request: Seq<u8>,
    timeout_ms: u64,
    policy: ReplyPolicy,
) -> RoundView<E> {
    RoundView::<E>::start(target, request, timeout_ms, policy).step(EventView::Done).step(
        EventView::Done,
    ).step(EventView::Done)
}

/// Whether a round that awaits a reply has time left to do so: what holds
/// of every round that `start` and `step` lead to.
pub open spec fn within_deadline<E>(round: RoundView<E>) -> bool {
    round.phase == Phase::Receiving ==> round.elapsed_ms < round.timeout_ms
}

/// A name of exactly `MAX_INSTANCE_NAME_LEN` bytes can be asked for, and a
/// name of one byte more cannot.
pub proof fn lemma_name_length_bound(name: Seq<char>)
    ensures
        encode_utf8(name).len() == MAX_INSTANCE_NAME_LEN ==> filter_fits(Some(name)),
        encode_utf8(name).len() == MAX_INSTANCE_NAME_LEN + 1 ==> !filter_fits(Some(name)),
{
}

/// A round that no one answers comes to no records, and to no error:
/// after the request was sent, the wait times out, if there is any wait at
/// all, the socket is released, and the round is over.
pub proof fn lemma_silence_yields_nothing<E>(
    target: PeerAddress,
    request: Seq<u8>,
    timeout_ms: u64,
    policy: ReplyPolicy,
)
    ensures
        ({
            let sent = after_sending::<E>(target, request, timeout_ms, policy);
            let silent = if timeout_ms > 0 {
                sent.step(EventView::TimedOut)
            } else {
                sent
            };
            &&& timeout_ms > 0 ==> sent.phase == Phase::Receiving && sent.time_left()
                == timeout_ms
            &&& silent.phase == Phase::Releasing
            &&& silent.step(EventView::Done).phase == Phase::Finished
            &&& silent.step(EventView::Done).outcome() == Ok::<
                Seq<RecordView>,
                BrowserErrorView<E>,
            >(Seq::empty())
        }),
{
}

/// Where replies that cannot be decoded are set aside, such a reply leaves
/// the records of the round as they are: a round that receives one reply
/// that decodes and one that does not, in either order, comes to exactly
/// the records of the reply that decodes.
pub proof fn lemma_malformed_reply_is_set_aside<E>(
    target: PeerAddress,
    request: Seq<u8>,
    timeout_ms: u64,
    good: Seq<u8>,
    bad: Seq<u8>,
    first_ms: u64,
    second_ms: u64,
)
    requires
        decoded(good) is Ok,
        decoded(bad) is Err,
        first_ms < timeout_ms,
        second_ms < timeout_ms,
    ensures
        ({
            let sent = after_sending::<E>(target, request, timeout_ms, ReplyPolicy::SkipMalformed);
            let good_first = sent.step(
                EventView::Datagram { payload: good, elapsed_ms: first_ms },
            ).step(EventView::Datagram { payload: bad, elapsed_ms: second_ms });
            let bad_first = sent.step(
                EventView::Datagram { payload: bad, elapsed_ms: first_ms },
            ).step(EventView::Datagram { payload: good, elapsed_ms: second_ms });
            let expected = Ok::<Seq<RecordView>, BrowserErrorView<E>>(decoded(good)->Ok_0);
            &&& good_first.step(EventView::TimedOut).step(EventView::Done).phase == Phase::Finished
            &&& good_first.step(EventView::TimedOut).step(EventView::Done).outcome() == expected
            &&& good_first.rejected == seq![decoded(bad)->Err_0]
            &&& bad_first.step(EventView::TimedOut).step(EventView::Done).phase == Phase::Finished
            &&& bad_first.step(EventView::TimedOut).step(EventView::Done).outcome() == expected
            &&& bad_first.rejected == seq![decoded(bad)->Err_0]
        }),
{
    let sent = after_sending::<E>(target, request, timeout_ms, ReplyPolicy::SkipMalformed);
    assert(sent.records + decoded(good)->Ok_0 =~= decoded(good)->Ok_0);
    assert(sent.rejected.push(decoded(bad)->Err_0) =~= seq![decoded(bad)->Err_0]);
}

/// Where a reply that cannot be decoded ends the round, the round fails
/// with the error of that reply, after its socket was released.
pub proof fn lemma_malformed_reply_ends_round<E>(round: RoundView<E>, bad: Seq<u8>, elapsed_ms: u64)
    requires
        round.phase == Phase::Receiving,
        round.policy == ReplyPolicy::AbortOnMalformed,
        decoded(bad) is Err,
    ensures
        ({
            let after = round.step(EventView::Datagram { payload: bad, elapsed_ms });
            &&& after.phase == Phase::Releasing
            &&& after.step(EventView::Done).phase == Phase::Finished
            &&& after.step(EventView::Done).outcome() == Err::<
                Seq<RecordView>,
                BrowserErrorView<E>,
            >(BrowserErrorView::ProtocolError(decoded(bad)->Err_0))
        }),
{
}

/// A reply that decodes adds its records after those that the round holds,
/// and changes nothing else but the time and, at the deadline, the phase.
pub proof fn lemma_records_in_order_of_arrival<E>(
    round: RoundView<E>,
    reply: Seq<u8>,
    elapsed_ms: u64,
)
    requires
        round.phase == Phase::Receiving,
        decoded(reply) is Ok,
    ensures
        ({
            let after = round.step(EventView::Datagram { payload: reply, elapsed_ms });
            &&& after.records == round.records + decoded(reply)->Ok_0
            &&& after.rejected == round.rejected
            &&& after.failure == round.failure
            &&& after.phase == if elapsed_ms < round.timeout_ms {
                Phase::Receiving
            } else {
                Phase::Releasing
            }
        }),
{
}

/// A failure of the transport ends the round with the error of the action
/// that failed; where the round holds a socket, the socket is released
/// before the round is over.
pub proof fn lemma_transport_failure_ends_round<E>(round: RoundView<E>, cause: E)
    ensures
        ({
            let after = round.step(EventView::Failed(cause));
            let failure = Some(
                match round.phase {
                    Phase::Binding => BrowserErrorView::BindFailed(cause),
                    Phase::EnablingBroadcast => BrowserErrorView::SetBroadcastFailed(cause),
                    Phase::Sending => BrowserErrorView::SendFailed(round.target, cause),
                    _ => BrowserErrorView::ReceiveFailed(cause),
                },
            );
            match round.phase {
                Phase::Binding => after.phase == Phase::Finished && after.failure == failure,
                Phase::EnablingBroadcast | Phase::Sending | Phase::Receiving => after.phase
                    == Phase::Releasing && after.failure == failure,
                Phase::Releasing | Phase::Finished => after == round,
            }
        }),
{
}

/// No round is over while it holds a socket: a step gives up the socket
/// only when the socket was released, and no step but that one and the
/// failure to bind ends a round.
pub proof fn lemma_socket_is_released<E>(round: RoundView<E>, event: EventView<E>)
    ensures
        !round.step(event).holds_socket() && round.holds_socket() ==> round.phase
            == Phase::Releasing && event is Done,
        round.step(event).phase == Phase::Finished && round.phase != Phase::Finished ==> (
        round.phase == Phase::Releasing && event is Done) || (round.phase == Phase::Binding
            && event is Failed),
        round.step(event).holds_socket() && !round.holds_socket() ==> round.phase
            == Phase::Binding && event is Done,
{
}

/// The one deadline of a round holds from the first wait to the last: a round
/// that awaits a reply has time left, never more than the round was given,
/// and a datagram that comes in at or after the deadline is the last.
pub proof fn lemma_deadline_is_kept<E>(round: RoundView<E>, event: EventView<E>)
    requires
        within_deadline(round),
    ensures
        within_deadline(round.step(event)),
        round.step(event).phase == Phase::Receiving ==> 0 < round.step(event).time_left()
            <= round.timeout_ms,
        round.phase == Phase::Receiving && event is Datagram && event->elapsed_ms
            >= round.timeout_ms ==> round.step(event).phase == Phase::Releasing,
{
}

/// A round starts within its deadline, with nothing received and nothing
/// held, and its first action is to bind.
pub proof fn lemma_start_is_within_deadline<E>(
    target: PeerAddress,
    request: Seq<u8>,
    timeout_ms: u64,
    policy: ReplyPolicy,
)
    ensures
        within_deadline(RoundView::<E>::start(target, request, timeout_ms, policy)),
        !RoundView::<E>::start(target, request, timeout_ms, policy).holds_socket(),
        RoundView::<E>::start(target, request, timeout_ms, policy).action()
            == crate::discovery::Action::Bind,
{
}

/// What a round was given at its start stays as it is: no event changes
/// the target, the request, the time that the round may take or its policy.
pub proof fn lemma_round_keeps_what_it_was_given<E>(round: RoundView<E>, event: EventView<E>)
    ensures
        round.step(event).target == round.target,
        round.step(event).request == round.request,
        round.step(event).timeout_ms == round.timeout_ms,
        round.step(event).policy == round.policy,
{
}

/// What a round has received is never lost: the records before a step are
/// the first records after it, and so are the errors that were set aside.
pub proof fn lemma_round_keeps_what_it_received<E>(round: RoundView<E>, event: EventView<E>)
    ensures
        round.records.is_prefix_of(round.step(event).records),
        round.rejected.is_prefix_of(round.step(event).rejected),
{
}

/// An event that does not answer the action that is due changes nothing.
pub proof fn lemma_stray_event_is_ignored<E>(round: RoundView<E>, event: EventView<E>)
    requires
        match round.phase {
            Phase::Binding | Phase::EnablingBroadcast | Phase::Sending => !(event is Done
                || event is Failed),
            Phase::Receiving => event is Done,
            Phase::Releasing => !(event is Done),
            Phase::Finished => true,
        },
    ensures
        round.step(event) == round,
{
}

} // verus!
