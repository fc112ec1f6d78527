use mssql_browser::address::{HostAddress, PeerAddress};
use mssql_browser::discovery::{
    request_datagram, Action, Discovery, Event, Phase, ReplyPolicy, REQUEST_ALL_INSTANCES,
    REQUEST_ONE_INSTANCE,
};
use mssql_browser::{
    decode, BrowserError, BrowserProtocolError, BrowserProtocolField, BrowserProtocolToken,
    MAX_INSTANCE_NAME_LEN,
};

type Round = Discovery<&'static str>;

fn broadcast() -> PeerAddress {
    PeerAddress { host: HostAddress::V4([192, 168, 1, 255]), port: 1434 }
}

fn datagram_of(body: &[u8]) -> Vec<u8> {
    let mut datagram = vec![0x05, (body.len() % 256) as u8, (body.len() / 256) as u8];
    datagram.extend_from_slice(body);
    datagram
}

fn well_formed() -> Vec<u8> {
    let mut body = Vec::new();
    body.extend_from_slice(b"SQLHOST;");
    body.push(0x02);
    body.extend_from_slice(b"SQLEXPRESS;");
    body.extend_from_slice(&[0x06, 0x99, 0x05]);
    body.push(0x00);
    datagram_of(&body)
}

fn malformed() -> Vec<u8> {
    datagram_of(&[b'X', b';', 0x7E])
}

fn malformed_error() -> BrowserProtocolError {
    BrowserProtocolError::UnexpectedToken {
        expected: BrowserProtocolToken::Identifier(BrowserProtocolField::InstanceName),
        found: BrowserProtocolToken::MessageIdentifier(0x7E),
    }
}

fn arrived(payload: Vec<u8>, elapsed_ms: u64) -> Event<&'static str> {
    Event::Datagram { payload, elapsed_ms }
}

/// A round that has sent its request and awaits the first reply.
fn receiving(timeout_ms: u64, policy: ReplyPolicy) -> Round {
    let mut round = Round::begin(broadcast(), None, timeout_ms, policy).unwrap();
    assert_eq!(round.action(), Action::Bind);
    assert_eq!(round.step(Event::Done), Action::EnableBroadcast);
    assert_eq!(round.step(Event::Done), Action::Send);
    assert_eq!(round.step(Event::Done), Action::Receive { wait_ms: timeout_ms });
    round
}

#[test]
fn request_for_all_instances_is_one_byte() {
    assert_eq!(request_datagram(None), Some(vec![0x02]));
    assert_eq!(REQUEST_ALL_INSTANCES, 0x02);
    let round = Round::begin(broadcast(), None, 1000, ReplyPolicy::SkipMalformed).unwrap();
    assert_eq!(round.request(), &[0x02]);
    assert_eq!(round.target(), broadcast());
    assert_eq!(round.phase(), Phase::Binding);
}

#[test]
fn request_for_one_instance_holds_its_name() {
    assert_eq!(request_datagram(Some("SQLEXPRESS")), Some(b"\x04SQLEXPRESS".to_vec()));
    assert_eq!(request_datagram(Some("")), Some(vec![REQUEST_ONE_INSTANCE]));
    assert_eq!(request_datagram(Some("é")), Some(vec![0x04, 0xC3, 0xA9]));
    let round =
        Round::begin(broadcast(), Some("PAYROLL"), 1000, ReplyPolicy::SkipMalformed).unwrap();
    assert_eq!(round.request(), b"\x04PAYROLL");
}

#[test]
fn name_of_the_greatest_length_is_accepted() {
    let name = "N".repeat(MAX_INSTANCE_NAME_LEN);
    let request = request_datagram(Some(&name)).unwrap();
    assert_eq!(request.len(), MAX_INSTANCE_NAME_LEN + 1);
    assert_eq!(&request[1..], name.as_bytes());
    let round = Round::begin(broadcast(), Some(&name), 10, ReplyPolicy::SkipMalformed).unwrap();
    assert_eq!(round.action(), Action::Bind);
}

#[test]
fn name_that_is_one_byte_longer_is_refused() {
    let name = "N".repeat(MAX_INSTANCE_NAME_LEN + 1);
    assert_eq!(request_datagram(Some(&name)), None);
    let refused = Round::begin(broadcast(), Some(&name), 10, ReplyPolicy::SkipMalformed);
    assert_eq!(refused.unwrap_err(), BrowserError::InstanceNameTooLong);
}

#[test]
fn the_length_of_a_name_is_counted_in_bytes() {
    // sixteen characters of two bytes each fit, and one byte more does not
    let fits = "é".repeat(16);
    assert_eq!(fits.chars().count(), 16);
    assert!(request_datagram(Some(&fits)).is_some());
    let too_long = format!("{}x", fits);
    assert_eq!(too_long.chars().count(), 17);
    assert!(request_datagram(Some(&too_long)).is_none());
    let refused = Round::begin(broadcast(), Some(&too_long), 10, ReplyPolicy::AbortOnMalformed);
    assert!(matches!(refused, Err(BrowserError::InstanceNameTooLong)));
}

#[test]
fn no_responders_give_an_empty_result() {
    let mut round = receiving(250, ReplyPolicy::SkipMalformed);
    assert_eq!(round.phase(), Phase::Receiving);
    assert_eq!(round.step(Event::TimedOut), Action::Release);
    assert_eq!(round.phase(), Phase::Releasing);
    assert_eq!(round.step(Event::Done), Action::Finish);
    assert_eq!(round.phase(), Phase::Finished);
    assert!(round.rejected().is_empty());
    assert_eq!(round.into_outcome(), Ok(vec![]));
}

#[test]
fn a_round_without_time_does_not_wait() {
    let mut round = Round::begin(broadcast(), None, 0, ReplyPolicy::SkipMalformed).unwrap();
    assert_eq!(round.step(Event::Done), Action::EnableBroadcast);
    assert_eq!(round.step(Event::Done), Action::Send);
    assert_eq!(round.step(Event::Done), Action::Release);
    assert_eq!(round.step(Event::Done), Action::Finish);
    assert_eq!(round.into_outcome(), Ok(vec![]));
}

#[test]
fn malformed_reply_is_skipped_and_the_good_one_kept() {
    let expected = decode(&well_formed()).unwrap();
    assert_eq!(expected.len(), 1);

    let mut round = receiving(1000, ReplyPolicy::SkipMalformed);
    assert_eq!(round.step(arrived(well_formed(), 10)), Action::Receive { wait_ms: 990 });
    assert_eq!(round.step(arrived(malformed(), 25)), Action::Receive { wait_ms: 975 });
    assert_eq!(round.step(Event::TimedOut), Action::Release);
    assert_eq!(round.step(Event::Done), Action::Finish);
    assert_eq!(round.rejected(), &[malformed_error()]);
    assert_eq!(round.into_outcome(), Ok(expected.clone()));

    let mut round = receiving(1000, ReplyPolicy::SkipMalformed);
    assert_eq!(round.step(arrived(malformed(), 10)), Action::Receive { wait_ms: 990 });
    assert_eq!(round.rejected(), &[malformed_error()]);
    assert_eq!(round.step(arrived(well_formed(), 25)), Action::Receive { wait_ms: 975 });
    assert_eq!(round.step(Event::TimedOut), Action::Release);
    assert_eq!(round.step(Event::Done), Action::Finish);
    assert_eq!(round.rejected(), &[malformed_error()]);
    assert_eq!(round.into_outcome(), Ok(expected));
}

#[test]
fn malformed_reply_ends_the_round_where_the_policy_says_so() {
    let mut round = receiving(1000, ReplyPolicy::AbortOnMalformed);
    assert_eq!(round.step(arrived(well_formed(), 10)), Action::Receive { wait_ms: 990 });
    assert_eq!(round.step(arrived(malformed(), 25)), Action::Release);
    assert_eq!(round.step(Event::Done), Action::Finish);
    assert!(round.rejected().is_empty());
    assert_eq!(round.into_outcome(), Err(BrowserError::ProtocolError(malformed_error())));
}

#[test]
fn records_are_kept_in_the_order_of_arrival() {
    let second = datagram_of(b"B1;;B2;\0");
    let mut round = receiving(1000, ReplyPolicy::SkipMalformed);
    round.step(arrived(well_formed(), 1));
    round.step(arrived(second, 2));
    round.step(arrived(well_formed(), 3));
    round.step(Event::TimedOut);
    round.step(Event::Done);
    let records = round.into_outcome().unwrap();
    let names: Vec<&str> = records
        .iter()
        .map(|r| r.text(BrowserProtocolField::ServerName).unwrap())
        .collect();
    assert_eq!(names, vec!["SQLHOST", "B1", "B2", "SQLHOST"]);
}

#[test]
fn one_deadline_covers_all_replies() {
    let mut round = receiving(100, ReplyPolicy::SkipMalformed);
    assert_eq!(round.step(arrived(well_formed(), 40)), Action::Receive { wait_ms: 60 });
    assert_eq!(round.step(arrived(well_formed(), 99)), Action::Receive { wait_ms: 1 });
    // a datagram at the deadline is taken, and is the last
    assert_eq!(round.step(arrived(well_formed(), 100)), Action::Release);
    assert_eq!(round.phase(), Phase::Releasing);
    // nothing that comes in later is taken
    assert_eq!(round.step(arrived(well_formed(), 101)), Action::Release);
    assert_eq!(round.step(Event::Done), Action::Finish);
    assert_eq!(round.into_outcome().unwrap().len(), 3);
}

#[test]
fn a_late_datagram_is_the_last() {
    let mut round = receiving(100, ReplyPolicy::SkipMalformed);
    assert_eq!(round.step(arrived(malformed(), 5000)), Action::Release);
    assert_eq!(round.rejected().len(), 1);
    assert_eq!(round.step(Event::Done), Action::Finish);
    assert_eq!(round.into_outcome(), Ok(vec![]));
}

#[test]
fn failure_to_bind_ends_the_round_at_once() {
    let mut round = Round::begin(broadcast(), None, 100, ReplyPolicy::SkipMalformed).unwrap();
    assert_eq!(round.step(Event::Failed("address in use")), Action::Finish);
    assert_eq!(round.phase(), Phase::Finished);
    assert_eq!(round.into_outcome(), Err(BrowserError::BindFailed("address in use")));
}

#[test]
fn failure_to_enable_broadcast_releases_the_socket() {
    let mut round = Round::begin(broadcast(), None, 100, ReplyPolicy::SkipMalformed).unwrap();
    round.step(Event::Done);
    assert_eq!(round.step(Event::Failed("denied")), Action::Release);
    assert_eq!(round.step(Event::Done), Action::Finish);
    assert_eq!(round.into_outcome(), Err(BrowserError::SetBroadcastFailed("denied")));
}

#[test]
fn failure_to_send_names_the_target() {
    let mut round = Round::begin(broadcast(), None, 100, ReplyPolicy::SkipMalformed).unwrap();
    round.step(Event::Done);
    round.step(Event::Done);
    assert_eq!(round.step(Event::Failed("unreachable")), Action::Release);
    assert_eq!(round.step(Event::Done), Action::Finish);
    let error = round.into_outcome().unwrap_err();
    assert_eq!(error, BrowserError::SendFailed(broadcast(), "unreachable"));
    assert_eq!(
        error.render("unreachable"),
        "sending of datagram to '192.168.1.255:1434' failed: unreachable"
    );
}

#[test]
fn failure_to_receive_ends_the_round_under_either_policy() {
    for policy in [ReplyPolicy::SkipMalformed, ReplyPolicy::AbortOnMalformed] {
        let mut round = receiving(100, policy);
        round.step(arrived(well_formed(), 10));
        assert_eq!(round.step(Event::Failed("reset")), Action::Release);
        assert_eq!(round.step(Event::Done), Action::Finish);
        assert_eq!(round.into_outcome(), Err(BrowserError::ReceiveFailed("reset")));
    }
}

#[test]
fn events_that_answer_nothing_change_nothing() {
    let mut round = Round::begin(broadcast(), None, 100, ReplyPolicy::SkipMalformed).unwrap();
    assert_eq!(round.step(Event::TimedOut), Action::Bind);
    assert_eq!(round.step(arrived(well_formed(), 1)), Action::Bind);
    assert_eq!(round.step(Event::Done), Action::EnableBroadcast);
    assert_eq!(round.step(Event::TimedOut), Action::EnableBroadcast);
    assert_eq!(round.step(Event::Done), Action::Send);
    assert_eq!(round.step(arrived(well_formed(), 1)), Action::Send);
    assert_eq!(round.step(Event::Done), Action::Receive { wait_ms: 100 });
    assert_eq!(round.step(Event::Done), Action::Receive { wait_ms: 100 });
    assert_eq!(round.step(Event::TimedOut), Action::Release);
    assert_eq!(round.step(Event::TimedOut), Action::Release);
    assert_eq!(round.step(Event::Failed("late")), Action::Release);
    assert_eq!(round.step(Event::Done), Action::Finish);
    assert_eq!(round.step(Event::Done), Action::Finish);
    assert_eq!(round.step(Event::Failed("later")), Action::Finish);
    assert_eq!(round.into_outcome(), Ok(vec![]));
}

#[test]
fn the_outcome_can_be_taken_before_the_end() {
    let mut round = receiving(100, ReplyPolicy::SkipMalformed);
    round.step(arrived(well_formed(), 10));
    assert_eq!(round.into_outcome(), Ok(decode(&well_formed()).unwrap()));
}
