use request_throttle::action::{Sending, Verdict};
use request_throttle::credit::{Credit, Grant, RequestId};
use request_throttle::limit::{Limit, PeerInfo};
use request_throttle::message::{protocol_name, Header, Message, Type, MAX_HEADER_SIZE};
use request_throttle::model::OFFLINE_PEERS;
use request_throttle::peer_id::PeerId;
use request_throttle::throttle::{Event, Throttled};

/// The peer whose id is the identity hash of the eight bytes of `n`.
fn peer(n: u64) -> PeerId {
    let mut bytes = vec![0x00, 0x08];
    bytes.extend_from_slice(&n.to_be_bytes());
    PeerId::from_bytes(bytes).unwrap()
}

fn request() -> Header {
    Message::request(()).into_parts().0
}

fn response() -> Header {
    Message::response(()).into_parts().0
}

fn credit(amount: u16, id: u64) -> Header {
    Message::<()>::credit(amount, id).into_parts().0
}

fn ack(id: u64) -> Header {
    Message::<()>::ack(id).into_parts().0
}

fn info(engine: &Throttled, peer: &PeerId) -> PeerInfo {
    engine.peer_info(peer).unwrap()
}

/// Lets `engine` take `n` requests of `from` and answer each of them, and
/// returns the grants that went with the answers.
fn serve(engine: &mut Throttled, from: &PeerId, n: usize) -> Vec<Grant> {
    let mut grants = Vec::new();
    for _ in 0..n {
        assert_eq!(engine.on_request(from, &request(), true), Verdict::Deliver);
        if let Some(grant) = engine.send_response(from) {
            grants.push(grant);
        }
    }
    grants
}

#[test]
fn limit_starts_at_one() {
    let limit = Limit::new(7);
    assert_eq!(limit, Limit { max_recv: 1, next_max: 7 });
}

#[test]
fn limit_set_changes_the_pending_limit_only() {
    let mut limit = Limit::new(7);
    limit.set(3);
    assert_eq!(limit, Limit { max_recv: 1, next_max: 3 });
}

#[test]
fn limit_switch_puts_the_pending_limit_in_force() {
    let mut limit = Limit::new(7);
    assert_eq!(limit.switch(), 7);
    assert_eq!(limit, Limit { max_recv: 7, next_max: 7 });
    limit.set(2);
    assert_eq!(limit.switch(), 2);
    assert_eq!(limit, Limit { max_recv: 2, next_max: 2 });
}

#[test]
fn peer_info_starts_with_one_each_way() {
    let info = PeerInfo::new(Limit::new(5));
    assert_eq!(
        info,
        PeerInfo {
            limit: Limit { max_recv: 1, next_max: 5 },
            send_budget: 1,
            recv_budget: 1,
            send_budget_id: None
        }
    );
}

#[test]
fn headers_carry_what_their_type_calls_for() {
    assert_eq!(request(), Header { typ: Type::Request, ident: None, credit: None });
    assert_eq!(response(), Header { typ: Type::Response, ident: None, credit: None });
    assert_eq!(credit(3, 9), Header { typ: Type::Credit, ident: Some(9), credit: Some(3) });
    assert_eq!(ack(9), Header { typ: Type::Ack, ident: Some(9), credit: None });
}

#[test]
fn messages_with_and_without_payload() {
    let message = Message::request(5u8);
    assert!(message.has_data());
    assert_eq!(*message.header(), request());
    assert_eq!(message.into_parts(), (request(), Some(5u8)));
    let grant = Message::<u8>::credit(2, 1);
    assert!(!grant.has_data());
    assert_eq!(grant.into_parts(), (credit(2, 1), None));
    let confirmation = Message::<u8>::ack(1);
    assert!(!confirmation.has_data());
    let unread = Message::<u8>::from_parts(response(), None);
    assert!(!unread.has_data());
    assert_eq!(*unread.header(), response());
}

#[test]
fn protocol_name_is_prefixed() {
    assert_eq!(protocol_name(b"/ping/1"), b"/t/1/ping/1".to_vec());
    assert_eq!(protocol_name(b""), b"/t/1".to_vec());
    assert_eq!(MAX_HEADER_SIZE, 8192);
}

#[test]
fn new_engine_knows_no_peer() {
    let mut engine = Throttled::new();
    let a = peer(1);
    assert_eq!(engine.peer_info(&a), None);
    assert_eq!(engine.credit_in_flight(&a), None);
    assert!(engine.can_send(&a));
    assert!(engine.can_grant());
    assert_eq!(engine.next_event(), None);
}

#[test]
fn initial_exchange() {
    let (a, b) = (peer(1), peer(2));
    let mut at_a = Throttled::new();
    let mut at_b = Throttled::new();
    assert_eq!(at_a.inject_connected(&b), None);
    assert_eq!(at_b.inject_connected(&a), None);

    assert_eq!(at_a.send_request(&b), Sending { grant: None, allowed: true });
    assert_eq!(info(&at_a, &b).send_budget, 0);
    assert!(!at_a.can_send(&b));

    assert_eq!(info(&at_b, &a).recv_budget, 1);
    assert_eq!(at_b.on_request(&a, &request(), true), Verdict::Deliver);
    assert_eq!(info(&at_b, &a).recv_budget, 0);

    let grant = at_b.send_response(&a).unwrap();
    assert_eq!(grant, Grant { id: 0, amount: 1 });
    assert_eq!(info(&at_b, &a).recv_budget, 1);
    at_b.credit_submitted(&a, grant.id, RequestId(40));
    assert_eq!(
        at_b.credit_in_flight(&a),
        Some(Credit { id: 0, request: Some(RequestId(40)), amount: 1 })
    );

    assert_eq!(at_a.on_response(&b, &response(), true), Verdict::Deliver);
    assert_eq!(at_a.on_request(&b, &credit(grant.amount, grant.id), false), Verdict::Ack { ident: 0 });
    assert_eq!(info(&at_a, &b).send_budget, 1);
    assert_eq!(info(&at_a, &b).send_budget_id, Some(0));
    assert_eq!(at_a.next_event(), Some(Event::ResumeSending(b.clone())));
    assert_eq!(at_a.next_event(), None);

    assert_eq!(at_b.on_response(&a, &ack(0), false), Verdict::Drop);
    assert_eq!(at_b.credit_in_flight(&a), None);

    assert!(at_a.can_send(&b));
    assert_eq!(at_a.send_request(&b), Sending { grant: None, allowed: true });
}

#[test]
fn raise_limit_mid_flight() {
    let (a, b) = (peer(1), peer(2));
    let mut at_a = Throttled::new();
    let mut at_b = Throttled::new();
    at_a.inject_connected(&b);
    at_b.inject_connected(&a);
    at_b.override_receive_limit(&a, 4);
    assert_eq!(info(&at_b, &a).limit, Limit { max_recv: 1, next_max: 4 });

    assert!(at_a.send_request(&b).allowed);
    assert_eq!(at_b.on_request(&a, &request(), true), Verdict::Deliver);
    let grant = at_b.send_response(&a).unwrap();
    assert_eq!(grant, Grant { id: 0, amount: 4 });
    assert_eq!(info(&at_b, &a).limit, Limit { max_recv: 4, next_max: 4 });
    assert_eq!(info(&at_b, &a).recv_budget, 4);

    assert_eq!(at_a.on_request(&b, &credit(grant.amount, grant.id), false), Verdict::Ack { ident: 0 });
    assert_eq!(info(&at_a, &b).send_budget, 4);
}

#[test]
fn overflow() {
    let (a, b) = (peer(1), peer(2));
    let mut at_b = Throttled::new();
    at_b.set_receive_limit(2);
    at_b.inject_connected(&a);
    assert_eq!(serve(&mut at_b, &a, 1), vec![Grant { id: 0, amount: 2 }]);
    assert_eq!(info(&at_b, &a).recv_budget, 2);

    assert_eq!(at_b.on_request(&a, &request(), true), Verdict::Deliver);
    assert_eq!(at_b.on_request(&a, &request(), true), Verdict::Deliver);
    assert_eq!(at_b.next_event(), None);
    assert_eq!(at_b.on_request(&a, &request(), true), Verdict::Drop);
    assert_eq!(at_b.next_event(), Some(Event::TooManyInboundRequests(a.clone())));
    assert_eq!(at_b.next_event(), None);
    assert_eq!(info(&at_b, &a).recv_budget, 0);
    let _ = b;
}

#[test]
fn grant_retry_after_failure_keeps_the_id() {
    let a = peer(1);
    let mut at_b = Throttled::new();
    at_b.set_receive_limit(5);
    at_b.inject_connected(&a);
    let grant = serve(&mut at_b, &a, 1)[0];
    assert_eq!(grant, Grant { id: 0, amount: 5 });
    at_b.credit_submitted(&a, grant.id, RequestId(7));

    assert_eq!(at_b.on_outbound_failure(&a, RequestId(8)), None);
    assert_eq!(at_b.on_outbound_failure(&a, RequestId(7)), Some(grant));
    assert_eq!(at_b.credit_in_flight(&a), Some(Credit { id: 0, request: None, amount: 5 }));
    assert_eq!(at_b.on_outbound_failure(&a, RequestId(7)), None);
    at_b.credit_submitted(&a, grant.id, RequestId(9));
    assert_eq!(at_b.on_outbound_failure(&a, RequestId(9)), Some(grant));
}

#[test]
fn grant_retry_across_disconnect() {
    let (a, b) = (peer(1), peer(2));
    let mut at_a = Throttled::new();
    let mut at_b = Throttled::new();
    at_b.set_receive_limit(5);
    at_a.inject_connected(&b);
    at_b.inject_connected(&a);
    assert!(at_a.send_request(&b).allowed);
    let grant = serve(&mut at_b, &a, 1)[0];
    assert_eq!(grant, Grant { id: 0, amount: 5 });
    at_b.credit_submitted(&a, grant.id, RequestId(1));

    // One of two connections closes before the ack: the grant goes out again.
    let again = at_b.inject_connection_closed(&a, true).unwrap();
    assert_eq!(again, grant);
    at_b.credit_submitted(&a, again.id, RequestId(2));
    assert_eq!(at_b.inject_connection_closed(&a, false), None);

    // Both copies arrive: the first is applied, the second only acked.
    let header = credit(grant.amount, grant.id);
    assert_eq!(at_a.on_request(&b, &header, false), Verdict::Ack { ident: 0 });
    assert_eq!(info(&at_a, &b).send_budget, 5);
    assert_eq!(at_a.on_request(&b, &header, false), Verdict::Ack { ident: 0 });
    assert_eq!(info(&at_a, &b).send_budget, 5);
    assert_eq!(at_a.next_event(), Some(Event::ResumeSending(b.clone())));
    assert_eq!(at_a.next_event(), None);
}

#[test]
fn connection_closed_without_a_grant_under_way() {
    let a = peer(1);
    let mut engine = Throttled::new();
    engine.inject_connected(&a);
    assert_eq!(engine.inject_connection_closed(&a, true), None);
}

#[test]
fn offline_cache_round_trip() {
    let a = peer(1);
    let mut at_b = Throttled::new();
    at_b.set_receive_limit(4);
    at_b.inject_connected(&a);
    assert_eq!(serve(&mut at_b, &a, 1), vec![Grant { id: 0, amount: 4 }]);
    assert_eq!(at_b.on_request(&a, &request(), true), Verdict::Deliver);
    assert_eq!(info(&at_b, &a).recv_budget, 3);

    at_b.inject_disconnected(&a);
    assert_eq!(at_b.peer_info(&a), None);
    assert_eq!(at_b.credit_in_flight(&a), None);

    assert_eq!(at_b.inject_connected(&a), Some(Grant { id: 1, amount: 2 }));
    assert_eq!(
        info(&at_b, &a),
        PeerInfo {
            limit: Limit { max_recv: 4, next_max: 4 },
            send_budget: 1,
            recv_budget: 3,
            send_budget_id: None
        }
    );
    assert_eq!(at_b.credit_in_flight(&a), Some(Credit { id: 1, request: None, amount: 2 }));
}

#[test]
fn implicit_ack() {
    let a = peer(1);
    let mut at_b = Throttled::new();
    at_b.inject_connected(&a);
    let grant = serve(&mut at_b, &a, 1)[0];
    at_b.credit_submitted(&a, grant.id, RequestId(3));
    assert!(at_b.credit_in_flight(&a).is_some());
    assert_eq!(at_b.on_request(&a, &request(), true), Verdict::Deliver);
    assert_eq!(at_b.credit_in_flight(&a), None);
    // The ack that comes late finds nothing to confirm.
    assert_eq!(at_b.on_response(&a, &ack(grant.id), false), Verdict::Drop);
    assert_eq!(at_b.credit_in_flight(&a), None);
}

#[test]
fn send_request_makes_the_peer_known() {
    let a = peer(1);
    let mut engine = Throttled::new();
    engine.set_receive_limit(3);
    assert_eq!(engine.send_request(&a), Sending { grant: None, allowed: true });
    assert_eq!(
        info(&engine, &a),
        PeerInfo {
            limit: Limit { max_recv: 1, next_max: 3 },
            send_budget: 0,
            recv_budget: 1,
            send_budget_id: None
        }
    );
    assert_eq!(engine.inject_connected(&a), None);
    assert_eq!(info(&engine, &a).send_budget, 0);
}

#[test]
fn send_request_without_budget_is_refused_and_changes_nothing() {
    let a = peer(1);
    let mut engine = Throttled::new();
    assert!(engine.send_request(&a).allowed);
    let before = info(&engine, &a);
    assert_eq!(engine.send_request(&a), Sending { grant: None, allowed: false });
    assert_eq!(info(&engine, &a), before);
    assert_eq!(engine.next_event(), None);
}

#[test]
fn send_request_to_a_remembered_peer_grants_first() {
    let a = peer(1);
    let mut engine = Throttled::new();
    engine.set_receive_limit(3);
    engine.inject_connected(&a);
    serve(&mut engine, &a, 1);
    engine.inject_disconnected(&a);
    assert_eq!(
        engine.send_request(&a),
        Sending { grant: Some(Grant { id: 1, amount: 2 }), allowed: true }
    );
    assert_eq!(info(&engine, &a).send_budget, 0);
    assert_eq!(info(&engine, &a).recv_budget, 3);
}

#[test]
fn override_applies_to_unknown_peers_and_can_be_removed() {
    let (a, b) = (peer(1), peer(2));
    let mut engine = Throttled::new();
    engine.set_receive_limit(2);
    engine.override_receive_limit(&a, 9);
    engine.inject_connected(&a);
    engine.inject_connected(&b);
    assert_eq!(info(&engine, &a).limit, Limit { max_recv: 1, next_max: 9 });
    assert_eq!(info(&engine, &b).limit, Limit { max_recv: 1, next_max: 2 });

    let c = peer(3);
    engine.override_receive_limit(&c, 6);
    engine.remove_override(&c);
    engine.inject_connected(&c);
    assert_eq!(info(&engine, &c).limit, Limit { max_recv: 1, next_max: 2 });
}

#[test]
fn override_reaches_a_remembered_peer() {
    let a = peer(1);
    let mut engine = Throttled::new();
    engine.set_receive_limit(3);
    engine.inject_connected(&a);
    serve(&mut engine, &a, 1);
    engine.inject_disconnected(&a);
    engine.override_receive_limit(&a, 8);
    engine.inject_connected(&a);
    assert_eq!(info(&engine, &a).limit, Limit { max_recv: 3, next_max: 8 });
    assert_eq!(info(&engine, &a).recv_budget, 3);
}

#[test]
fn set_receive_limit_leaves_known_peers_alone() {
    let a = peer(1);
    let mut engine = Throttled::new();
    engine.inject_connected(&a);
    engine.set_receive_limit(5);
    assert_eq!(info(&engine, &a).limit, Limit { max_recv: 1, next_max: 1 });
}

#[test]
fn disconnect_resets_the_budgets() {
    let a = peer(1);
    let mut engine = Throttled::new();
    engine.inject_connected(&a);
    assert!(engine.send_request(&a).allowed);
    assert_eq!(engine.on_request(&a, &request(), true), Verdict::Deliver);
    assert_eq!(info(&engine, &a).send_budget, 0);
    assert_eq!(info(&engine, &a).recv_budget, 0);
    engine.inject_disconnected(&a);
    assert_eq!(engine.inject_connected(&a), None);
    assert_eq!(info(&engine, &a).send_budget, 1);
    assert_eq!(info(&engine, &a).recv_budget, 1);
}

#[test]
fn disconnect_of_an_unknown_peer() {
    let a = peer(1);
    let mut engine = Throttled::new();
    engine.inject_disconnected(&a);
    assert_eq!(engine.peer_info(&a), None);
    assert_eq!(engine.inject_connected(&a), None);
    assert_eq!(info(&engine, &a), PeerInfo::new(Limit::new(1)));
}

#[test]
fn disconnect_gives_up_the_grant() {
    let a = peer(1);
    let mut engine = Throttled::new();
    engine.inject_connected(&a);
    let grant = serve(&mut engine, &a, 1)[0];
    engine.credit_submitted(&a, grant.id, RequestId(1));
    engine.inject_disconnected(&a);
    assert_eq!(engine.credit_in_flight(&a), None);
    assert_eq!(engine.on_outbound_failure(&a, RequestId(1)), None);
}

#[test]
fn credit_without_id_is_dropped() {
    let a = peer(1);
    let mut engine = Throttled::new();
    engine.inject_connected(&a);
    let header = Header { typ: Type::Credit, ident: None, credit: Some(5) };
    assert_eq!(engine.on_request(&a, &header, false), Verdict::Drop);
    assert_eq!(info(&engine, &a).send_budget, 1);
}

#[test]
fn credit_without_amount_counts_as_nothing() {
    let a = peer(1);
    let mut engine = Throttled::new();
    assert!(engine.send_request(&a).allowed);
    let header = Header { typ: Type::Credit, ident: Some(4), credit: None };
    assert_eq!(engine.on_request(&a, &header, false), Verdict::Ack { ident: 4 });
    assert_eq!(info(&engine, &a).send_budget, 0);
    assert_eq!(info(&engine, &a).send_budget_id, Some(4));
    assert_eq!(engine.next_event(), None);
}

#[test]
fn older_credit_is_acked_but_not_applied() {
    let a = peer(1);
    let mut engine = Throttled::new();
    engine.inject_connected(&a);
    assert_eq!(engine.on_request(&a, &credit(2, 5), false), Verdict::Ack { ident: 5 });
    assert_eq!(info(&engine, &a).send_budget, 3);
    assert_eq!(engine.on_request(&a, &credit(2, 4), false), Verdict::Ack { ident: 4 });
    assert_eq!(engine.on_request(&a, &credit(2, 5), false), Verdict::Ack { ident: 5 });
    assert_eq!(info(&engine, &a).send_budget, 3);
    assert_eq!(info(&engine, &a).send_budget_id, Some(5));
    assert_eq!(engine.on_request(&a, &credit(2, 6), false), Verdict::Ack { ident: 6 });
    assert_eq!(info(&engine, &a).send_budget, 5);
    // The budget was never used up, so there is nothing to resume.
    assert_eq!(engine.next_event(), None);
}

#[test]
fn credit_from_an_unknown_peer_is_acked() {
    let a = peer(1);
    let mut engine = Throttled::new();
    assert_eq!(engine.on_request(&a, &credit(2, 5), false), Verdict::Ack { ident: 5 });
    assert_eq!(engine.peer_info(&a), None);
}

#[test]
fn send_budget_stops_at_the_largest_number() {
    let a = peer(1);
    let mut engine = Throttled::new();
    engine.inject_connected(&a);
    assert_eq!(engine.on_request(&a, &credit(65535, 0), false), Verdict::Ack { ident: 0 });
    assert_eq!(info(&engine, &a).send_budget, 65535);
    assert_eq!(engine.on_request(&a, &credit(7, 1), false), Verdict::Ack { ident: 1 });
    assert_eq!(info(&engine, &a).send_budget, 65535);
}

#[test]
fn request_without_payload_uses_budget_and_is_dropped() {
    let a = peer(1);
    let mut engine = Throttled::new();
    engine.inject_connected(&a);
    assert_eq!(engine.on_request(&a, &request(), false), Verdict::Drop);
    assert_eq!(info(&engine, &a).recv_budget, 0);
    assert_eq!(engine.next_event(), None);
}

#[test]
fn request_from_an_unknown_peer_is_delivered() {
    let a = peer(1);
    let mut engine = Throttled::new();
    assert_eq!(engine.on_request(&a, &request(), true), Verdict::Deliver);
    assert_eq!(engine.peer_info(&a), None);
    assert_eq!(engine.send_response(&a), None);
}

#[test]
fn strange_types_are_dropped() {
    let a = peer(1);
    let mut engine = Throttled::new();
    engine.inject_connected(&a);
    assert_eq!(engine.on_request(&a, &response(), true), Verdict::Drop);
    assert_eq!(engine.on_request(&a, &ack(0), true), Verdict::Drop);
    assert_eq!(engine.on_response(&a, &request(), true), Verdict::Drop);
    assert_eq!(engine.on_response(&a, &credit(1, 0), true), Verdict::Drop);
    assert_eq!(engine.on_response(&a, &response(), false), Verdict::Drop);
    assert_eq!(info(&engine, &a), PeerInfo::new(Limit::new(1)));
}

#[test]
fn ack_of_another_grant_confirms_nothing() {
    let a = peer(1);
    let mut engine = Throttled::new();
    engine.inject_connected(&a);
    let grant = serve(&mut engine, &a, 1)[0];
    assert_eq!(engine.on_response(&a, &ack(grant.id + 1), false), Verdict::Drop);
    assert!(engine.credit_in_flight(&a).is_some());
    let no_id = Header { typ: Type::Ack, ident: None, credit: None };
    assert_eq!(engine.on_response(&a, &no_id, false), Verdict::Drop);
    assert!(engine.credit_in_flight(&a).is_some());
    assert_eq!(engine.on_response(&a, &ack(grant.id), false), Verdict::Drop);
    assert_eq!(engine.credit_in_flight(&a), None);
}

#[test]
fn report_of_a_grant_that_is_gone_changes_nothing() {
    let a = peer(1);
    let mut engine = Throttled::new();
    engine.inject_connected(&a);
    engine.credit_submitted(&a, 0, RequestId(1));
    assert_eq!(engine.credit_in_flight(&a), None);
    let grant = serve(&mut engine, &a, 1)[0];
    engine.credit_submitted(&a, grant.id + 1, RequestId(1));
    assert_eq!(engine.credit_in_flight(&a).unwrap().request, None);
}

#[test]
fn send_response_grants_only_when_the_budget_is_used_up() {
    let a = peer(1);
    let mut engine = Throttled::new();
    engine.set_receive_limit(3);
    engine.inject_connected(&a);
    assert_eq!(engine.send_response(&a), None);
    assert_eq!(serve(&mut engine, &a, 1), vec![Grant { id: 0, amount: 3 }]);
    assert_eq!(serve(&mut engine, &a, 2), vec![]);
    assert_eq!(serve(&mut engine, &a, 1), vec![Grant { id: 1, amount: 3 }]);
}

#[test]
fn credit_ids_are_strictly_increasing() {
    let mut engine = Throttled::new();
    let mut last: Option<u64> = None;
    for n in 0..20u64 {
        let from = peer(n % 3);
        engine.inject_connected(&from);
        for grant in serve(&mut engine, &from, 2) {
            assert!(last.map_or(true, |id| id < grant.id));
            last = Some(grant.id);
        }
        if n % 5 == 4 {
            engine.inject_disconnected(&from);
        }
    }
    assert_eq!(last, Some(39));
}

#[test]
fn requests_between_grants_stay_within_the_grant() {
    let a = peer(1);
    let mut engine = Throttled::new();
    engine.set_receive_limit(3);
    engine.inject_connected(&a);
    let grant = serve(&mut engine, &a, 1)[0];
    let mut accepted = 0;
    for _ in 0..10 {
        if engine.on_request(&a, &request(), true) == Verdict::Deliver {
            accepted += 1;
        }
    }
    assert_eq!(accepted, grant.amount);
}

#[test]
fn refused_sender_is_told_to_resume() {
    let a = peer(1);
    let mut engine = Throttled::new();
    assert!(engine.send_request(&a).allowed);
    assert!(!engine.send_request(&a).allowed);
    assert_eq!(engine.next_event(), None);
    assert_eq!(engine.on_request(&a, &credit(2, 0), false), Verdict::Ack { ident: 0 });
    assert_eq!(engine.next_event(), Some(Event::ResumeSending(a.clone())));
    assert!(engine.send_request(&a).allowed);
}

#[test]
fn events_come_in_their_order() {
    let (a, b) = (peer(1), peer(2));
    let mut engine = Throttled::new();
    engine.inject_connected(&a);
    assert!(engine.send_request(&b).allowed);
    assert_eq!(engine.on_request(&a, &request(), true), Verdict::Deliver);
    assert_eq!(engine.on_request(&a, &request(), true), Verdict::Drop);
    assert_eq!(engine.on_request(&b, &credit(1, 0), false), Verdict::Ack { ident: 0 });
    assert_eq!(engine.next_event(), Some(Event::TooManyInboundRequests(a.clone())));
    assert_eq!(engine.next_event(), Some(Event::ResumeSending(b.clone())));
    assert_eq!(engine.next_event(), None);
}

/// Leaves `peer` remembered with room for three requests.
fn remember(engine: &mut Throttled, peer: &PeerId) {
    engine.inject_connected(peer);
    serve(engine, peer, 1);
    assert_eq!(engine.on_request(peer, &request(), true), Verdict::Deliver);
    engine.inject_disconnected(peer);
}

#[test]
fn a_full_cache_still_holds_the_first_peer() {
    let mut engine = Throttled::new();
    engine.set_receive_limit(4);
    let first = peer(0);
    remember(&mut engine, &first);
    for n in 1..OFFLINE_PEERS as u64 {
        let other = peer(n);
        engine.inject_connected(&other);
        engine.inject_disconnected(&other);
    }
    let grant = engine.inject_connected(&first).unwrap();
    assert_eq!(grant.amount, 2);
    assert_eq!(info(&engine, &first).recv_budget, 3);
}

#[test]
fn the_peer_used_least_recently_is_forgotten() {
    let mut engine = Throttled::new();
    engine.set_receive_limit(4);
    let first = peer(0);
    remember(&mut engine, &first);
    for n in 1..=OFFLINE_PEERS as u64 {
        let other = peer(n);
        engine.inject_connected(&other);
        engine.inject_disconnected(&other);
    }
    assert_eq!(engine.inject_connected(&first), None);
    assert_eq!(info(&engine, &first), PeerInfo::new(Limit::new(4)));
}

#[test]
fn an_override_counts_as_use_of_a_remembered_peer() {
    let mut engine = Throttled::new();
    engine.set_receive_limit(4);
    let (first, second) = (peer(0), peer(1));
    remember(&mut engine, &first);
    remember(&mut engine, &second);
    for n in 2..OFFLINE_PEERS as u64 {
        let other = peer(n);
        engine.inject_connected(&other);
        engine.inject_disconnected(&other);
    }
    engine.override_receive_limit(&first, 4);
    let last = peer(OFFLINE_PEERS as u64);
    engine.inject_connected(&last);
    engine.inject_disconnected(&last);
    // The second peer was used least recently and had to go.
    assert_eq!(engine.inject_connected(&second), None);
    assert_eq!(info(&engine, &second).recv_budget, 1);
    assert_eq!(engine.inject_connected(&first).map(|grant| grant.amount), Some(2));
}

#[test]
fn one_grant_in_flight_per_peer() {
    let (a, b) = (peer(1), peer(2));
    let mut engine = Throttled::new();
    engine.inject_connected(&a);
    engine.inject_connected(&b);
    let to_a = serve(&mut engine, &a, 1)[0];
    let to_b = serve(&mut engine, &b, 1)[0];
    assert_eq!(engine.credit_in_flight(&a), Some(Credit { id: to_a.id, request: None, amount: 1 }));
    assert_eq!(engine.credit_in_flight(&b), Some(Credit { id: to_b.id, request: None, amount: 1 }));
    assert!(to_a.id < to_b.id);
    assert_eq!(engine.on_response(&a, &ack(to_a.id), false), Verdict::Drop);
    assert_eq!(engine.credit_in_flight(&a), None);
    assert_eq!(engine.credit_in_flight(&b), Some(Credit { id: to_b.id, request: None, amount: 1 }));
}
