use on_demand::message::{Message, RemoteCallResponse as CallResponseMsg,
    RemoteReadResponse as ReadResponseMsg};
use on_demand::model::REQUEST_TIMEOUT;
use on_demand::on_demand::{FetchChecker, OnDemand, OnDemandService};
use on_demand::types::{CallResult, Error, RemoteCallRequest, RemoteReadRequest, ROLE_COLLATOR,
    ROLE_FULL, ROLE_LIGHT, ROLE_VALIDATOR};

struct DummyFetchChecker {
    ok: bool,
}

impl FetchChecker for DummyFetchChecker {
    fn check_read_proof(
        &self,
        _request: &RemoteReadRequest,
        _remote_proof: Vec<Vec<u8>>,
    ) -> Result<Option<Vec<u8>>, Error> {
        match self.ok {
            true => Ok(Some(vec![42])),
            false => Err(Error::Backend("Test error".to_string())),
        }
    }

    fn check_execution_proof(
        &self,
        _request: &RemoteCallRequest,
        remote_proof: (Vec<u8>, Vec<Vec<u8>>),
    ) -> Result<CallResult, Error> {
        match self.ok {
            true => Ok(CallResult { return_data: remote_proof.0, changes: vec![] }),
            false => Err(Error::Backend("Test error".to_string())),
        }
    }
}

fn dummy(ok: bool) -> OnDemand<DummyFetchChecker> {
    let mut service = OnDemand::new(DummyFetchChecker { ok });
    service.set_service_link(true);
    service
}

fn total_peers(on_demand: &OnDemand<DummyFetchChecker>) -> usize {
    on_demand.idle_peers().len() + on_demand.active_peers().len()
}

fn test_call() -> RemoteCallRequest {
    RemoteCallRequest { block: 0, method: "test".to_string(), call_data: vec![] }
}

fn receive_call_response(
    on_demand: &mut OnDemand<DummyFetchChecker>,
    peer: u64,
    id: u64,
) -> (Option<u64>, Vec<on_demand::message::Dispatched>) {
    on_demand.on_remote_call_response(
        peer,
        CallResponseMsg { id, value: vec![1], proof: vec![vec![2]] },
        0,
    )
}

fn receive_read_response(
    on_demand: &mut OnDemand<DummyFetchChecker>,
    peer: u64,
    id: u64,
) -> (Option<u64>, Vec<on_demand::message::Dispatched>) {
    on_demand.on_remote_read_response(peer, ReadResponseMsg { id, proof: vec![vec![2]] }, 0)
}

#[test]
fn knows_about_peers_roles() {
    let mut on_demand = dummy(true);
    on_demand.on_connect(0, ROLE_LIGHT, 0);
    on_demand.on_connect(1, ROLE_FULL, 0);
    on_demand.on_connect(2, ROLE_COLLATOR, 0);
    on_demand.on_connect(3, ROLE_VALIDATOR, 0);
    assert_eq!(vec![1, 2, 3], on_demand.idle_peers());
}

#[test]
fn disconnects_from_idle_peer() {
    let mut on_demand = dummy(true);
    on_demand.on_connect(0, ROLE_FULL, 0);
    assert_eq!(1, total_peers(&on_demand));
    on_demand.on_disconnect(0, 0);
    assert_eq!(0, total_peers(&on_demand));
}

#[test]
fn disconnects_from_timeouted_peer() {
    let mut on_demand = dummy(true);
    on_demand.on_connect(0, ROLE_FULL, 0);
    on_demand.on_connect(1, ROLE_FULL, 0);
    assert_eq!(vec![0, 1], on_demand.idle_peers());
    assert!(on_demand.active_peers().is_empty());

    on_demand.remote_call(test_call(), 0);
    assert_eq!(vec![1], on_demand.idle_peers());
    assert_eq!(vec![0], on_demand.active_peers());

    let (bad_peers, _sent) = on_demand.maintain_peers(REQUEST_TIMEOUT + REQUEST_TIMEOUT);
    assert!(on_demand.idle_peers().is_empty());
    assert_eq!(vec![1], on_demand.active_peers());
    assert!(bad_peers.contains(&0));
}

#[test]
fn disconnects_from_peer_on_response_with_wrong_id() {
    let mut on_demand = dummy(true);
    on_demand.on_connect(0, ROLE_FULL, 0);

    on_demand.remote_call(test_call(), 0);
    let (evicted, _sent) = receive_call_response(&mut on_demand, 0, 1);
    assert_eq!(evicted, Some(0));
    assert_eq!(on_demand.pending_len(), 1);
}

#[test]
fn disconnects_from_peer_on_incorrect_response() {
    let mut on_demand = dummy(false);
    on_demand.on_connect(0, ROLE_FULL, 0);

    on_demand.remote_call(test_call(), 0);
    let (evicted, _sent) = receive_call_response(&mut on_demand, 0, 0);
    assert_eq!(evicted, Some(0));
    assert_eq!(on_demand.pending_len(), 1);
}

#[test]
fn disconnects_from_peer_on_unexpected_response() {
    let mut on_demand = dummy(true);
    on_demand.on_connect(0, ROLE_FULL, 0);

    let (evicted, _sent) = receive_call_response(&mut on_demand, 0, 0);
    assert_eq!(evicted, Some(0));
}

#[test]
fn disconnects_from_peer_on_wrong_response_type() {
    let mut on_demand = dummy(false);
    on_demand.on_connect(0, ROLE_FULL, 0);

    on_demand.remote_call(test_call(), 0);
    let (evicted, _sent) = receive_read_response(&mut on_demand, 0, 0);
    assert_eq!(evicted, Some(0));
    assert_eq!(on_demand.pending_len(), 1);
}

#[test]
fn receives_remote_response() {
    let mut on_demand = dummy(true);
    on_demand.on_connect(0, ROLE_FULL, 0);

    let (response, _sent) = on_demand.remote_call(test_call(), 0);
    let (evicted, _sent) = receive_call_response(&mut on_demand, 0, 0);
    assert_eq!(evicted, None);

    let result = response.wait().unwrap();
    assert_eq!(result.return_data, vec![1]);
    assert_eq!(vec![0], on_demand.idle_peers());
    assert!(on_demand.active_peers().is_empty());
    assert_eq!(on_demand.pending_len(), 0);
}

#[test]
fn rejects_peer_without_serving_role() {
    let mut on_demand = dummy(true);
    on_demand.on_connect(7, 0, 0);
    assert_eq!(0, total_peers(&on_demand));
}

#[test]
fn keeps_reconnecting_peer_once() {
    let mut on_demand = dummy(true);
    on_demand.on_connect(0, ROLE_FULL, 0);
    on_demand.on_connect(0, ROLE_FULL, 0);
    assert_eq!(vec![0], on_demand.idle_peers());
}

#[test]
fn dispatched_call_message_carries_request() {
    let mut on_demand = dummy(true);
    on_demand.on_connect(0, ROLE_FULL, 0);
    let request = RemoteCallRequest {
        block: 7,
        method: "state_call".to_string(),
        call_data: vec![1, 2, 3],
    };
    let (_response, sent) = on_demand.remote_call(request, 5);
    assert_eq!(sent.len(), 1);
    assert_eq!(sent[0].peer, 0);
    match &sent[0].message {
        Message::RemoteCallRequest(msg) => {
            assert_eq!(msg.id, 0);
            assert_eq!(msg.block, 7);
            assert_eq!(msg.method, "state_call");
            assert_eq!(msg.data, vec![1, 2, 3]);
        },
        Message::RemoteReadRequest(_) => panic!("expected a call request"),
    }
}

#[test]
fn dispatched_read_message_carries_request() {
    let mut on_demand = dummy(true);
    on_demand.on_connect(4, ROLE_FULL, 0);
    let request = RemoteReadRequest { block: 9, key: vec![8, 7] };
    let (_response, sent) = on_demand.remote_read(request, 0);
    assert_eq!(sent.len(), 1);
    assert_eq!(sent[0].peer, 4);
    match &sent[0].message {
        Message::RemoteReadRequest(msg) => {
            assert_eq!(msg.id, 0);
            assert_eq!(msg.block, 9);
            assert_eq!(msg.key, vec![8, 7]);
        },
        Message::RemoteCallRequest(_) => panic!("expected a read request"),
    }
}

#[test]
fn receives_remote_read_response() {
    let mut on_demand = dummy(true);
    on_demand.on_connect(0, ROLE_FULL, 0);
    let (response, _sent) = on_demand.remote_read(
        RemoteReadRequest { block: 0, key: vec![1] },
        0,
    );
    let (evicted, _sent) = receive_read_response(&mut on_demand, 0, 0);
    assert_eq!(evicted, None);
    assert_eq!(response.wait().unwrap(), Some(vec![42]));
}

#[test]
fn dropped_dispatcher_cancels_handle() {
    let mut on_demand = dummy(true);
    let (response, _sent) = on_demand.remote_call(test_call(), 0);
    drop(on_demand);
    let err = response.wait().unwrap_err();
    assert!(matches!(err, Error::RemoteFetchCancelled));
}

#[test]
fn request_ids_grow_and_pair_in_fifo_order() {
    let mut on_demand = dummy(true);
    on_demand.on_connect(10, ROLE_FULL, 0);
    on_demand.on_connect(11, ROLE_FULL, 0);
    let (_r1, sent1) = on_demand.remote_call(
        RemoteCallRequest { block: 0, method: "a".to_string(), call_data: vec![] },
        0,
    );
    let (_r2, sent2) = on_demand.remote_call(
        RemoteCallRequest { block: 0, method: "b".to_string(), call_data: vec![] },
        0,
    );
    assert_eq!(sent1.len(), 1);
    assert_eq!(sent2.len(), 1);
    assert_eq!(sent1[0].peer, 10);
    assert_eq!(sent2[0].peer, 11);
    match (&sent1[0].message, &sent2[0].message) {
        (Message::RemoteCallRequest(first), Message::RemoteCallRequest(second)) => {
            assert_eq!(first.id, 0);
            assert_eq!(second.id, 1);
            assert!(first.id < second.id);
        },
        _ => panic!("expected two call requests"),
    }
}

#[test]
fn timeout_is_inclusive_at_the_boundary() {
    let mut on_demand = dummy(true);
    on_demand.on_connect(0, ROLE_FULL, 0);
    on_demand.remote_call(test_call(), 0);

    let (bad_early, _sent) = on_demand.maintain_peers(REQUEST_TIMEOUT - 1);
    assert!(bad_early.is_empty());
    assert_eq!(vec![0], on_demand.active_peers());

    let (bad_late, _sent) = on_demand.maintain_peers(REQUEST_TIMEOUT);
    assert_eq!(bad_late, vec![0]);
    assert_eq!(on_demand.pending_len(), 1);
    assert_eq!(0, total_peers(&on_demand));
}

#[test]
fn maintain_on_fresh_service_reports_nothing() {
    let mut on_demand = dummy(true);
    let (bad_peers, sent) = on_demand.maintain_peers(REQUEST_TIMEOUT * 4);
    assert!(bad_peers.is_empty());
    assert!(sent.is_empty());
}

#[test]
fn disconnecting_active_peer_requeues_its_request() {
    let mut on_demand = dummy(true);
    on_demand.on_connect(0, ROLE_FULL, 0);
    on_demand.remote_call(test_call(), 0);
    assert_eq!(vec![0], on_demand.active_peers());

    on_demand.on_disconnect(0, 0);
    assert_eq!(0, total_peers(&on_demand));
    assert_eq!(on_demand.pending_len(), 1);
}

#[test]
fn unknown_peer_response_leaves_others_untouched() {
    let mut on_demand = dummy(true);
    on_demand.on_connect(0, ROLE_FULL, 0);
    on_demand.on_connect(1, ROLE_FULL, 0);
    on_demand.remote_call(test_call(), 0);
    assert_eq!(vec![1], on_demand.idle_peers());
    assert_eq!(vec![0], on_demand.active_peers());

    let (evicted, _sent) = receive_call_response(&mut on_demand, 5, 0);
    assert_eq!(evicted, Some(5));
    assert_eq!(vec![1], on_demand.idle_peers());
    assert_eq!(vec![0], on_demand.active_peers());
    assert_eq!(on_demand.pending_len(), 0);
}

#[test]
fn requeued_request_is_redispatched_and_delivered() {
    let mut on_demand = dummy(true);
    on_demand.on_connect(0, ROLE_FULL, 0);
    on_demand.on_connect(1, ROLE_FULL, 0);
    let (response, sent) = on_demand.remote_call(test_call(), 0);
    assert_eq!(sent.len(), 1);
    assert_eq!(sent[0].peer, 0);

    // Peer 0 answers with the wrong id: it is evicted and the request goes
    // straight back out to peer 1, with its id unchanged.
    let (evicted, resent) = receive_call_response(&mut on_demand, 0, 3);
    assert_eq!(evicted, Some(0));
    assert_eq!(resent.len(), 1);
    assert_eq!(resent[0].peer, 1);
    match &resent[0].message {
        Message::RemoteCallRequest(msg) => assert_eq!(msg.id, 0),
        Message::RemoteReadRequest(_) => panic!("expected a call request"),
    }

    let (evicted, _sent) = receive_call_response(&mut on_demand, 1, 0);
    assert_eq!(evicted, None);
    assert_eq!(response.wait().unwrap().return_data, vec![1]);
}

#[test]
fn no_pairing_before_service_link_is_set() {
    let mut on_demand = OnDemand::new(DummyFetchChecker { ok: true });
    on_demand.on_connect(0, ROLE_FULL, 0);
    let (_response, sent) = on_demand.remote_call(test_call(), 0);
    assert!(sent.is_empty());
    assert_eq!(on_demand.pending_len(), 1);
    assert_eq!(vec![0], on_demand.idle_peers());

    on_demand.set_service_link(true);
    let sent = on_demand.on_connect(1, ROLE_FULL, 0);
    assert_eq!(sent.len(), 1);
    assert_eq!(sent[0].peer, 0);
    assert_eq!(on_demand.pending_len(), 0);
}

#[test]
fn disconnects_from_peer_on_incorrect_read_response() {
    let mut on_demand = dummy(false);
    on_demand.on_connect(0, ROLE_FULL, 0);
    on_demand.remote_read(RemoteReadRequest { block: 0, key: vec![1] }, 0);

    let (evicted, _sent) = receive_read_response(&mut on_demand, 0, 0);
    assert_eq!(evicted, Some(0));
    assert_eq!(on_demand.pending_len(), 1);
}

#[test]
fn disconnects_from_peer_on_call_response_to_read_request() {
    let mut on_demand = dummy(true);
    on_demand.on_connect(0, ROLE_FULL, 0);
    on_demand.remote_read(RemoteReadRequest { block: 0, key: vec![1] }, 0);

    let (evicted, _sent) = receive_call_response(&mut on_demand, 0, 0);
    assert_eq!(evicted, Some(0));
    assert_eq!(on_demand.pending_len(), 1);
}
