use gsn_root::enums::{Failure, NodeRole, NodeService, NodeState};
use gsn_root::node::Node;
use gsn_root::service::{
    chain_reply, chain_request, Dvsp, Outgoing, StreamStep, Tcp, DATAGRAM_CAP, DATAGRAM_PORT,
    HTTP_PORT, STREAM_CAP, STREAM_PORT,
};

const MALFORMED: &[u8] = b"\x1e\x68";

fn node(service: NodeService) -> Node {
    Node::new(
        String::from("cci"),
        String::from("dvsnode.greenman.zu"),
        [192, 168, 1, 2],
        service,
        NodeState::Enabled,
        NodeRole::Org,
    )
}

#[test]
fn ports_and_caps() {
    assert_eq!(DATAGRAM_PORT, 55301);
    assert_eq!(STREAM_PORT, 55300);
    assert_eq!(HTTP_PORT, 80);
    assert_eq!(DATAGRAM_CAP, 768);
    assert_eq!(STREAM_CAP, 4096);
}

#[test]
fn stream_short_payload_is_not_answered() {
    assert_eq!(Tcp::receive(b"", MALFORMED), StreamStep::Ignore);
    assert_eq!(Tcp::receive(b"a", MALFORMED), StreamStep::Ignore);
    assert_eq!(Tcp::receive(b"POST", MALFORMED), StreamStep::Ignore);
    assert_eq!(Tcp::receive(b"abcd", MALFORMED), StreamStep::Ignore);
}

#[test]
fn stream_raw_payload_goes_to_the_dispatcher() {
    assert_eq!(
        Tcp::receive(b"abcde", MALFORMED),
        StreamStep::Dispatch { inner: b"abcde".to_vec(), tunnelled: false }
    );
    assert_eq!(
        Tcp::receive(b"GET / HTTP/1.1\r\n\r\nx", MALFORMED),
        StreamStep::Dispatch { inner: b"GET / HTTP/1.1\r\n\r\nx".to_vec(), tunnelled: false }
    );
}

#[test]
fn stream_post_without_http_is_malformed() {
    let expected = StreamStep::Reply(
        b"HTTP/1.1 200 OK\r\nContent-Length: 2\r\n\r\n\x1e\x68".to_vec(),
    );
    assert_eq!(Tcp::receive(b"POSTx", MALFORMED), expected);
    assert_eq!(Tcp::receive(b"POST / HTTP/1.1\r\nHost: a\r\n", MALFORMED), expected);
    assert_eq!(Tcp::receive(b"POST / HTTP/1.1\r\nHost: a\r\n\r\nhello", MALFORMED), expected);
    assert_eq!(
        Tcp::receive(b"POST / HTTP/1.1\r\nContent-Length: 9\r\n\r\nhello", MALFORMED),
        expected
    );
    assert_eq!(Tcp::handle_request(b"POST", MALFORMED), expected);
}

#[test]
fn stream_tunnelled_request_is_unwrapped() {
    let wrapped = b"POST /spring HTTP/1.1\r\nHost: a\r\nContent-Length: 5\r\n\r\nhello";
    assert_eq!(
        Tcp::receive(wrapped, MALFORMED),
        StreamStep::Dispatch { inner: b"hello".to_vec(), tunnelled: true }
    );
    assert_eq!(
        Tcp::respond(true, b"world"),
        b"HTTP/1.1 200 OK\r\nContent-Length: 5\r\n\r\nworld".to_vec()
    );
    assert_eq!(Tcp::respond(false, b"world"), b"world".to_vec());
}

#[test]
fn stream_reads_no_more_than_its_cap() {
    let long = vec![7u8; 5000];
    assert_eq!(
        Tcp::receive(&long, MALFORMED),
        StreamStep::Dispatch { inner: vec![7u8; 4096], tunnelled: false }
    );
}

#[test]
fn datagram_of_a_thousand_zero_bytes() {
    let sent = vec![0u8; 1000];
    let seen = Dvsp::request(&sent);
    assert_eq!(seen, vec![0u8; 768]);
    assert_eq!(Dvsp::request(b"abc"), b"abc".to_vec());
    assert_eq!(Dvsp::request(b""), Vec::<u8>::new());
    assert_eq!(Dvsp::request(&vec![1u8; 768]), vec![1u8; 768]);
}

#[test]
fn outbound_request_in_each_framing() {
    let address = [192, 168, 1, 2];
    assert_eq!(
        Tcp::make_request(b"\x01\x02", &address, "cci.example", "spring", NodeService::Http),
        Ok(Outgoing {
            endpoint: String::from("192.168.1.2:80"),
            payload: b"POST /spring HTTP/1.1\r\nHost: cci.example\r\nContent-Length: 2\r\n\r\n\x01\x02"
                .to_vec(),
        })
    );
    assert_eq!(
        Tcp::make_request(b"\x01\x02", &address, "cci.example", "spring", NodeService::Dvsp),
        Ok(Outgoing { endpoint: String::from("192.168.1.2:55300"), payload: vec![1, 2] })
    );
    assert_eq!(
        Tcp::make_request(b"", &address, "", "", NodeService::Undefined).unwrap().endpoint,
        "192.168.1.2:55300"
    );
}

#[test]
fn outbound_request_that_is_too_long() {
    let address = [192, 168, 1, 2];
    let most = vec![5u8; 4096];
    let more = vec![5u8; 4097];
    assert_eq!(
        Tcp::make_request(&most, &address, "h", "r", NodeService::Dvsp).map(|o| o.payload),
        Ok(most.clone())
    );
    assert_eq!(
        Tcp::make_request(&more, &address, "h", "r", NodeService::Dvsp),
        Err(Failure::InvalidArgument)
    );
    assert_eq!(
        Tcp::make_request(&more, &address, "h", "r", NodeService::Http),
        Err(Failure::InvalidArgument)
    );
    // in HTTP the cap is on the message, not on the request that holds it
    let head = b"POST /r HTTP/1.1\r\nHost: h\r\nContent-Length: 4096\r\n\r\n".len();
    assert_eq!(
        Tcp::make_request(&most, &address, "h", "r", NodeService::Http).map(|o| o.payload.len()),
        Ok(head + 4096)
    );
}

#[test]
fn outbound_request_comes_back_as_it_went() {
    let address = [10, 0, 0, 1];
    let packet = b"\x01\x00hello".to_vec();
    let out = Tcp::make_request(&packet, &address, "h", "r", NodeService::Dvsp).unwrap();
    assert_eq!(Tcp::take_response(Some(&out.payload), NodeService::Dvsp), Ok(packet.clone()));
    let out = Tcp::make_request(&packet, &address, "h", "r", NodeService::Http).unwrap();
    assert_eq!(
        Tcp::receive(&out.payload, MALFORMED),
        StreamStep::Dispatch { inner: packet.clone(), tunnelled: true }
    );
    let answer = Tcp::respond(true, &packet);
    assert_eq!(Tcp::take_response(Some(&answer), NodeService::Http), Ok(packet));
}

#[test]
fn outbound_response_in_each_framing() {
    assert_eq!(Tcp::take_response(None, NodeService::Dvsp), Err(Failure::InvalidArgument));
    assert_eq!(Tcp::take_response(None, NodeService::Http), Err(Failure::InvalidArgument));
    assert_eq!(Tcp::take_response(Some(b""), NodeService::Dvsp), Err(Failure::InvalidArgument));
    assert_eq!(Tcp::take_response(Some(b""), NodeService::Http), Err(Failure::InvalidArgument));
    assert_eq!(Tcp::take_response(Some(b"abc"), NodeService::Dvsp), Ok(b"abc".to_vec()));
    assert_eq!(Tcp::take_response(Some(b"abc"), NodeService::Http), Err(Failure::Invalid));
    assert_eq!(
        Tcp::take_response(Some(b"HTTP/1.1 200 OK\r\n\r\nabc"), NodeService::Http),
        Err(Failure::Invalid)
    );
    assert_eq!(
        Tcp::take_response(
            Some(b"HTTP/1.1 200 OK\r\nContent-Length: 3\r\n\r\nabc"),
            NodeService::Http
        ),
        Ok(b"abc".to_vec())
    );
    let long = vec![9u8; 5000];
    assert_eq!(Tcp::take_response(Some(&long), NodeService::Dvsp), Ok(vec![9u8; 4096]));
}

#[test]
fn relay_to_a_node_that_takes_datagrams() {
    assert_eq!(
        chain_request(vec![1, 2, 3], &node(NodeService::Dvsp)),
        Ok(Outgoing { endpoint: String::from("192.168.1.2:55301"), payload: vec![1, 2, 3] })
    );
}

#[test]
fn relay_to_a_node_in_http_fails() {
    assert_eq!(
        chain_request(vec![1, 2, 3], &node(NodeService::Http)),
        Err(Failure::InvalidArgument)
    );
    assert_eq!(
        chain_request(vec![1, 2, 3], &node(NodeService::Undefined)),
        Err(Failure::InvalidArgument)
    );
}

#[test]
fn relay_reply() {
    assert_eq!(chain_reply(None), Err(Failure::InvalidArgument));
    assert_eq!(chain_reply(Some(b"pong")), Ok(b"pong".to_vec()));
    assert_eq!(chain_reply(Some(b"")), Ok(Vec::new()));
    assert_eq!(chain_reply(Some(&vec![3u8; 800])), Ok(vec![3u8; 768]));
}
