use gsn_root::enums::Failure;
use gsn_root::http::{
    append_bytes, append_decimal_bytes, begins_with, declares, find_blank, find_line_end,
    finishes_with, is_length_line, value_of, writes_number, HttpWrapper,
};

#[test]
fn request_exact_bytes() {
    let bytes = HttpWrapper::serialise_request(b"\x01\x02\x03", "spring.example", "spring");
    assert_eq!(
        bytes,
        b"POST /spring HTTP/1.1\r\nHost: spring.example\r\nContent-Length: 3\r\n\r\n\x01\x02\x03"
            .to_vec()
    );
}

#[test]
fn response_exact_bytes() {
    let bytes = HttpWrapper::serialise_response_bytes(b"0123456789ab");
    assert_eq!(
        bytes,
        b"HTTP/1.1 200 OK\r\nContent-Length: 12\r\n\r\n0123456789ab".to_vec()
    );
    assert_eq!(
        HttpWrapper::serialise_response_bytes(b""),
        b"HTTP/1.1 200 OK\r\nContent-Length: 0\r\n\r\n".to_vec()
    );
}

#[test]
fn request_round_trip() {
    let messages: [&[u8]; 4] = [b"", b"\r\n\r\n", b"POST", &[0u8; 1000]];
    for message in messages {
        let wrapped = HttpWrapper::serialise_request(message, "host.example", "res/ource");
        assert_eq!(HttpWrapper::deserialise_request(&wrapped), Ok(message.to_vec()));
    }
}

#[test]
fn response_round_trip() {
    let messages: [&[u8]; 3] = [b"", b"\r\n\r\nHTTP/", &[255u8; 300]];
    for message in messages {
        let wrapped = HttpWrapper::serialise_response_bytes(message);
        assert_eq!(HttpWrapper::deserialise_response(&wrapped), Ok(message.to_vec()));
    }
}

#[test]
fn bytes_that_hold_no_message() {
    let requests: [&[u8]; 14] = [
        b"",
        b"POST",
        b"POST / HTTP/1.1\r\nHost: a\r\n",
        // no length given
        b"POST / HTTP/1.1\r\n\r\nbody",
        // the length given is not that of the body
        b"POST / HTTP/1.1\r\nContent-Length: 5\r\n\r\nbody",
        b"POST / HTTP/1.1\r\nContent-Length: 3\r\n\r\nbody",
        b"POST / HTTP/1.1\r\nContent-Length: 4x\r\n\r\nbody",
        b"POST / HTTP/1.1\r\nContent-Length: \r\n\r\n",
        b"POST / HTTP/1.1\r\nContent-Length: 340282366920938463463374607431768211460\r\n\r\nbody",
        // the first line is not one of a request
        b"GET / HTTP/1.1\r\nContent-Length: 4\r\n\r\nbody",
        b"POST / HTTP/2\r\nContent-Length: 4\r\n\r\nbody",
        b"POST / HTTP/1.1\r\nContent-Length : 4\r\n\r\nbody",
        b"POST / HTTP/1.1\r\nContent-Length: 4 0\r\n\r\nbody",
        b"POST HTTP/1.1\r\nContent-Length: 4\r\n\r\nbody",
    ];
    for bytes in requests {
        assert_eq!(HttpWrapper::deserialise_request(bytes), Err(Failure::Invalid));
    }
    let replies: [&[u8]; 5] = [
        b"",
        b"POST / HTTP/1.1\r\nContent-Length: 4\r\n\r\nbody",
        b"HTTP/1.1 200 OK\r\n\r",
        b"HTTP/1.1 200 OK\r\n\r\nbody",
        b"HTTP/0.9 200 OK\r\nContent-Length: 4\r\n\r\nbody",
    ];
    for bytes in replies {
        assert_eq!(HttpWrapper::deserialise_response(bytes), Err(Failure::Invalid));
    }
}

#[test]
fn body_is_what_follows_the_first_blank_line() {
    assert_eq!(
        HttpWrapper::deserialise_request(
            b"POST / HTTP/1.1\r\nContent-Length: 10\r\n\r\nabc\r\n\r\ndef"
        ),
        Ok(b"abc\r\n\r\ndef".to_vec())
    );
    assert_eq!(
        HttpWrapper::deserialise_response(b"HTTP/1.1 200 OK\r\nContent-Length: 0\r\n\r\n"),
        Ok(Vec::new())
    );
}

#[test]
fn other_header_lines_are_passed_over() {
    assert_eq!(
        HttpWrapper::deserialise_request(
            b"POST /a/b HTTP/1.1\r\nHost: x\r\nUser-Agent: y\r\nContent-Length: 004\r\nAccept: z\r\n\r\nbody"
        ),
        Ok(b"body".to_vec())
    );
    assert_eq!(
        HttpWrapper::deserialise_response(
            b"HTTP/1.1 404 Not Found\r\nServer: s\r\nContent-Length: 2\r\n\r\nno"
        ),
        Ok(b"no".to_vec())
    );
    // the first line that gives a length is the one that counts
    assert_eq!(
        HttpWrapper::deserialise_request(
            b"POST / HTTP/1.1\r\nContent-Length: 1\r\nContent-Length: 4\r\n\r\nbody"
        ),
        Err(Failure::Invalid)
    );
}

#[test]
fn header_names_in_any_case_and_blanks_around_values() {
    let requests: [&[u8]; 6] = [
        b"POST / HTTP/1.1\r\ncontent-length: 4\r\n\r\nbody",
        b"POST / HTTP/1.1\r\nCONTENT-LENGTH:4\r\n\r\nbody",
        b"POST / HTTP/1.1\r\nContent-length:   4  \r\n\r\nbody",
        b"POST / HTTP/1.1\r\ncOnTeNt-LeNgTh:\t4\t\r\n\r\nbody",
        b"POST / HTTP/1.0\r\nContent-Length: 4\r\n\r\nbody",
        b"POST http://10.0.0.1:80/spring HTTP/1.1\r\nHost: a\r\nContent-Length: 4\r\n\r\nbody",
    ];
    for bytes in requests {
        assert_eq!(HttpWrapper::deserialise_request(bytes), Ok(b"body".to_vec()));
    }
    assert_eq!(
        HttpWrapper::deserialise_response(b"HTTP/1.0 200 OK\r\ncontent-length:2\r\n\r\nok"),
        Ok(b"ok".to_vec())
    );
    assert!(is_length_line(b"Content-Length: 1"));
    assert!(is_length_line(b"content-LENGTH:"));
    assert!(!is_length_line(b"Content-Length"));
    assert!(!is_length_line(b"Content_Length: 1"));
    assert_eq!(value_of(b"Content-Length:  12\t "), b"12");
    assert_eq!(value_of(b"Content-Length:"), b"");
    assert_eq!(value_of(b"Content-Length:   "), b"");
    assert_eq!(value_of(b"short"), b"");
}

#[test]
fn helpers() {
    assert_eq!(find_blank(b"ab\r\n\r\ncd"), 2);
    assert_eq!(find_blank(b"ab\r\n\rcd"), 7);
    assert_eq!(find_blank(b""), 0);
    assert!(begins_with(b"POST /", b"POST"));
    assert!(!begins_with(b"POS", b"POST"));
    assert!(begins_with(b"x", b""));
    assert!(finishes_with(b"a HTTP/1.1", b" HTTP/1.1"));
    assert!(!finishes_with(b"HTTP/1.1", b" HTTP/1.1"));
    assert_eq!(find_line_end(b"ab\r\ncd", 0), 2);
    assert_eq!(find_line_end(b"ab\r\ncd", 3), 6);
    assert_eq!(find_line_end(b"ab\rcd\r", 0), 6);
    assert!(writes_number(b"4096", 4096));
    assert!(writes_number(b"0", 0));
    assert!(!writes_number(b"", 0));
    assert!(!writes_number(b"12", 13));
    assert!(!writes_number(b"1a", 1));
    assert!(declares(b"A: 1\r\nContent-Length: 12", 12));
    assert!(declares(b"A: 1\r\ncontent-length: 12", 12));
    assert!(!declares(b"A: 1\r\nB: 12", 12));
    let mut out = vec![1u8];
    append_bytes(&mut out, b"ab");
    append_decimal_bytes(&mut out, 4096);
    append_decimal_bytes(&mut out, 0);
    assert_eq!(out, b"\x01ab40960".to_vec());
}
