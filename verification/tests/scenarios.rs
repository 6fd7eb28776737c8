use http1_client::{
    BodySize, Error, Header, HeaderStep, IoKind, ReadEvent, RecvStatus, Request, SendStatus,
    VecRingBuffer, WriteOutcome,
};

fn new_request(cap1: usize, cap2: usize) -> Request {
    Request::new(VecRingBuffer::new(cap1), VecRingBuffer::new(cap2))
}

fn host_header() -> Vec<Header> {
    vec![Header { name: b"Host".to_vec(), value: b"h".to_vec() }]
}

#[test]
fn minimal_get_round_trip() {
    let req = new_request(1024, 1024);
    let rh = req
        .prepare_header(b"GET", b"/x", &host_header(), BodySize::NoBody, false, b"", true)
        .unwrap();
    let wire = rh.pending_bytes();
    assert_eq!(wire, b"GET /x HTTP/1.1\r\nHost: h\r\n\r\n".to_vec());
    let mut rh = rh;
    rh.commit(wire.len());
    let mut body = rh.finish();
    assert!(body.can_send());
    assert!(body.take_inner_if_early_response().is_none());
    let w = body.send_wire().unwrap();
    assert_eq!(w.len(), 0);
    let resp = match body.apply_send(WriteOutcome::Accepted(0)) {
        SendStatus::Complete(r) => r,
        _ => panic!("expected the body phase to complete"),
    };
    let mut resp = resp;
    resp.recv_bytes(ReadEvent::Data(b"HTTP/1.1 200 OK\r\nContent-Length: 3\r\n\r\nabc".to_vec()))
        .unwrap();
    let (owned, mut kh) = match resp.recv_header() {
        HeaderStep::Complete(o, k) => (o, k),
        _ => panic!("expected a complete header"),
    };
    assert_eq!(owned.code, 200);
    assert_eq!(owned.version, 1);
    let mut dest: Vec<u8> = Vec::new();
    match kh.try_recv(&mut dest, 64).unwrap() {
        RecvStatus::Complete(fin, written) => {
            assert_eq!(written, 3);
            assert_eq!(dest, b"abc".to_vec());
            assert!(fin.is_persistent());
        },
        RecvStatus::Read(_) => panic!("expected the body to complete"),
    }
}

#[test]
fn chunked_request_body_three_bytes_per_attempt() {
    let req = new_request(1024, 1024);
    let rh = req
        .prepare_header(b"POST", b"/u", &host_header(), BodySize::Unknown, false, b"", false)
        .unwrap();
    assert_eq!(
        rh.pending_bytes(),
        b"POST /u HTTP/1.1\r\nHost: h\r\nTransfer-Encoding: chunked\r\n\r\n".to_vec()
    );
    let mut rh = rh;
    let n = rh.pending_bytes().len();
    rh.commit(n);
    let mut body = rh.finish();
    assert_eq!(body.prepare(b"abcd", false).unwrap(), 4);
    assert_eq!(body.prepare(b"efghi", true).unwrap(), 5);
    assert!(matches!(body.prepare(b"x", true), Err(Error::FurtherInputNotAllowed)));
    let mut sent: Vec<u8> = Vec::new();
    let mut rounds = 0;
    loop {
        rounds += 1;
        assert!(rounds < 100, "send loop did not converge");
        assert!(body.take_inner_if_early_response().is_none());
        let w = body.send_wire().unwrap();
        let n = w.len().min(3);
        sent.extend_from_slice(&w[..n]);
        match body.apply_send(WriteOutcome::Accepted(n)) {
            SendStatus::Complete(_) => break,
            SendStatus::Partial(_) => {},
            _ => panic!("unexpected send status"),
        }
    }
    assert_eq!(sent, b"9\r\nabcdefghi\r\n0\r\n\r\n".to_vec());
}

#[test]
fn early_response_truncates_body() {
    let req = new_request(1024, 1024);
    let rh = req
        .prepare_header(b"POST", b"/u", &host_header(), BodySize::Unknown, false, b"", false)
        .unwrap();
    let mut rh = rh;
    let n = rh.pending_bytes().len();
    rh.commit(n);
    let mut body = rh.finish();
    body.prepare(b"0123456789", false).unwrap();
    let reply = b"HTTP/1.1 413 Payload Too Large\r\nConnection: close\r\nContent-Length: 0\r\n\r\n";
    body.recv_bytes(ReadEvent::Data(reply.to_vec())).unwrap();
    let resp = body.take_inner_if_early_response().expect("early response expected");
    let (owned, mut kh) = match resp.recv_header() {
        HeaderStep::Complete(o, k) => (o, k),
        _ => panic!("expected a complete header"),
    };
    assert_eq!(owned.code, 413);
    let mut dest: Vec<u8> = Vec::new();
    match kh.try_recv(&mut dest, 16).unwrap() {
        RecvStatus::Complete(fin, written) => {
            assert_eq!(written, 0);
            assert!(!fin.is_persistent());
        },
        RecvStatus::Read(_) => panic!("expected the body to complete"),
    }
}

#[test]
fn broken_pipe_then_early_response() {
    let req = new_request(1024, 1024);
    let rh = req
        .prepare_header(b"POST", b"/u", &host_header(), BodySize::Unknown, false, b"", false)
        .unwrap();
    let mut rh = rh;
    let n = rh.pending_bytes().len();
    rh.commit(n);
    let mut body = rh.finish();
    body.prepare(b"abc", false).unwrap();
    let _ = body.send_wire().unwrap();
    match body.apply_send(WriteOutcome::Failed(IoKind::BrokenPipe)) {
        SendStatus::ReadThenRetry => {},
        _ => panic!("expected one blocking read to be requested"),
    }
    let reply = b"HTTP/1.1 503 Unavailable\r\nContent-Length: 0\r\n\r\n";
    body.recv_bytes(ReadEvent::Data(reply.to_vec())).unwrap();
    let resp = body.take_inner_if_early_response().expect("early response expected");
    let (owned, _kh) = match resp.recv_header() {
        HeaderStep::Complete(o, k) => (o, k),
        _ => panic!("expected a complete header"),
    };
    assert_eq!(owned.code, 503);
}

#[test]
fn oversized_header_is_buffer_exceeded() {
    let req = new_request(32768, 32768);
    let rh = req
        .prepare_header(b"GET", b"/x", &host_header(), BodySize::NoBody, false, b"", true)
        .unwrap();
    let mut rh = rh;
    let n = rh.pending_bytes().len();
    rh.commit(n);
    let mut body = rh.finish();
    let resp = match body.apply_send(WriteOutcome::Accepted(0)) {
        SendStatus::Complete(r) => r,
        _ => panic!("expected the body phase to complete"),
    };
    let mut resp = resp;
    let mut huge = b"HTTP/1.1 200 OK\r\nX-Filler: ".to_vec();
    huge.resize(65536, b'a');
    let first: Vec<u8> = huge[..32768].to_vec();
    assert_eq!(resp.recv_bytes(ReadEvent::Data(first)).unwrap(), 32768);
    let mut resp = match resp.recv_header() {
        HeaderStep::NeedMore(r) => r,
        _ => panic!("the truncated header should be incomplete"),
    };
    let second: Vec<u8> = huge[32768..].to_vec();
    assert!(matches!(resp.recv_bytes(ReadEvent::Data(second)), Err(Error::BufferExceeded)));
}

#[test]
fn eof_delimited_body() {
    let req = new_request(1024, 1024);
    let rh = req
        .prepare_header(b"GET", b"/x", &host_header(), BodySize::NoBody, false, b"", true)
        .unwrap();
    let mut rh = rh;
    let n = rh.pending_bytes().len();
    rh.commit(n);
    let mut body = rh.finish();
    let resp = match body.apply_send(WriteOutcome::Accepted(0)) {
        SendStatus::Complete(r) => r,
        _ => panic!("expected the body phase to complete"),
    };
    let mut resp = resp;
    resp.recv_bytes(ReadEvent::Data(b"HTTP/1.1 200 OK\r\n\r\n".to_vec())).unwrap();
    let (_owned, mut kh) = match resp.recv_header() {
        HeaderStep::Complete(o, k) => (o, k),
        _ => panic!("expected a complete header"),
    };
    kh.add_to_buffer(ReadEvent::Data(b"seven b".to_vec())).unwrap();
    kh.add_to_buffer(ReadEvent::Eof).unwrap();
    kh.add_to_buffer(ReadEvent::Eof).unwrap();
    let mut dest: Vec<u8> = Vec::new();
    match kh.try_recv(&mut dest, 64).unwrap() {
        RecvStatus::Complete(fin, written) => {
            assert_eq!(written, 7);
            assert_eq!(dest, b"seven b".to_vec());
            assert!(!fin.is_persistent());
        },
        RecvStatus::Read(_) => panic!("expected the body to complete"),
    }
}
