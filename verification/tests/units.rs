use http1_client::{
    BodySize, Error, Header, HeaderStep, ReadEvent, RecvStatus, Request, SendStatus,
    VecRingBuffer, WriteOutcome,
};

fn new_request(cap1: usize, cap2: usize) -> Request {
    Request::new(VecRingBuffer::new(cap1), VecRingBuffer::new(cap2))
}

fn no_headers() -> Vec<Header> {
    Vec::new()
}

#[test]
fn content_length_header_line_is_serialized() {
    let req = new_request(1024, 1024);
    let rh = req
        .prepare_header(b"PUT", b"/d", &no_headers(), BodySize::Known(1234567890), false, b"ab",
            false)
        .unwrap();
    assert_eq!(
        rh.pending_bytes(),
        b"PUT /d HTTP/1.1\r\nContent-Length: 1234567890\r\n\r\n".to_vec()
    );
}

#[test]
fn websocket_handshake_has_no_framing_header() {
    let req = new_request(1024, 1024);
    let rh = req
        .prepare_header(b"GET", b"/ws", &no_headers(), BodySize::Unknown, true, b"", false)
        .unwrap();
    assert_eq!(rh.pending_bytes(), b"GET /ws HTTP/1.1\r\n\r\n".to_vec());
}

#[test]
fn oversized_request_header_is_rejected() {
    let req = new_request(16, 1024);
    match req.prepare_header(b"GET", b"/averylongtarget", &no_headers(), BodySize::NoBody, false,
        b"", true) {
        Err(Error::RequestTooLarge(cap)) => assert_eq!(cap, 16),
        _ => panic!("expected the header to be rejected"),
    }
}

#[test]
fn oversized_initial_body_is_rejected() {
    let req = new_request(1024, 4);
    match req.prepare_header(b"GET", b"/x", &no_headers(), BodySize::Known(5), false, b"abcde",
        true) {
        Err(Error::BufferExceeded) => {},
        _ => panic!("expected the initial body to be rejected"),
    }
}

#[test]
fn partial_prepare_never_latches_end() {
    let req = new_request(1024, 4);
    let rh = req
        .prepare_header(b"POST", b"/u", &no_headers(), BodySize::Unknown, false, b"", false)
        .unwrap();
    let mut rh = rh;
    let n = rh.pending_bytes().len();
    rh.commit(n);
    let mut body = rh.finish();
    let taken = body.prepare(b"abcdef", true).unwrap();
    assert_eq!(taken, 4);
    // end must not be latched after the partial copy: more input is allowed
    assert!(matches!(body.prepare(b"gh", false), Ok(0)));
}

#[test]
fn expand_write_buffer_grows_by_blocks() {
    let req = new_request(1024, 4);
    let rh = req
        .prepare_header(b"POST", b"/u", &no_headers(), BodySize::Unknown, false, b"", false)
        .unwrap();
    let mut rh = rh;
    let n = rh.pending_bytes().len();
    rh.commit(n);
    let mut body = rh.finish();
    assert_eq!(body.prepare(b"abcd", false).unwrap(), 4);
    // full: growth admitted
    assert_eq!(body.expand_write_buffer(3, || true).unwrap(), 2);
    assert_eq!(body.prepare(b"efgh", false).unwrap(), 4);
    // reservation refused: no growth
    assert_eq!(body.expand_write_buffer(3, || false).unwrap(), 2);
    assert_eq!(body.prepare(b"x", false).unwrap(), 0);
    // cap at blocks_max
    assert_eq!(body.expand_write_buffer(2, || true).unwrap(), 2);
}

#[test]
fn can_send_tracks_staged_bytes_and_end() {
    let req = new_request(1024, 1024);
    let rh = req
        .prepare_header(b"POST", b"/u", &no_headers(), BodySize::Unknown, false, b"", false)
        .unwrap();
    let mut rh = rh;
    let n = rh.pending_bytes().len();
    rh.commit(n);
    let mut body = rh.finish();
    assert!(!body.can_send());
    body.prepare(b"a", false).unwrap();
    assert!(body.can_send());
}

#[test]
fn would_block_is_no_progress() {
    let req = new_request(1024, 1024);
    let rh = req
        .prepare_header(b"POST", b"/u", &no_headers(), BodySize::Unknown, false, b"ab", true)
        .unwrap();
    let mut rh = rh;
    let n = rh.pending_bytes().len();
    rh.commit(n);
    let mut body = rh.finish();
    let w1 = body.send_wire().unwrap();
    match body.apply_send(WriteOutcome::Failed(http1_client::IoKind::WouldBlock)) {
        SendStatus::SendAgain => {},
        _ => panic!("expected no progress"),
    }
    // the codec state was restored: the same wire bytes are offered again
    let w2 = body.send_wire().unwrap();
    assert_eq!(w1, w2);
}

#[test]
fn handles_are_unusable_after_completion() {
    let req = new_request(1024, 1024);
    let rh = req
        .prepare_header(b"GET", b"/x", &no_headers(), BodySize::NoBody, false, b"", true)
        .unwrap();
    let mut rh = rh;
    let n = rh.pending_bytes().len();
    rh.commit(n);
    let mut body = rh.finish();
    let resp = match body.apply_send(WriteOutcome::Accepted(0)) {
        SendStatus::Complete(r) => r,
        _ => panic!("expected completion"),
    };
    // the request-body handle was consumed
    assert!(matches!(body.prepare(b"x", false), Err(Error::Unusable)));
    assert!(matches!(body.send_wire(), Err(Error::Unusable)));
    let mut resp = resp;
    resp.recv_bytes(ReadEvent::Data(b"HTTP/1.1 200 OK\r\nContent-Length: 0\r\n\r\n".to_vec()))
        .unwrap();
    let (owned, mut kh) = match resp.recv_header() {
        HeaderStep::Complete(o, k) => (o, k),
        _ => panic!("expected a complete header"),
    };
    let mut dest: Vec<u8> = Vec::new();
    match kh.try_recv(&mut dest, 8).unwrap() {
        RecvStatus::Complete(fin, written) => {
            assert_eq!(written, 0);
            let fin2 = fin.discard_header(owned);
            assert!(fin2.is_persistent());
        },
        RecvStatus::Read(_) => panic!("expected completion"),
    }
    // after completion both body operations report Unusable
    assert!(matches!(kh.try_recv(&mut dest, 8), Err(Error::Unusable)));
    assert!(matches!(kh.add_to_buffer(ReadEvent::Eof), Err(Error::Unusable)));
}

#[test]
fn chunked_response_with_two_chunks_and_trailer() {
    let req = new_request(1024, 1024);
    let rh = req
        .prepare_header(b"GET", b"/x", &no_headers(), BodySize::NoBody, false, b"", true)
        .unwrap();
    let mut rh = rh;
    let n = rh.pending_bytes().len();
    rh.commit(n);
    let mut body = rh.finish();
    let resp = match body.apply_send(WriteOutcome::Accepted(0)) {
        SendStatus::Complete(r) => r,
        _ => panic!("expected completion"),
    };
    let mut resp = resp;
    let reply = b"HTTP/1.1 200 OK\r\nTransfer-Encoding: chunked\r\n\r\n\
4\r\nRust\r\n5\r\n crab\r\n0\r\nX-Sum: 9\r\n\r\n";
    resp.recv_bytes(ReadEvent::Data(reply.to_vec())).unwrap();
    let (owned, mut kh) = match resp.recv_header() {
        HeaderStep::Complete(o, k) => (o, k),
        _ => panic!("expected a complete header"),
    };
    assert_eq!(owned.code, 200);
    let mut dest: Vec<u8> = Vec::new();
    match kh.try_recv(&mut dest, 64).unwrap() {
        RecvStatus::Complete(fin, written) => {
            assert_eq!(written, 9);
            assert_eq!(dest, b"Rust crab".to_vec());
            assert!(fin.is_persistent());
        },
        RecvStatus::Read(_) => panic!("expected completion"),
    }
}

#[test]
fn http10_without_keep_alive_is_not_persistent() {
    let req = new_request(1024, 1024);
    let rh = req
        .prepare_header(b"GET", b"/x", &no_headers(), BodySize::NoBody, false, b"", true)
        .unwrap();
    let mut rh = rh;
    let n = rh.pending_bytes().len();
    rh.commit(n);
    let mut body = rh.finish();
    let resp = match body.apply_send(WriteOutcome::Accepted(0)) {
        SendStatus::Complete(r) => r,
        _ => panic!("expected completion"),
    };
    let mut resp = resp;
    resp.recv_bytes(ReadEvent::Data(b"HTTP/1.0 200 OK\r\nContent-Length: 0\r\n\r\n".to_vec()))
        .unwrap();
    let (_owned, mut kh) = match resp.recv_header() {
        HeaderStep::Complete(o, k) => (o, k),
        _ => panic!("expected a complete header"),
    };
    let mut dest: Vec<u8> = Vec::new();
    match kh.try_recv(&mut dest, 8).unwrap() {
        RecvStatus::Complete(fin, _) => assert!(!fin.is_persistent()),
        RecvStatus::Read(_) => panic!("expected completion"),
    }
}

#[test]
fn malformed_response_head_is_a_protocol_error() {
    let req = new_request(1024, 1024);
    let rh = req
        .prepare_header(b"GET", b"/x", &no_headers(), BodySize::NoBody, false, b"", true)
        .unwrap();
    let mut rh = rh;
    let n = rh.pending_bytes().len();
    rh.commit(n);
    let mut body = rh.finish();
    let resp = match body.apply_send(WriteOutcome::Accepted(0)) {
        SendStatus::Complete(r) => r,
        _ => panic!("expected completion"),
    };
    let mut resp = resp;
    resp.recv_bytes(ReadEvent::Data(b"NOT-HTTP nonsense\r\n\r\n".to_vec())).unwrap();
    let room_before = resp.read_room();
    let resp2 = match resp.recv_header() {
        HeaderStep::Failed(Error::Protocol(http1_client::ParseError::Header), r2) => r2,
        _ => panic!("expected a protocol error"),
    };
    // the handle comes back with the received bytes preserved
    assert_eq!(resp2.read_room(), room_before);
    match resp2.recv_header() {
        HeaderStep::Failed(Error::Protocol(http1_client::ParseError::Header), _) => {},
        _ => panic!("expected the same protocol error again"),
    }
}

#[test]
fn residual_overflow_returns_the_handle() {
    // the post-header residual does not fit the retained write buffer
    let req = new_request(1024, 4);
    let rh = req
        .prepare_header(b"GET", b"/x", &no_headers(), BodySize::NoBody, false, b"", true)
        .unwrap();
    let mut rh = rh;
    let n = rh.pending_bytes().len();
    rh.commit(n);
    let mut body = rh.finish();
    let resp = match body.apply_send(WriteOutcome::Accepted(0)) {
        SendStatus::Complete(r) => r,
        _ => panic!("expected completion"),
    };
    let mut resp = resp;
    resp.recv_bytes(ReadEvent::Data(
        b"HTTP/1.1 200 OK\r\nContent-Length: 10\r\n\r\n0123456789".to_vec())).unwrap();
    let room_before = resp.read_room();
    match resp.recv_header() {
        HeaderStep::Failed(Error::BufferExceeded, r2) => {
            assert_eq!(r2.read_room(), room_before);
        },
        _ => panic!("expected the residual to overflow"),
    }
}

#[test]
fn oversized_probe_event_is_rejected_whole() {
    let req = new_request(64, 64);
    let rh = req
        .prepare_header(b"POST", b"/u", &no_headers(), BodySize::Unknown, false, b"", false)
        .unwrap();
    let mut rh = rh;
    let n = rh.pending_bytes().len();
    rh.commit(n);
    let mut body = rh.finish();
    let room = body.read_room();
    assert_eq!(room, 64);
    let too_big = vec![b'x'; room + 1];
    match body.recv_bytes(ReadEvent::Data(too_big)) {
        Err(Error::Io(http1_client::IoKind::WriteZero)) => {},
        _ => panic!("expected the oversized event to be rejected"),
    }
    // nothing was taken: no early response is seen
    assert_eq!(body.read_room(), 64);
    assert!(body.take_inner_if_early_response().is_none());
}

#[test]
fn malformed_chunk_size_is_a_protocol_error() {
    let req = new_request(1024, 1024);
    let rh = req
        .prepare_header(b"GET", b"/x", &no_headers(), BodySize::NoBody, false, b"", true)
        .unwrap();
    let mut rh = rh;
    let n = rh.pending_bytes().len();
    rh.commit(n);
    let mut body = rh.finish();
    let resp = match body.apply_send(WriteOutcome::Accepted(0)) {
        SendStatus::Complete(r) => r,
        _ => panic!("expected completion"),
    };
    let mut resp = resp;
    resp.recv_bytes(ReadEvent::Data(
        b"HTTP/1.1 200 OK\r\nTransfer-Encoding: chunked\r\n\r\nzz!!\r\n".to_vec())).unwrap();
    let (_owned, mut kh) = match resp.recv_header() {
        HeaderStep::Complete(o, k) => (o, k),
        _ => panic!("expected a complete header"),
    };
    let mut dest: Vec<u8> = Vec::new();
    match kh.try_recv(&mut dest, 8) {
        Err(Error::Protocol(http1_client::ParseError::Chunk)) => {},
        _ => panic!("expected a chunk protocol error"),
    }
}

#[test]
fn discard_header_returns_plain_body() {
    let req = new_request(1024, 1024);
    let rh = req
        .prepare_header(b"GET", b"/x", &no_headers(), BodySize::NoBody, false, b"", true)
        .unwrap();
    let mut rh = rh;
    let n = rh.pending_bytes().len();
    rh.commit(n);
    let mut body = rh.finish();
    let resp = match body.apply_send(WriteOutcome::Accepted(0)) {
        SendStatus::Complete(r) => r,
        _ => panic!("expected completion"),
    };
    let mut resp = resp;
    resp.recv_bytes(ReadEvent::Data(b"HTTP/1.1 200 OK\r\nContent-Length: 2\r\n\r\nhi".to_vec()))
        .unwrap();
    let (owned, kh) = match resp.recv_header() {
        HeaderStep::Complete(o, k) => (o, k),
        _ => panic!("expected a complete header"),
    };
    let mut plain = kh.discard_header(owned).unwrap();
    let mut dest: Vec<u8> = Vec::new();
    match plain.try_recv(&mut dest, 8).unwrap() {
        RecvStatus::Complete(fin, written) => {
            assert_eq!(written, 2);
            assert_eq!(dest, b"hi".to_vec());
            assert!(fin.is_persistent());
        },
        RecvStatus::Read(_) => panic!("expected completion"),
    }
}

#[test]
fn buffer_write_commit_and_views() {
    let mut b = VecRingBuffer::new(8);
    assert_eq!(b.capacity(), 8);
    assert_eq!(b.write(b"abcdef"), 6);
    assert_eq!(b.len(), 6);
    b.read_commit(2);
    assert_eq!(b.read_buf(), b"cdef");
    assert_eq!(b.write(b"ghijk"), 4);
    assert_eq!(b.read_buf(), b"cdefghij");
    assert!(b.write_all(b"z").is_err());
    b.clear();
    assert_eq!(b.len(), 0);
}

#[test]
fn buffer_inner_storage_moves() {
    let mut a = VecRingBuffer::new(8);
    let mut b = VecRingBuffer::new(4);
    a.write_all(b"abc").unwrap();
    let inner = a.take_inner();
    assert_eq!(inner, b"abc".to_vec());
    assert_eq!(a.len(), 0);
    a.set_inner(inner);
    assert_eq!(a.read_buf(), b"abc");
    a.swap_inner(&mut b);
    assert_eq!(a.len(), 0);
    assert_eq!(a.capacity(), 4);
    assert_eq!(b.read_buf(), b"abc");
    assert_eq!(b.capacity(), 8);
}

#[test]
fn http10_with_keep_alive_is_persistent() {
    let req = new_request(1024, 1024);
    let rh = req
        .prepare_header(b"GET", b"/x", &no_headers(), BodySize::NoBody, false, b"", true)
        .unwrap();
    let mut rh = rh;
    let n = rh.pending_bytes().len();
    rh.commit(n);
    let mut body = rh.finish();
    let resp = match body.apply_send(WriteOutcome::Accepted(0)) {
        SendStatus::Complete(r) => r,
        _ => panic!("expected completion"),
    };
    let mut resp = resp;
    resp.recv_bytes(ReadEvent::Data(
        b"HTTP/1.0 200 OK\r\nConnection: Keep-Alive\r\nContent-Length: 0\r\n\r\n".to_vec()))
        .unwrap();
    let (_owned, mut kh) = match resp.recv_header() {
        HeaderStep::Complete(o, k) => (o, k),
        _ => panic!("expected a complete header"),
    };
    let mut dest: Vec<u8> = Vec::new();
    match kh.try_recv(&mut dest, 8).unwrap() {
        RecvStatus::Complete(fin, _) => assert!(fin.is_persistent()),
        RecvStatus::Read(_) => panic!("expected completion"),
    }
}

#[test]
fn eof_before_header_is_a_transport_error() {
    let req = new_request(1024, 1024);
    let rh = req
        .prepare_header(b"GET", b"/x", &no_headers(), BodySize::NoBody, false, b"", true)
        .unwrap();
    let mut rh = rh;
    let n = rh.pending_bytes().len();
    rh.commit(n);
    let mut body = rh.finish();
    let resp = match body.apply_send(WriteOutcome::Accepted(0)) {
        SendStatus::Complete(r) => r,
        _ => panic!("expected completion"),
    };
    let mut resp = resp;
    match resp.recv_bytes(ReadEvent::Eof) {
        Err(Error::Io(http1_client::IoKind::UnexpectedEof)) => {},
        _ => panic!("expected a transport error"),
    }
}
