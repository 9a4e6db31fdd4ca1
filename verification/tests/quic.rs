use bytes::BytesMut;
use hala::quic::listener::{
    listener_loop_step, listener_read_step, listener_write_route, reply_datagram, AcceptStep,
    ConnRead, HandshakeOutcome, ListenerLoop,
    IncomingQueue, ListenerRead, ListenerWrite,
};
use hala::quic::pacing::{
    connect_step, half_closed_finished, handshake_route, ping_due, pool_choice, send_step,
    stream_io_step, ConnectAction, ConnectEvent, HalfClosedRead, HandshakeRoute, PoolChoice,
    SendAction, SendEvent, StreamIoAction, StreamIoEvent,
};
use hala::quic::seed::{scid_from_tag, ConnIdSeed};
use hala::quic::stream_buf::{
    cache_read_answers, read_incoming, recv_cached, recv_chunk, split_for_send, QuicStreamBuf, StreamClosed,
};
use hala::quic::streams::{ConnClosed, StreamTable};
use hala::quic::token::{
    client_hello_action, mint_token, validate_token, HelloAction, HelloError, TokenError,
    MAX_CONN_ID_LEN,
};

#[test]
fn minted_token_validates_for_its_client() {
    let dcid = [7u8; 20];
    let ip = [127u8, 0, 0, 1];
    let token = mint_token(&dcid, &ip);
    assert_eq!(&token[..6], b"quiche");
    assert_eq!(&token[6..10], &ip);
    assert_eq!(token.len(), 30);
    assert_eq!(validate_token(&token, &ip).unwrap(), &dcid[..]);
}

#[test]
fn token_errors() {
    let ip = [10u8, 0, 0, 2];
    assert_eq!(validate_token(b"quic", &ip), Err(TokenError::TooShort));
    assert_eq!(validate_token(b"quichX\x0a\x00\x00\x02", &ip), Err(TokenError::BadTag));
    let token = mint_token(b"abc", &[10u8, 0, 0, 3]);
    assert_eq!(validate_token(&token, &ip), Err(TokenError::AddressMismatch));
    assert_eq!(validate_token(b"quiche\x0a\x00", &ip), Err(TokenError::AddressMismatch));
    let v6 = [0u8; 16];
    let token = mint_token(b"", &v6);
    assert_eq!(validate_token(&token, &v6).unwrap(), b"");
}

#[test]
fn client_hello_decisions() {
    let ip = [192u8, 168, 1, 1];
    let dcid = [1u8; 20];
    let token = mint_token(&dcid, &ip);
    assert!(matches!(
        client_hello_action(false, &token, &ip, MAX_CONN_ID_LEN),
        Ok(HelloAction::NegotiateVersion)
    ));
    assert!(matches!(client_hello_action(true, b"", &ip, MAX_CONN_ID_LEN), Ok(HelloAction::Retry)));
    match client_hello_action(true, &token, &ip, MAX_CONN_ID_LEN) {
        Ok(HelloAction::Accept(odcid)) => assert_eq!(odcid, &dcid[..]),
        other => panic!("unexpected {:?}", other),
    }
    assert!(matches!(
        client_hello_action(true, &token, &ip, 8),
        Err(HelloError::ConnIdLength)
    ));
    assert!(matches!(
        client_hello_action(true, b"nope", &ip, MAX_CONN_ID_LEN),
        Err(HelloError::Token(TokenError::TooShort))
    ));
}

#[test]
fn stream_buf_reads_in_order() {
    let mut buf = QuicStreamBuf::new();
    buf.append(BytesMut::from(&b"hello"[..]), false);
    buf.append(BytesMut::from(&b" world"[..]), true);
    let mut out = [0u8; 4];
    assert_eq!(buf.read(&mut out), (4, false));
    assert_eq!(&out, b"hell");
    let mut out = [0u8; 16];
    assert_eq!(buf.read(&mut out), (7, true));
    assert_eq!(&out[..7], b"o world");
    assert_eq!(buf.read(&mut out), (0, true));
}

#[test]
fn stream_buf_append_buf_and_read_incoming() {
    let mut cache = QuicStreamBuf::new();
    let mut incoming = QuicStreamBuf::new();
    incoming.append(BytesMut::from(&b"abcdef"[..]), true);
    let mut out = [0u8; 2];
    assert_eq!(read_incoming(&mut cache, incoming, &mut out), (2, false));
    assert_eq!(&out, b"ab");
    let mut out = [0u8; 10];
    assert_eq!(cache.read(&mut out), (4, true));
    assert_eq!(&out[..4], b"cdef");

    let mut a = QuicStreamBuf::new();
    a.append(BytesMut::from(&b"x"[..]), false);
    let mut b = QuicStreamBuf::new();
    b.append(BytesMut::from(&b"yz"[..]), false);
    a.append_buf(b);
    let mut out = [0u8; 3];
    assert_eq!(a.read(&mut out), (3, false));
    assert_eq!(&out, b"xyz");
}

#[test]
fn split_for_send_cases() {
    // Room for three bytes: three go now without fin, the rest waits with it.
    let (now, now_fin, mut later) = split_for_send(BytesMut::from(&b"abcdef"[..]), true, 3);
    assert_eq!(&now[..], b"abc");
    assert!(!now_fin);
    assert!(later.fin);
    let mut out = [0u8; 8];
    assert_eq!(later.read(&mut out), (3, true));
    assert_eq!(&out[..3], b"def");

    // Room for everything: all goes now with fin, nothing is kept.
    let (now, now_fin, later) = split_for_send(BytesMut::from(&b"abc"[..]), true, 10);
    assert_eq!(&now[..], b"abc");
    assert!(now_fin);
    assert!(later.buf.is_empty());
    assert!(!later.fin);

    // No room: nothing goes now, the whole write is kept.
    let (now, now_fin, later) = split_for_send(BytesMut::from(&b"abc"[..]), true, 0);
    assert!(now.is_empty());
    assert!(!now_fin);
    assert_eq!(&later.buf[..], b"abc");
    assert!(later.fin);

    // Exactly the room there is, without fin.
    let (now, now_fin, later) = split_for_send(BytesMut::from(&b"ab"[..]), false, 2);
    assert_eq!(&now[..], b"ab");
    assert!(!now_fin);
    assert!(later.buf.is_empty());
    assert!(!later.fin);
}

#[test]
fn stream_reader_reads_cache_then_chunks() {
    let mut cache = QuicStreamBuf::new();
    let mut buf = [0u8; 4];
    assert_eq!(recv_cached(&mut cache, &mut buf), None);
    let mut chunk = QuicStreamBuf::new();
    chunk.append(BytesMut::from(&b"abcdef"[..]), false);
    assert_eq!(recv_chunk(&mut cache, Some(chunk), &mut buf), Ok((4, false)));
    assert_eq!(&buf, b"abcd");
    assert_eq!(recv_cached(&mut cache, &mut buf), Some((2, false)));
    assert_eq!(&buf[..2], b"ef");
    assert_eq!(recv_cached(&mut cache, &mut buf), None);
    let mut last = QuicStreamBuf::new();
    last.append(BytesMut::from(&b"g"[..]), true);
    assert_eq!(recv_chunk(&mut cache, Some(last), &mut buf), Ok((1, true)));
    assert_eq!(buf[0], b'g');
    assert_eq!(recv_cached(&mut cache, &mut buf), Some((0, true)));
    assert_eq!(recv_cached(&mut cache, &mut buf), Some((0, true)));
}

#[test]
fn stream_reader_fails_on_closed_channel() {
    let mut cache = QuicStreamBuf::new();
    let mut buf = [0u8; 4];
    assert_eq!(recv_cached(&mut cache, &mut buf), None);
    assert_eq!(recv_chunk(&mut cache, None, &mut buf), Err(StreamClosed));
}

#[test]
fn cache_read_answer_cases() {
    assert!(cache_read_answers(1, false));
    assert!(cache_read_answers(0, true));
    assert!(!cache_read_answers(0, false));
}

#[test]
fn stream_table_incoming_and_outgoing() {
    let mut t = StreamTable::new(4, &[1, 4, 3]);
    assert_eq!(t.next_outgoing_stream_id(), 4);
    assert_eq!(t.open_stream(), 4);
    assert_eq!(t.open_stream(), 8);
    assert_eq!(t.next_outgoing_stream_id(), 12);
    // 1 and 3 are the peer's and registered; 4 is ours.
    assert!(!t.handle_incoming_stream(1));
    assert!(!t.handle_incoming_stream(6));
    assert!(t.handle_incoming_stream(5));
    assert!(!t.handle_incoming_stream(5));
    assert_eq!(t.accept(), Some(1));
    assert_eq!(t.accept(), Some(4));
    assert_eq!(t.accept(), Some(3));
    assert_eq!(t.accept(), Some(5));
    assert_eq!(t.accept(), None);
}

#[test]
fn open_stream_on_closed_connection() {
    let mut t = StreamTable::new(5, &[]);
    assert_eq!(t.open_stream_checked(false), Ok(5));
    assert_eq!(t.open_stream_checked(true), Err(ConnClosed));
    assert_eq!(t.next_outgoing_stream_id(), 9);
    assert_eq!(t.open_stream_checked(false), Ok(9));
    assert_eq!(t.next_outgoing_stream_id(), 13);
}

#[test]
fn stream_table_closing() {
    let mut t = StreamTable::new(5, &[]);
    t.close_stream(5);
    t.close_stream(9);
    t.close_stream(13);
    assert_eq!(t.handle_dropping_streams(), vec![5, 9, 13]);
    assert_eq!(t.handle_dropping_streams(), Vec::<u64>::new());
    assert_eq!(t.half_closed_streams(), vec![5, 9, 13]);
    t.handle_half_closed_streams(&[false, true, false]);
    assert_eq!(t.half_closed_streams(), vec![5, 13]);
    t.handle_half_closed_streams(&[true, true]);
    assert_eq!(t.half_closed_streams(), Vec::<u64>::new());
}

#[test]
fn ping_due_cases() {
    assert_eq!(ping_due(3, 10), Some(7));
    assert_eq!(ping_due(10, 10), Some(0));
    assert_eq!(ping_due(11, 10), None);
}

#[test]
fn send_loop_decisions() {
    let ping = 2_000_000_000u128;
    assert_eq!(
        send_step(ping, SendEvent::Produced { size: 1200, closed: false }),
        SendAction::Deliver(1200)
    );
    assert_eq!(send_step(ping, SendEvent::Produced { size: 1200, closed: true }), SendAction::Closed);
    let idle = |closed, conn_timeout, since_ping| SendEvent::Idle { closed, conn_timeout, since_ping };
    assert_eq!(send_step(ping, idle(true, None, 0)), SendAction::Closed);
    assert_eq!(send_step(ping, idle(false, None, ping + 1)), SendAction::Ping);
    assert_eq!(send_step(ping, idle(false, None, 500)), SendAction::Wait(ping - 500));
    assert_eq!(send_step(ping, idle(false, Some(25), 500)), SendAction::Wait(25));
    assert_eq!(send_step(ping, idle(false, Some(ping), 500)), SendAction::Wait(ping - 500));
    assert_eq!(send_step(ping, SendEvent::Woken), SendAction::Retry);
    assert_eq!(send_step(ping, SendEvent::WaitTimedOut { since_ping: ping + 1 }), SendAction::Ping);
    assert_eq!(send_step(ping, SendEvent::WaitTimedOut { since_ping: ping }), SendAction::HandleTimeout);
    assert_eq!(send_step(ping, SendEvent::Failed { closed: false }), SendAction::Fail);
    assert_eq!(send_step(ping, SendEvent::Failed { closed: true }), SendAction::Closed);
    assert_eq!(send_step(ping, SendEvent::WaitFailed), SendAction::Fail);
}

#[test]
fn pool_choice_cases() {
    assert_eq!(pool_choice(&[0, 0, 3, 1], 4), PoolChoice::Reuse(2));
    assert_eq!(pool_choice(&[5], 1), PoolChoice::Reuse(0));
    assert_eq!(pool_choice(&[0, 0], 3), PoolChoice::Connect);
    assert_eq!(pool_choice(&[], 1), PoolChoice::Connect);
    assert_eq!(pool_choice(&[0, 0], 2), PoolChoice::Full);
    assert_eq!(pool_choice(&[], 0), PoolChoice::Full);
}

#[test]
fn connect_loop_decisions() {
    assert_eq!(connect_step(ConnectEvent::Sent { closed: false }), ConnectAction::Receive);
    assert_eq!(connect_step(ConnectEvent::Sent { closed: true }), ConnectAction::TimedOut);
    assert_eq!(connect_step(ConnectEvent::Received { established: true }), ConnectAction::Established);
    assert_eq!(connect_step(ConnectEvent::Received { established: false }), ConnectAction::Send);
    assert_eq!(connect_step(ConnectEvent::RecvTimedOut), ConnectAction::HandleTimeout);
    assert_eq!(connect_step(ConnectEvent::Failed), ConnectAction::Fail);
}

#[test]
fn handshake_routes() {
    assert_eq!(handshake_route(true, true), HandshakeRoute::PreEstablished);
    assert_eq!(handshake_route(true, false), HandshakeRoute::PreEstablished);
    assert_eq!(handshake_route(false, true), HandshakeRoute::ClientHello);
    assert_eq!(handshake_route(false, false), HandshakeRoute::Unhandled);
}

#[test]
fn stream_io_decisions() {
    for recv in [true, false] {
        assert_eq!(stream_io_step(recv, StreamIoEvent::Start { closed: true }), StreamIoAction::Closed);
        assert_eq!(stream_io_step(recv, StreamIoEvent::Start { closed: false }), StreamIoAction::Operate);
        assert_eq!(stream_io_step(recv, StreamIoEvent::Moved { closed: false }), StreamIoAction::Return);
        assert_eq!(stream_io_step(recv, StreamIoEvent::Moved { closed: true }), StreamIoAction::Closed);
        assert_eq!(stream_io_step(recv, StreamIoEvent::Blocked { closed: true }), StreamIoAction::Closed);
        assert_eq!(stream_io_step(recv, StreamIoEvent::Failed { closed: false }), StreamIoAction::Fail);
        assert_eq!(stream_io_step(recv, StreamIoEvent::Failed { closed: true }), StreamIoAction::Closed);
        assert_eq!(stream_io_step(recv, StreamIoEvent::Woken), StreamIoAction::Retry);
        assert_eq!(stream_io_step(recv, StreamIoEvent::WaitFailed), StreamIoAction::Fail);
    }
    assert_eq!(
        stream_io_step(true, StreamIoEvent::Blocked { closed: false }),
        StreamIoAction::Wait(Some(500))
    );
    assert_eq!(stream_io_step(false, StreamIoEvent::Blocked { closed: false }), StreamIoAction::Wait(None));
    assert_eq!(stream_io_step(true, StreamIoEvent::WaitTimedOut), StreamIoAction::Retry);
}

#[test]
fn half_closed_reads() {
    assert!(half_closed_finished(HalfClosedRead::Read { fin: true }));
    assert!(!half_closed_finished(HalfClosedRead::Read { fin: false }));
    assert!(!half_closed_finished(HalfClosedRead::Done));
    assert!(half_closed_finished(HalfClosedRead::Error));
}

#[test]
fn ready_streams_register_peer_streams_once() {
    let mut t = StreamTable::new(0, &[]);
    assert_eq!(t.handle_ready_streams(&[1, 2, 3, 1, 4, 5, 3]), 3);
    assert_eq!(t.accept(), Some(1));
    assert_eq!(t.accept(), Some(3));
    assert_eq!(t.accept(), Some(5));
    assert_eq!(t.accept(), None);
    assert_eq!(t.handle_ready_streams(&[1, 3, 5, 7]), 1);
    assert_eq!(t.accept(), Some(7));
}

#[test]
fn incoming_queue_fifo_and_close() {
    let mut q = IncomingQueue::new();
    assert!(!q.is_closed());
    assert!(matches!(q.accept(), AcceptStep::Wait));
    assert_eq!(q.push("a"), Ok(()));
    assert_eq!(q.push("b"), Ok(()));
    assert!(matches!(q.accept(), AcceptStep::Conn("a")));
    q.close();
    assert!(q.is_closed());
    assert!(matches!(q.accept(), AcceptStep::Closed));
    assert_eq!(q.push("c"), Err("c"));
    assert!(matches!(q.accept(), AcceptStep::Closed));
}

#[test]
fn listener_routes() {
    assert_eq!(listener_write_route(false, HandshakeOutcome::Unhandled, true), ListenerWrite::Forward);
    assert_eq!(listener_write_route(false, HandshakeOutcome::Unhandled, false), ListenerWrite::Drop);
    assert_eq!(listener_write_route(false, HandshakeOutcome::Incoming, false), ListenerWrite::Admit);
    assert_eq!(listener_write_route(false, HandshakeOutcome::Internal, true), ListenerWrite::Reply);
    assert_eq!(listener_write_route(true, HandshakeOutcome::Internal, true), ListenerWrite::Refuse);
    assert_eq!(listener_write_route(true, HandshakeOutcome::Unhandled, false), ListenerWrite::Refuse);
    assert_eq!(listener_loop_step(None, true, 10), ListenerLoop::Skip);
    assert_eq!(listener_loop_step(Some(HandshakeOutcome::Unhandled), true, 0), ListenerLoop::Forward);
    assert_eq!(listener_loop_step(Some(HandshakeOutcome::Unhandled), false, 0), ListenerLoop::Drop);
    assert_eq!(
        listener_loop_step(Some(HandshakeOutcome::Incoming), false, 3),
        ListenerLoop::Admit { reply: true }
    );
    assert_eq!(
        listener_loop_step(Some(HandshakeOutcome::Internal), false, 0),
        ListenerLoop::Reply { reply: false }
    );
    assert_eq!(reply_datagram(b"abcdef", 3), b"abc".to_vec());
    assert_eq!(reply_datagram(b"abc", 0), Vec::<u8>::new());
    assert_eq!(listener_read_step(true, ConnRead::Packet), ListenerRead::Closed);
    assert_eq!(listener_read_step(false, ConnRead::Failed), ListenerRead::DropConn);
    assert_eq!(listener_read_step(false, ConnRead::Packet), ListenerRead::Deliver);
    assert_eq!(listener_read_step(false, ConnRead::Nothing), ListenerRead::Retry);
}

#[test]
fn retry_connection_ids() {
    let tag: Vec<u8> = (0u8..32).collect();
    assert_eq!(scid_from_tag(&tag), (0u8..20).collect::<Vec<u8>>());
    let seed = ConnIdSeed::generate().unwrap();
    let a = seed.retry_scid(b"client dcid");
    let b = seed.retry_scid(b"client dcid");
    let c = seed.retry_scid(b"other dcid");
    assert_eq!(a.len(), MAX_CONN_ID_LEN);
    assert_eq!(a, b);
    assert_ne!(a, c);
    // The id is not the destination id handed back.
    assert_ne!(&a[..11], b"client dcid");
}

#[test]
fn seed_from_generated_key() {
    let key = ring::hmac::Key::new(ring::hmac::HMAC_SHA256, b"secret");
    let seed = ConnIdSeed::from_generated(Ok(key)).unwrap();
    assert_eq!(seed.retry_scid(b"x").len(), MAX_CONN_ID_LEN);
    let check = ring::hmac::Key::new(ring::hmac::HMAC_SHA256, b"secret");
    let tag = ring::hmac::sign(&check, b"x");
    assert_eq!(seed.retry_scid(b"x"), tag.as_ref()[..MAX_CONN_ID_LEN].to_vec());
    // A key whose tag is exactly as long as the id.
    let sha1 = ring::hmac::Key::new(ring::hmac::HMAC_SHA1_FOR_LEGACY_USE_ONLY, b"k");
    let seed = ConnIdSeed::from_generated(Ok(sha1)).unwrap();
    let check = ring::hmac::Key::new(ring::hmac::HMAC_SHA1_FOR_LEGACY_USE_ONLY, b"k");
    assert_eq!(seed.retry_scid(b"dcid"), ring::hmac::sign(&check, b"dcid").as_ref().to_vec());
    assert!(matches!(
        ConnIdSeed::from_generated(Err(ring::error::Unspecified)),
        Err(hala::quic::seed::SeedError::Random)
    ));
}

#[test]
fn stream_accept_checked() {
    let mut t = StreamTable::new(4, &[]);
    assert!(matches!(t.accept_checked(false), AcceptStep::Wait));
    assert!(t.handle_incoming_stream(1));
    assert!(t.handle_incoming_stream(3));
    assert!(!t.handle_incoming_stream(1));
    assert!(matches!(t.accept_checked(true), AcceptStep::Closed));
    assert!(matches!(t.accept_checked(false), AcceptStep::Conn(1)));
    assert!(matches!(t.accept_checked(false), AcceptStep::Conn(3)));
    assert!(matches!(t.accept_checked(false), AcceptStep::Wait));
}

#[test]
fn pool_opens_credit_times_conns_streams() {
    // Ten connections, each allowing one stream: ten openings, then full.
    let mut left: Vec<u64> = Vec::new();
    let mut opened = 0;
    for _ in 0..12 {
        match pool_choice(&left, 10) {
            PoolChoice::Reuse(i) => {
                left[i] -= 1;
                opened += 1;
            }
            PoolChoice::Connect => {
                left.push(0);
                opened += 1;
            }
            PoolChoice::Full => {}
        }
    }
    assert_eq!(opened, 10);
    assert_eq!(left.len(), 10);
    assert_eq!(pool_choice(&left, 10), PoolChoice::Full);
}
