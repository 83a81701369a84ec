use echo_server::{Action, ConnectionHandler, Event, Phase, TRANSFER_WINDOW};

fn feed(h: &mut ConnectionHandler, bytes: &[u8]) -> Action {
    h.step(Event::Data(bytes.to_vec()))
}

fn sent(a: Action) -> Vec<u8> {
    match a {
        Action::Send(b) => b,
        other => panic!("expected a reply, got {:?}", other),
    }
}

#[test]
fn request_in_three_chunks_is_echoed() {
    let req = b"GET / HTTP/1.1\r\nHost: x\r\n\r\n";
    assert_eq!(req.len(), 27);
    let mut h = ConnectionHandler::new();
    assert!(matches!(feed(&mut h, &req[..10]), Action::ReadMore));
    assert_eq!(h.phase(), Phase::Reading);
    assert!(matches!(feed(&mut h, &req[10..20]), Action::ReadMore));
    assert_eq!(h.request(), &req[..20]);
    let reply = sent(feed(&mut h, &req[20..]));
    assert_eq!(h.phase(), Phase::Responding);
    assert_eq!(h.request(), &req[..]);
    let expected = b"HTTP/1.1 200 OK\r\nContent-Type: text/plain\r\nContent-Length: 36\r\n\r\nYou sent GET / HTTP/1.1\r\nHost: x\r\n\r\n";
    assert_eq!(reply, expected.to_vec());
    assert!(matches!(h.step(Event::WriteFinished), Action::Close));
    assert_eq!(h.phase(), Phase::Closed);
}

#[test]
fn bare_marker_is_answered_without_waiting_for_close() {
    let mut h = ConnectionHandler::new();
    let reply = sent(feed(&mut h, b"\r\n\r\n"));
    let expected = b"HTTP/1.1 200 OK\r\nContent-Type: text/plain\r\nContent-Length: 13\r\n\r\nYou sent \r\n\r\n";
    assert_eq!(reply, expected.to_vec());
}

#[test]
fn empty_read_closes_without_reply() {
    let mut h = ConnectionHandler::new();
    assert!(matches!(feed(&mut h, b""), Action::Close));
    assert_eq!(h.phase(), Phase::Closed);
    assert!(h.request().is_empty());
}

#[test]
fn empty_read_after_partial_request_discards_it() {
    let mut h = ConnectionHandler::new();
    assert!(matches!(feed(&mut h, b"GET / HTTP/1.1\r\n"), Action::ReadMore));
    assert!(matches!(feed(&mut h, b""), Action::Close));
    assert_eq!(h.phase(), Phase::Closed);
    assert!(h.request().is_empty());
}

#[test]
fn failed_read_closes_without_reply() {
    let mut h = ConnectionHandler::new();
    assert!(matches!(feed(&mut h, b"abc"), Action::ReadMore));
    assert!(matches!(h.step(Event::ReadFailed), Action::Close));
    assert_eq!(h.phase(), Phase::Closed);
}

#[test]
fn nothing_is_read_after_the_reply() {
    let mut h = ConnectionHandler::new();
    sent(feed(&mut h, b"x\r\n\r\n"));
    assert!(matches!(feed(&mut h, b"more"), Action::Close));
    assert_eq!(h.phase(), Phase::Closed);
    assert!(matches!(feed(&mut h, b"\r\n\r\n"), Action::Close));
}

#[test]
fn byte_by_byte_matches_all_at_once() {
    let req = b"POST /a HTTP/1.1\r\nA: b\r\n\r\n";
    let mut whole = ConnectionHandler::new();
    let reply_whole = sent(feed(&mut whole, req));
    let mut single = ConnectionHandler::new();
    let mut reply_single = Vec::new();
    for (i, b) in req.iter().enumerate() {
        let a = feed(&mut single, &[*b]);
        if i + 1 < req.len() {
            assert!(matches!(a, Action::ReadMore), "stopped early at byte {}", i);
        } else {
            reply_single = sent(a);
        }
    }
    assert_eq!(reply_whole, reply_single);
}

#[test]
fn marker_split_across_reads_is_found() {
    let mut h = ConnectionHandler::new();
    assert!(matches!(feed(&mut h, b"ab\r\n"), Action::ReadMore));
    assert!(matches!(feed(&mut h, b"\r"), Action::ReadMore));
    let reply = sent(feed(&mut h, b"\ncd"));
    assert!(reply.ends_with(b"You sent ab\r\n\r\ncd"));
}

#[test]
fn bytes_in_the_marker_read_after_it_are_echoed() {
    let mut h = ConnectionHandler::new();
    let reply = sent(feed(&mut h, b"a\r\n\r\ntail"));
    let expected = b"HTTP/1.1 200 OK\r\nContent-Type: text/plain\r\nContent-Length: 18\r\n\r\nYou sent a\r\n\r\ntail";
    assert_eq!(reply, expected.to_vec());
}

#[test]
fn separate_handlers_share_nothing() {
    let mut a = ConnectionHandler::new();
    let mut b = ConnectionHandler::new();
    assert!(matches!(feed(&mut a, b"first"), Action::ReadMore));
    assert!(matches!(a.step(Event::ReadFailed), Action::Close));
    let reply = sent(feed(&mut b, b"second\r\n\r\n"));
    assert!(reply.ends_with(b"You sent second\r\n\r\n"));
}

#[test]
fn transfer_window_is_one_kibibyte() {
    assert_eq!(TRANSFER_WINDOW, 1024);
}
