use yeelight::codec::Command;
use yeelight::session::{Session, SessionError, Step};
use yeelight::values::{Color, Effect, TransitionDuration};

fn command() -> Command {
    Command::set_color(Color::Rgb(1, 2, 3), Effect::Smooth, TransitionDuration::create(100).unwrap())
}

fn lines(ls: &[&str]) -> Vec<Vec<u8>> {
    ls.iter().map(|l| l.as_bytes().to_vec()).collect()
}

#[test]
fn ids_start_at_zero_and_increase() {
    let mut s = Session::new();
    assert_eq!(s.next_id(), 0);
    let a = s.begin(&command());
    let b = s.begin(&command());
    assert_eq!((a.id, b.id), (0, 1));
    assert!(a.request.starts_with("{\"id\":0,"));
    assert!(b.request.starts_with("{\"id\":1,"));
    let (r, _) = s.send(&command(), &vec![]);
    assert_eq!(r.err(), Some(SessionError::ConnectionClosed));
    let (r, _) = s.send(&command(), &lines(&["garbage\r\n"]));
    assert_eq!(r.err(), Some(SessionError::ProtocolCorruption));
    assert_eq!(s.next_id(), 4);
    let c = s.begin(&command());
    assert_eq!(c.id, 4);
}

#[test]
fn skips_chatter_and_stale_replies() {
    let mut s = Session::new();
    let _ = s.begin(&command());
    let incoming = lines(&[
        "{\"method\":\"props\",\"params\":{\"power\":\"on\"}}\r\n",
        "{\"id\":0,\"result\":[\"stale\"]}\r\n",
        "{\"id\":1,\"result\":[\"ok\"]}\r\n",
        "{\"id\":1,\"result\":[\"second\"]}\r\n",
    ]);
    let (r, consumed) = s.send(&command(), &incoming);
    let reply = r.ok().unwrap();
    assert_eq!(reply.id, 1);
    assert_eq!(reply.result, vec!["ok".to_string()]);
    assert_eq!(consumed, 3);
}

#[test]
fn closed_before_reply() {
    let mut s = Session::new();
    let incoming = lines(&["{\"id\":7,\"result\":[\"ok\"]}\r\n", ""]);
    let (r, consumed) = s.send(&command(), &incoming);
    assert_eq!(r.err(), Some(SessionError::ConnectionClosed));
    assert_eq!(consumed, 2);
    let mut t = Session::new();
    let (r, consumed) = t.send(&command(), &lines(&["{\"note\":1}\r\n"]));
    assert_eq!(r.err(), Some(SessionError::ConnectionClosed));
    assert_eq!(consumed, 1);
}

#[test]
fn malformed_line_is_fatal() {
    let mut s = Session::new();
    let incoming = lines(&["{\"id\":0,\"resu\r\n", "{\"id\":0,\"result\":[\"ok\"]}\r\n"]);
    let (r, consumed) = s.send(&command(), &incoming);
    assert_eq!(r.err(), Some(SessionError::ProtocolCorruption));
    assert_eq!(consumed, 1);
}

#[test]
fn on_read_decisions() {
    let mut s = Session::new();
    let p = s.begin(&command());
    assert!(matches!(p.on_read(b""), Step::Fail(SessionError::ConnectionClosed)));
    assert!(matches!(p.on_read(b"{]\r\n"), Step::Fail(SessionError::ProtocolCorruption)));
    assert!(matches!(p.on_read(b"{\"id\":9,\"result\":[]}\r\n"), Step::Continue));
    match p.on_read(b"{\"id\":0,\"result\":[]}\r\n") {
        Step::Done(r) => assert_eq!(r.id, 0),
        _ => panic!("expected the matching reply"),
    }
}
