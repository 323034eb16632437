use pojde_rs::error::Error;
use pojde_rs::lifecycle::Failure;
use pojde_rs::stream::{
    decode_text, subscribe, Action, Chunk, Event, Frame, Relay, Sink, Source, Subscription,
};

#[test]
fn subscription_asks_for_both_outputs() {
    assert_eq!(
        subscribe("pojde-", Source::Logs, "web"),
        Subscription {
            container: "pojde-web".to_string(),
            source: Source::Logs,
            stdout: true,
            stderr: true,
        }
    );
}

#[test]
fn output_frames_become_chunks() {
    assert_eq!(Chunk::from_frame(Frame::StdOut(vec![1, 2])), Ok(Chunk::Stdout(vec![1, 2])));
    assert_eq!(Chunk::from_frame(Frame::StdErr(vec![3])), Ok(Chunk::Stderr(vec![3])));
}

#[test]
fn input_frame_is_a_protocol_violation() {
    assert_eq!(Chunk::from_frame(Frame::StdIn(vec![1])), Err(Error::ProtocolViolation));
    assert_eq!(Chunk::from_frame(Frame::StdIn(Vec::new())), Err(Error::ProtocolViolation));
}

#[test]
fn chunk_goes_to_its_own_sink() {
    assert_eq!(Chunk::Stdout(vec![1]).sink(), Sink::Stdout);
    assert_eq!(Chunk::Stderr(vec![1]).sink(), Sink::Stderr);
    assert_eq!(Chunk::Stdout(vec![1, 2, 3]).bytes(), &vec![1, 2, 3]);
    assert_eq!(Chunk::Stderr(vec![9]).bytes(), &vec![9]);
}

#[test]
fn decode_text_reads_utf8() {
    assert_eq!(decode_text(b"hello\n"), Ok("hello\n".to_string()));
    assert_eq!(decode_text("grüße 日本".as_bytes()), Ok("grüße 日本".to_string()));
    assert_eq!(decode_text(b""), Ok(String::new()));
}

#[test]
fn decode_text_refuses_what_is_not_utf8() {
    assert_eq!(decode_text(&[0xff, 0xfe]), Err(Error::EncodingError));
    assert_eq!(decode_text(&[b'a', 0xc3]), Err(Error::EncodingError));
    assert_eq!(decode_text(&[0xed, 0xa0, 0x80]), Err(Error::EncodingError));
    assert_eq!(decode_text(&[0xc0, 0x80]), Err(Error::EncodingError));
}

#[test]
fn chunk_text_decodes_its_bytes() {
    assert_eq!(Chunk::Stdout(b"ok".to_vec()).text(), Ok("ok".to_string()));
    assert_eq!(Chunk::Stderr(vec![0x80]).text(), Err(Error::EncodingError));
}

#[test]
fn relay_writes_frames_in_arrival_order() {
    let mut relay = Relay::attach("web");
    assert!(relay.is_attached());
    assert_eq!(relay.name(), "web");
    let frames = vec![
        Frame::StdOut(b"one".to_vec()),
        Frame::StdErr(b"two".to_vec()),
        Frame::StdOut(b"three".to_vec()),
    ];
    let actions: Vec<Action> = frames.into_iter().map(|f| relay.step(Event::Frame(f))).collect();
    assert_eq!(
        actions,
        vec![
            Action::Write(Sink::Stdout, b"one".to_vec()),
            Action::Write(Sink::Stderr, b"two".to_vec()),
            Action::Write(Sink::Stdout, b"three".to_vec()),
        ]
    );
    assert!(relay.is_attached());
}

#[test]
fn relay_never_writes_an_input_frame() {
    let mut relay = Relay::attach("web");
    assert_eq!(
        relay.step(Event::Frame(Frame::StdIn(b"ls\n".to_vec()))),
        Action::Release(Some(Error::ProtocolViolation))
    );
    assert!(!relay.is_attached());
    assert_eq!(relay.step(Event::Frame(Frame::StdIn(b"ls\n".to_vec()))), Action::Nothing);
}

#[test]
fn relay_releases_when_the_stream_ends() {
    let mut relay = Relay::attach("web");
    assert_eq!(relay.step(Event::Ended), Action::Release(None));
    assert!(!relay.is_attached());
}

#[test]
fn relay_releases_on_cancel_and_then_asks_for_nothing() {
    let mut relay = Relay::attach("web");
    assert_eq!(
        relay.step(Event::Frame(Frame::StdOut(b"a".to_vec()))),
        Action::Write(Sink::Stdout, b"a".to_vec())
    );
    assert_eq!(relay.step(Event::Cancelled), Action::Release(None));
    assert!(!relay.is_attached());
    assert_eq!(relay.step(Event::Frame(Frame::StdOut(b"b".to_vec()))), Action::Nothing);
    assert_eq!(relay.step(Event::Ended), Action::Nothing);
    assert_eq!(relay.step(Event::Cancelled), Action::Nothing);
    assert_eq!(
        relay.step(Event::Failed(Failure::Unavailable("late".to_string()))),
        Action::Nothing
    );
    assert!(!relay.is_attached());
}

#[test]
fn relay_reports_a_failure_with_the_instance_name() {
    let mut relay = Relay::attach("web");
    assert_eq!(
        relay.step(Event::Failed(Failure::NotFound("no such container".to_string()))),
        Action::Release(Some(Error::InstanceNotFound("web".to_string())))
    );
    assert!(!relay.is_attached());

    let mut relay = Relay::attach("db");
    assert_eq!(
        relay.step(Event::Failed(Failure::Unavailable("broken pipe".to_string()))),
        Action::Release(Some(Error::RuntimeUnavailable("broken pipe".to_string())))
    );

    let mut relay = Relay::attach("db");
    assert_eq!(
        relay.step(Event::Failed(Failure::Refused("nope".to_string()))),
        Action::Release(Some(Error::OperationFailed("db".to_string(), "nope".to_string())))
    );
}

#[test]
fn relays_do_not_share_state() {
    let mut first = Relay::attach("a");
    let mut second = Relay::attach("b");
    assert_eq!(first.step(Event::Cancelled), Action::Release(None));
    assert!(second.is_attached());
    assert_eq!(
        second.step(Event::Frame(Frame::StdErr(vec![7]))),
        Action::Write(Sink::Stderr, vec![7])
    );
}

#[test]
fn run_answers_every_event_in_order() {
    let mut relay = Relay::attach("web");
    let actions = relay.run(vec![
        Event::Frame(Frame::StdOut(b"1".to_vec())),
        Event::Frame(Frame::StdErr(b"2".to_vec())),
        Event::Ended,
        Event::Frame(Frame::StdOut(b"3".to_vec())),
        Event::Cancelled,
    ]);
    assert_eq!(
        actions,
        vec![
            Action::Write(Sink::Stdout, b"1".to_vec()),
            Action::Write(Sink::Stderr, b"2".to_vec()),
            Action::Release(None),
            Action::Nothing,
            Action::Nothing,
        ]
    );
    assert!(!relay.is_attached());
}

#[test]
fn run_of_nothing_changes_nothing() {
    let mut relay = Relay::attach("web");
    assert_eq!(relay.run(Vec::new()), Vec::<Action>::new());
    assert!(relay.is_attached());
}
