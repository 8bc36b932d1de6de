use glimanexus::session::{ChannelEvent, ConnectOutcome, ConnectRetry, ConnectStep, LogEvent, LogStream, OutputCollector};

#[test]
fn connect_succeeds_first_time() {
    let (mut retry, step) = ConnectRetry::start();
    assert_eq!(step, ConnectStep::Attempt { delay_ms: 0 });
    assert_eq!(retry.on_outcome(ConnectOutcome::Connected), ConnectStep::Succeed);
}

#[test]
fn connect_retries_twice_then_gives_up_with_last_error() {
    let (mut retry, _) = ConnectRetry::start();
    assert_eq!(retry.on_outcome(ConnectOutcome::Failed("refused".to_string())), ConnectStep::Attempt { delay_ms: 400 });
    assert_eq!(retry.on_outcome(ConnectOutcome::Failed("reset".to_string())), ConnectStep::Attempt { delay_ms: 400 });
    assert_eq!(
        retry.on_outcome(ConnectOutcome::TimedOut),
        ConnectStep::GiveUp("Zeitüberschreitung beim Verbindungsaufbau (Server nicht erreichbar?)".to_string())
    );
}

#[test]
fn connect_succeeds_on_third_attempt() {
    let (mut retry, _) = ConnectRetry::start();
    let _ = retry.on_outcome(ConnectOutcome::TimedOut);
    let _ = retry.on_outcome(ConnectOutcome::Failed("x".to_string()));
    assert_eq!(retry.on_outcome(ConnectOutcome::Connected), ConnectStep::Succeed);
}

#[test]
fn output_collector_stops_at_eof() {
    let mut c = OutputCollector::new();
    assert!(c.on_event(ChannelEvent::Data(b"hello ".to_vec())));
    assert!(c.on_event(ChannelEvent::Other));
    assert!(c.on_event(ChannelEvent::ExtendedData(b"world".to_vec())));
    assert!(!c.on_event(ChannelEvent::Eof));
    assert_eq!(c.text(), "hello world");
}

#[test]
fn output_collector_lossy_text() {
    let mut c = OutputCollector::new();
    assert!(c.on_event(ChannelEvent::Data(vec![0x61, 0xff, 0x62])));
    assert!(!c.on_event(ChannelEvent::Close));
    assert_eq!(c.text(), "a\u{fffd}b");
}

fn texts(events: &[LogEvent]) -> Vec<String> {
    events
        .iter()
        .map(|e| match e {
            LogEvent::Line { text } => text.clone(),
            LogEvent::Closed => "<closed>".to_string(),
        })
        .collect()
}

#[test]
fn log_stream_lines_and_close() {
    let mut s = LogStream::new();
    assert_eq!(texts(&s.on_data(b"first line\nsecond")), vec!["first line"]);
    assert_eq!(texts(&s.on_data(b" part\r\nthird\n")), vec!["second part", "third"]);
    assert_eq!(texts(&s.on_data(b"tail  ")), Vec::<String>::new());
    assert_eq!(texts(&s.on_close()), vec!["tail", "<closed>"]);
}

#[test]
fn log_stream_close_without_pending() {
    let mut s = LogStream::new();
    assert_eq!(texts(&s.on_data(b"a\n\n")), vec!["a", ""]);
    assert_eq!(texts(&s.on_close()), vec!["<closed>"]);
}

#[test]
fn log_stream_chunking_does_not_matter() {
    let data = b"alpha\nbeta gamma\n\ndelta\nrest";
    let mut whole = LogStream::new();
    let mut all = texts(&whole.on_data(data));
    all.extend(texts(&whole.on_close()));
    for split in 0..data.len() {
        let mut s = LogStream::new();
        let mut got = texts(&s.on_data(&data[..split]));
        got.extend(texts(&s.on_data(&data[split..])));
        got.extend(texts(&s.on_close()));
        assert_eq!(got, all, "split at {split}");
    }
    assert_eq!(all, vec!["alpha", "beta gamma", "", "delta", "rest", "<closed>"]);
}

#[test]
fn output_collector_raw_bytes() {
    let mut c = OutputCollector::new();
    assert!(c.on_event(ChannelEvent::Data(vec![0x1f, 0x8b, 0xff])));
    assert!(!c.on_event(ChannelEvent::Close));
    assert_eq!(c.into_bytes(), vec![0x1f, 0x8b, 0xff]);
}

#[test]
fn log_stream_whole_run_byte_by_byte() {
    let data = b"one\r\ntwo\n\nthree\nfour";
    let mut s = LogStream::new();
    let mut got = Vec::new();
    for b in data.iter() {
        got.extend(texts(&s.on_data(&[*b])));
    }
    got.extend(texts(&s.on_close()));
    let mut three = LogStream::new();
    let mut by_three = Vec::new();
    for chunk in data.chunks(3) {
        by_three.extend(texts(&three.on_data(chunk)));
    }
    by_three.extend(texts(&three.on_close()));
    assert_eq!(got, vec!["one", "two", "", "three", "four", "<closed>"]);
    assert_eq!(by_three, got);
}
