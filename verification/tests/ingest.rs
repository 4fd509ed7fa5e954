use burn_after_reading::digest::content_key;
use burn_after_reading::failure::Failure;
use burn_after_reading::ingest::{decimal_text, temp_name, Action, Event, Ingestion, STAGING_DIR};

fn opened(name_seed: u32) -> Ingestion {
    let (state, _) = Ingestion::new().step_with(Event::Start, 0);
    let (state, _) = state.step_with(Event::DirReady, name_seed);
    let (state, _) = state.step_with(Event::Probed(false), 0);
    let (state, action) = state.step_with(Event::Opened, 0);
    assert!(matches!(action, Action::Pull));
    state
}

fn feed(state: Ingestion, chunk: &[u8]) -> Ingestion {
    let (state, action) = state.step_with(Event::Chunk(chunk.to_vec()), 0);
    if chunk.is_empty() {
        assert!(matches!(action, Action::Pull));
        return state;
    }
    match action {
        Action::Write(bytes) => assert_eq!(bytes, chunk),
        _ => panic!("no write"),
    }
    let (state, action) = state.step_with(Event::Wrote(chunk.len()), 0);
    assert!(matches!(action, Action::Pull));
    state
}

fn finish(state: Ingestion) -> String {
    let (state, action) = state.step_with(Event::End, 0);
    assert!(matches!(action, Action::Close));
    let (state, action) = state.step_with(Event::Closed, 0);
    assert!(matches!(action, Action::EnsureStorage));
    let (state, action) = state.step_with(Event::DirReady, 0);
    let renamed = match action {
        Action::Rename { name: _, key } => key,
        _ => panic!("no rename"),
    };
    let (state, action) = state.step_with(Event::Promoted, 0);
    let key = match action {
        Action::Finish(promoted) => promoted.into_key(),
        _ => panic!("no finish"),
    };
    assert_eq!(key, renamed);
    match state {
        Ingestion::Done { key: done } => assert_eq!(done, key),
        _ => panic!("not done"),
    }
    key
}

fn is_abort(action: &Action, message: &str) -> bool {
    match action {
        Action::Abort(e) => matches!(e, Failure::Unexpected(_)) && e.describe() == message,
        _ => false,
    }
}

#[test]
fn staging_directory_is_tmp() {
    assert_eq!(STAGING_DIR, "tmp");
}

#[test]
fn decimal_text_of_numbers() {
    assert_eq!(decimal_text(0), "0");
    assert_eq!(decimal_text(7), "7");
    assert_eq!(decimal_text(10), "10");
    assert_eq!(decimal_text(1_234_567_890), "1234567890");
    assert_eq!(decimal_text(u32::MAX), "4294967295");
    for n in [9u32, 99, 100, 101, 65_535, 4_000_000_000] {
        assert_eq!(decimal_text(n), n.to_string());
    }
}

#[test]
fn temp_names_end_in_tmp() {
    assert_eq!(temp_name(0), "0.tmp");
    assert_eq!(temp_name(42), "42.tmp");
    assert_eq!(temp_name(u32::MAX), "4294967295.tmp");
}

#[test]
fn the_pipeline_runs_in_order() {
    let (state, action) = Ingestion::new().step_with(Event::Start, 1);
    assert!(matches!(state, Ingestion::Staging));
    assert!(matches!(action, Action::EnsureStaging));
    let (state, action) = state.step_with(Event::DirReady, 17);
    match action {
        Action::Probe(name) => assert_eq!(name, "17.tmp"),
        _ => panic!("no probe"),
    }
    let (state, action) = state.step_with(Event::Probed(false), 99);
    match action {
        Action::Create(name) => assert_eq!(name, "17.tmp"),
        _ => panic!("no create"),
    }
    let (state, action) = state.step_with(Event::Opened, 0);
    assert!(matches!(action, Action::Pull));
    let (state, action) = state.step_with(Event::Chunk(b"hello".to_vec()), 0);
    match action {
        Action::Write(bytes) => assert_eq!(bytes, b"hello"),
        _ => panic!("no write"),
    }
    let (state, action) = state.step_with(Event::Wrote(5), 0);
    assert!(matches!(action, Action::Pull));
    let (state, action) = state.step_with(Event::End, 0);
    assert!(matches!(action, Action::Close));
    let (state, action) = state.step_with(Event::Closed, 0);
    assert!(matches!(action, Action::EnsureStorage));
    let (state, action) = state.step_with(Event::DirReady, 0);
    match action {
        Action::Rename { name, key } => {
            assert_eq!(name, "17.tmp");
            assert_eq!(key, "LPJNul-wow4m6DsqxbninhsWHlwfp0JecwQzYpOLmCQ");
        }
        _ => panic!("no rename"),
    }
    let (state, action) = state.step_with(Event::Promoted, 0);
    match action {
        Action::Finish(promoted) => {
            assert_eq!(promoted.key(), "LPJNul-wow4m6DsqxbninhsWHlwfp0JecwQzYpOLmCQ")
        }
        _ => panic!("no finish"),
    }
    assert!(matches!(state, Ingestion::Done { .. }));
}

#[test]
fn a_taken_name_is_drawn_again() {
    let (state, _) = Ingestion::new().step_with(Event::Start, 0);
    let (state, _) = state.step_with(Event::DirReady, 1);
    let (state, action) = state.step_with(Event::Probed(true), 2);
    match action {
        Action::Probe(name) => assert_eq!(name, "2.tmp"),
        _ => panic!("no probe"),
    }
    let (state, action) = state.step_with(Event::Probed(true), 3);
    match action {
        Action::Probe(name) => assert_eq!(name, "3.tmp"),
        _ => panic!("no probe"),
    }
    let (_, action) = state.step_with(Event::Probed(false), 4);
    match action {
        Action::Create(name) => assert_eq!(name, "3.tmp"),
        _ => panic!("no create"),
    }
}

#[test]
fn a_name_is_drawn_only_where_one_is_needed() {
    assert!(!Ingestion::new().draws(&Event::Start));
    assert!(Ingestion::Staging.draws(&Event::DirReady));
    assert!(!Ingestion::Staging.draws(&Event::Opened));
    let probing = Ingestion::Probing { name: "1.tmp".to_string() };
    assert!(probing.draws(&Event::Probed(true)));
    assert!(!probing.draws(&Event::Probed(false)));
    assert!(!opened(1).draws(&Event::DirReady));
}

#[test]
fn step_without_a_draw_is_step_with_any_number() {
    let (state, action) = opened(5).step(Event::Chunk(b"abc".to_vec()));
    match action {
        Action::Write(bytes) => assert_eq!(bytes, b"abc"),
        _ => panic!("no write"),
    }
    let (state, _) = state.step(Event::Wrote(3));
    let (state, _) = state.step(Event::End);
    let (state, _) = state.step(Event::Closed);
    let (state, action) = state.step(Event::DirReady);
    match action {
        Action::Rename { name, key } => {
            assert_eq!(name, "5.tmp");
            assert_eq!(key, content_key(b"abc"));
        }
        _ => panic!("no rename"),
    }
    assert!(matches!(state, Ingestion::Promoting { .. }));
}

#[test]
fn step_draws_a_name_of_its_own() {
    let (state, _) = Ingestion::new().step(Event::Start);
    let (state, action) = state.step(Event::DirReady);
    let name = match action {
        Action::Probe(name) => name,
        _ => panic!("no probe"),
    };
    let number: u32 = name.strip_suffix(".tmp").unwrap().parse().unwrap();
    assert_eq!(name, temp_name(number));
    match state {
        Ingestion::Probing { name: held } => assert_eq!(held, name),
        _ => panic!("not probing"),
    }
}

#[test]
fn streamed_key_equals_inline_key() {
    let bytes: Vec<u8> = (0..10_000u32).map(|i| (i % 251) as u8).collect();
    let inline = content_key(&bytes);
    let whole = finish(feed(opened(1), &bytes));
    assert_eq!(whole, inline);
    let mut state = opened(2);
    for chunk in bytes.chunks(333) {
        state = feed(state, chunk);
    }
    assert_eq!(finish(state), inline);
    let mut state = opened(3);
    state = feed(state, &bytes[..1]);
    state = feed(state, b"");
    state = feed(state, &bytes[1..]);
    assert_eq!(finish(state), inline);
}

#[test]
fn an_empty_stream_has_the_key_of_nothing() {
    assert_eq!(finish(opened(1)), content_key(b""));
}

#[test]
fn a_partial_write_is_followed_by_the_rest() {
    let state = opened(1);
    let (state, _) = state.step_with(Event::Chunk(b"hello world".to_vec()), 0);
    let (state, action) = state.step_with(Event::Wrote(4), 0);
    match action {
        Action::Write(rest) => assert_eq!(rest, b"o world"),
        _ => panic!("no write"),
    }
    let (state, action) = state.step_with(Event::Wrote(1), 0);
    match action {
        Action::Write(rest) => assert_eq!(rest, b" world"),
        _ => panic!("no write"),
    }
    let (state, action) = state.step_with(Event::Wrote(6), 0);
    assert!(matches!(action, Action::Pull));
    assert_eq!(finish(state), content_key(b"hello world"));
}

#[test]
fn a_write_of_nothing_aborts() {
    let state = opened(1);
    let (state, _) = state.step_with(Event::Chunk(b"hello".to_vec()), 0);
    let (state, action) = state.step_with(Event::Wrote(0), 0);
    assert!(is_abort(&action, "write zero byte into writer"));
    assert!(matches!(state, Ingestion::Failed));
}

#[test]
fn a_write_of_too_much_aborts() {
    let state = opened(1);
    let (state, _) = state.step_with(Event::Chunk(b"hello".to_vec()), 0);
    let (state, _) = state.step_with(Event::Wrote(3), 0);
    let (state, action) = state.step_with(Event::Wrote(3), 0);
    assert!(is_abort(&action, "unexpected event"));
    assert!(matches!(state, Ingestion::Failed));
}

#[test]
fn a_failure_of_the_driver_aborts_in_any_state() {
    let (state, action) = Ingestion::new().step_with(Event::Failed("no space".to_string()), 0);
    assert!(is_abort(&action, "no space"));
    assert!(matches!(state, Ingestion::Failed));
    let (state, action) = opened(1).step_with(Event::Failed("disk gone".to_string()), 0);
    assert!(is_abort(&action, "disk gone"));
    assert!(matches!(state, Ingestion::Failed));
    let (state, _) = opened(1).step_with(Event::End, 0);
    let (state, action) = state.step_with(Event::Failed("flush failed".to_string()), 0);
    assert!(is_abort(&action, "flush failed"));
    assert!(matches!(state, Ingestion::Failed));
}

#[test]
fn an_event_out_of_turn_aborts() {
    let (state, action) = Ingestion::new().step_with(Event::Opened, 0);
    assert!(is_abort(&action, "unexpected event"));
    assert!(matches!(state, Ingestion::Failed));
    let (_, action) = opened(1).step_with(Event::Wrote(1), 0);
    assert!(is_abort(&action, "unexpected event"));
    let (_, action) = opened(1).step_with(Event::Promoted, 0);
    assert!(is_abort(&action, "unexpected event"));
    let (state, _) = opened(1).step_with(Event::Chunk(b"x".to_vec()), 0);
    let (_, action) = state.step_with(Event::End, 0);
    assert!(is_abort(&action, "unexpected event"));
    let (state, _) = Ingestion::Failed.step_with(Event::Start, 0);
    assert!(matches!(state, Ingestion::Failed));
}
