use serial_cli::frames::{frame, frames, pacing_delay_ms, WriteAction, WriteSequence, FRAME_COUNT};

fn run_sequence(payload: &str, fail_at: Option<usize>) -> (Vec<(String, u64)>, bool) {
    let mut seq = WriteSequence::new(payload.to_string());
    let mut sent = Vec::new();
    loop {
        match seq.next_action() {
            WriteAction::Send { frame, pause_ms } => {
                let ok = fail_at != Some(sent.len());
                if ok {
                    sent.push((frame, pause_ms));
                }
                seq.record_write(ok);
            }
            WriteAction::Finished => return (sent, true),
            WriteAction::Aborted => return (sent, false),
        }
    }
}

#[test]
fn frame_markers() {
    assert_eq!(frame(0, "HELLO"), "wHELLO");
    assert_eq!(frame(1, "HELLO"), "aHELLO");
    assert_eq!(frame(7, "HELLO"), "aHELLO");
}

#[test]
fn frames_of_hello() {
    let f = frames("HELLO");
    assert_eq!(FRAME_COUNT, 8);
    assert_eq!(
        f,
        vec!["wHELLO", "aHELLO", "aHELLO", "aHELLO", "aHELLO", "aHELLO", "aHELLO", "aHELLO"]
    );
}

#[test]
fn pacing_is_character_length() {
    assert_eq!(pacing_delay_ms("wHELLO"), 6);
    assert_eq!(pacing_delay_ms("w"), 1);
    assert_eq!(pacing_delay_ms("aé"), 2);
}

#[test]
fn write_sequence_of_hello() {
    let (sent, finished) = run_sequence("HELLO", None);
    assert!(finished);
    assert_eq!(sent.len(), 8);
    assert_eq!(sent[0], ("wHELLO".to_string(), 6));
    for item in &sent[1..] {
        assert_eq!(item, &("aHELLO".to_string(), 6));
    }
    let total: u64 = sent.iter().map(|(_, p)| *p).sum();
    assert_eq!(total, 48);
}

#[test]
fn write_sequence_total_pacing_general() {
    let payload = "abc123";
    let (sent, finished) = run_sequence(payload, None);
    assert!(finished);
    let total: u64 = sent.iter().map(|(_, p)| *p).sum();
    assert_eq!(total, 8 * (payload.len() as u64 + 1));
}

#[test]
fn write_sequence_aborts_on_failure() {
    let (sent, finished) = run_sequence("X", Some(3));
    assert!(!finished);
    assert_eq!(sent.len(), 3);
    assert_eq!(sent[0].0, "wX");
    assert_eq!(sent[2].0, "aX");
}

#[test]
fn write_sequence_first_write_fails() {
    let (sent, finished) = run_sequence("X", Some(0));
    assert!(!finished);
    assert!(sent.is_empty());
}
