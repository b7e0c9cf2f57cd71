use voicecode::domain::models::KeyEventKind;
use voicecode::pipeline::recorder::{is_long_enough, Recorder, RecorderAction};

/// Drives the recorder's decisions the way the pipeline stage does, with an
/// input that always yields `samples` samples. Returns the published seqs and
/// how many times capture was started.
fn run_events(mut rec: Recorder, samples: usize, events: Vec<KeyEventKind>) -> (Vec<u64>, usize) {
    let mut out = Vec::new();
    let mut starts = 0;
    for kind in events {
        match rec.handle_key(kind) {
            RecorderAction::Ignore => {}
            RecorderAction::StartCapture => {
                starts += 1;
                rec.capture_started(true);
            }
            RecorderAction::StopCapture => {
                if let Some(seq) = rec.finish_capture(Some(samples)) {
                    out.push(seq);
                }
            }
        }
    }
    (out, starts)
}

fn recorder() -> Recorder {
    Recorder::new(16000, 1, 300)
}

use KeyEventKind::{Down, Up};

#[test]
fn recorder_seq_increments_per_recording() {
    let (out, _) = run_events(recorder(), 16000, vec![Down, Up, Down, Up]);
    assert_eq!(out.len(), 2);
    assert_eq!(out[0], 0);
    assert_eq!(out[1], 1);
}

#[test]
fn mod_seq_increments_per_recording() {
    let (out, _) = run_events(recorder(), 16000, vec![Down, Up, Down, Up]);
    assert_eq!(out.len(), 2);
    assert_eq!(out[0], 0);
    assert_eq!(out[1], 1);
}

#[test]
fn recorder_discards_recording_shorter_than_minimum() {
    // 160 samples at 16 kHz = 10 ms < 300 ms.
    let (out, _) = run_events(recorder(), 160, vec![Down, Up]);
    assert!(out.is_empty());
}

#[test]
fn mod_discards_recording_shorter_than_minimum() {
    let (out, _) = run_events(recorder(), 160, vec![Down, Up]);
    assert!(out.is_empty());
}

#[test]
fn recorder_ignores_duplicate_key_down() {
    let (out, starts) = run_events(recorder(), 16000, vec![Down, Down, Up]);
    assert_eq!(out.len(), 1);
    // Capture started only once despite the two `down` events.
    assert_eq!(starts, 1);
}

#[test]
fn mod_ignores_duplicate_key_down() {
    let (out, starts) = run_events(recorder(), 16000, vec![Down, Down, Up]);
    assert_eq!(out.len(), 1);
    assert_eq!(starts, 1);
}

#[test]
fn recorder_ignores_key_up_without_down() {
    let (out, starts) = run_events(recorder(), 16000, vec![Up]);
    assert!(out.is_empty());
    assert_eq!(starts, 0);
}

#[test]
fn mod_ignores_key_up_without_down() {
    let (out, starts) = run_events(recorder(), 16000, vec![Up]);
    assert!(out.is_empty());
    assert_eq!(starts, 0);
}

#[test]
fn failed_start_means_no_recording() {
    let mut rec = recorder();
    assert_eq!(rec.handle_key(Down), RecorderAction::StartCapture);
    rec.capture_started(false);
    // Nothing is recording, so the key-up is ignored and a new down retries.
    assert_eq!(rec.handle_key(Up), RecorderAction::Ignore);
    assert_eq!(rec.handle_key(Down), RecorderAction::StartCapture);
}

#[test]
fn failed_stop_publishes_nothing_and_keeps_the_seq() {
    let mut rec = recorder();
    rec.handle_key(Down);
    rec.capture_started(true);
    assert_eq!(rec.handle_key(Up), RecorderAction::StopCapture);
    assert_eq!(rec.finish_capture(None), None);
    rec.handle_key(Down);
    rec.capture_started(true);
    rec.handle_key(Up);
    assert_eq!(rec.finish_capture(Some(4800)), Some(0));
}

#[test]
fn minimum_duration_is_inclusive() {
    // 4800 samples at 16 kHz are exactly 300 ms.
    assert!(is_long_enough(4800, 16000, 300));
    assert!(!is_long_enough(4799, 16000, 300));
    assert!(is_long_enough(0, 16000, 0));
    assert!(is_long_enough(1, 0, 300));
}
