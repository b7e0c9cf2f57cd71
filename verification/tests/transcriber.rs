use voicecode::domain::models::TranscribedText;
use voicecode::pipeline::transcriber::{
    inference_thread_count, is_blank, release_count, settle_transcription, should_unload,
    transcriptions_url, worker_permits, ModelSlot, TranscriptionError,
};

#[test]
fn publishes_transcribed_text_for_valid_audio() {
    let out = settle_transcription(0, Ok("hola mundo".to_string()));
    assert_eq!(
        out,
        TranscribedText {
            seq: 0,
            raw: "hola mundo".into()
        }
    );
}

#[test]
fn discards_empty_transcription() {
    // The seq must still arrive (with empty raw) so the writer does not stall.
    let out = settle_transcription(0, Ok("   ".to_string()));
    assert_eq!(
        out,
        TranscribedText {
            seq: 0,
            raw: String::new()
        }
    );
}

#[test]
fn survives_backend_error() {
    let out = settle_transcription(
        0,
        Err(TranscriptionError {
            message: "boom".to_string(),
        }),
    );
    assert_eq!(
        out,
        TranscribedText {
            seq: 0,
            raw: String::new()
        }
    );
}

#[test]
fn text_with_surrounding_whitespace_is_kept_as_is() {
    let out = settle_transcription(3, Ok(" hola ".to_string()));
    assert_eq!(out.seq, 3);
    assert_eq!(out.raw, " hola ");
}

#[test]
fn blank_means_only_unicode_whitespace() {
    assert!(is_blank(""));
    assert!(is_blank(" \t\n\u{a0}\u{2003}"));
    assert!(!is_blank(" x "));
}

#[test]
fn at_least_one_worker() {
    assert_eq!(worker_permits(0), 1);
    assert_eq!(worker_permits(1), 1);
    assert_eq!(worker_permits(8), 8);
}

#[test]
fn idle_model_unloads_only_when_unused_long_enough() {
    let limit = 300u128 * 1_000_000_000;
    assert!(should_unload(true, 0, limit, limit));
    assert!(!should_unload(true, 0, limit - 1, limit));
    assert!(!should_unload(true, 1, limit * 2, limit));
    assert!(!should_unload(false, 0, limit * 2, limit));
}

#[test]
fn release_never_goes_below_zero() {
    assert_eq!(release_count(0), 0);
    assert_eq!(release_count(3), 2);
}

#[test]
fn inference_leaves_two_cores_free() {
    assert_eq!(inference_thread_count(16), 14);
    assert_eq!(inference_thread_count(3), 1);
    assert_eq!(inference_thread_count(1), 1);
    assert_eq!(inference_thread_count(0), 1);
}

#[test]
fn endpoint_is_appended_to_the_base() {
    assert_eq!(
        transcriptions_url("https://api.groq.com/openai/v1"),
        "https://api.groq.com/openai/v1/audio/transcriptions"
    );
    assert_eq!(
        transcriptions_url("https://example.com/"),
        "https://example.com//audio/transcriptions"
    );
    assert_eq!(transcriptions_url(""), "/audio/transcriptions");
}

#[test]
fn model_slot_loads_on_demand_and_counts_users() {
    let mut slot: ModelSlot<&str> = ModelSlot::new();
    assert!(slot.model().is_none());
    assert_eq!(slot.active(), 0);
    // Nothing loaded: the caller has to load the model.
    assert!(!slot.begin_use());
    assert_eq!(slot.active(), 0);
    slot.install("model");
    assert_eq!(slot.model(), Some(&"model"));
    assert_eq!(slot.active(), 1);
    // A second transcription takes the already loaded model.
    assert!(slot.begin_use());
    assert_eq!(slot.active(), 2);
    slot.end_use();
    slot.end_use();
    assert_eq!(slot.active(), 0);
    slot.end_use();
    assert_eq!(slot.active(), 0);
}

#[test]
fn model_slot_never_unloads_while_in_use() {
    let limit: u128 = 300_000_000_000;
    let mut slot: ModelSlot<u32> = ModelSlot::new();
    slot.install(7);
    assert!(!slot.unload_if_idle(limit * 10, limit));
    assert_eq!(slot.model(), Some(&7));
    slot.end_use();
    // Idle, but not for long enough yet.
    assert!(!slot.unload_if_idle(limit - 1, limit));
    assert_eq!(slot.model(), Some(&7));
    assert!(slot.unload_if_idle(limit, limit));
    assert!(slot.model().is_none());
    // Already unloaded: nothing more to drop.
    assert!(!slot.unload_if_idle(limit, limit));
}
