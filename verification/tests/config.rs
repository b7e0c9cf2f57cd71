use voicecode::config::{
    Backend, Config, PartialAudio, PartialCleaner, PartialConfig, PartialGroq, PartialPtt,
    PartialTranscriber, PartialWhisper, PartialWriter,
};

#[test]
fn missing_file_returns_defaults() {
    let config = Config::from_partial(PartialConfig::default());
    assert_eq!(config.ptt.key, "f12");
    assert_eq!(config.audio.sample_rate, 16000);
    assert_eq!(config.transcriber.backend, Backend::Groq);
    assert_eq!(config.cleaner.filler_patterns.len(), 8);
}

#[test]
fn full_toml_overrides_everything() {
    let partial = PartialConfig {
        ptt: PartialPtt {
            key: Some("f9".into()),
        },
        audio: PartialAudio {
            sample_rate: Some(44100),
            channels: Some(2),
            min_audio_duration_ms: Some(500),
            ..Default::default()
        },
        whisper: PartialWhisper {
            model: Some("small".into()),
            device: Some("cpu".into()),
            compute_type: Some("int8".into()),
            language: Some("en".into()),
            ..Default::default()
        },
        transcriber: PartialTranscriber {
            max_workers: Some(4),
            idle_unload_seconds: Some(600),
            backend: Some(Backend::Local),
        },
        cleaner: PartialCleaner {
            filler_patterns: Some(vec!["\\bum\\b".into()]),
        },
        writer: PartialWriter {
            clipboard_restore_delay_ms: Some(100),
        },
        groq: PartialGroq {
            model: Some("whisper-large-v3-turbo".into()),
            api_key_env: Some("MY_KEY".into()),
            base_url: Some("https://example.com".into()),
        },
    };
    let config = Config::from_partial(partial);
    assert_eq!(config.ptt.key, "f9");
    assert_eq!(config.audio.sample_rate, 44100);
    assert_eq!(config.whisper.device, "cpu");
    assert_eq!(config.transcriber.max_workers, 4);
    assert_eq!(config.transcriber.backend, Backend::Local);
    assert_eq!(config.cleaner.filler_patterns, vec!["\\bum\\b"]);
    assert_eq!(config.writer.clipboard_restore_delay_ms, 100);
    assert_eq!(config.groq.model, "whisper-large-v3-turbo");
}

#[test]
fn partial_toml_merges_with_defaults() {
    let partial = PartialConfig {
        ptt: PartialPtt {
            key: Some("f8".into()),
        },
        transcriber: PartialTranscriber {
            idle_unload_seconds: Some(0),
            ..Default::default()
        },
        ..Default::default()
    };
    let config = Config::from_partial(partial);
    assert_eq!(config.ptt.key, "f8");
    assert_eq!(config.transcriber.idle_unload_seconds, 0);
    assert_eq!(config.audio.sample_rate, 16000);
    assert_eq!(config.transcriber.max_workers, 2);
    assert_eq!(config.whisper.language, "es");
}

#[test]
fn missing_sections_use_defaults() {
    let partial = PartialConfig {
        audio: PartialAudio {
            channels: Some(2),
            ..Default::default()
        },
        ..Default::default()
    };
    let config = Config::from_partial(partial);
    assert_eq!(config.audio.channels, 2);
    assert_eq!(config.audio.sample_rate, 16000);
    assert_eq!(config.ptt.key, "f12");
    assert_eq!(config.writer.clipboard_restore_delay_ms, 50);
}

#[test]
fn defaults_match_the_documented_values() {
    let c = Config::default();
    assert_eq!(c.audio.min_audio_duration_ms, 300);
    assert!(c.audio.denoise && c.audio.auto_gain);
    assert_eq!(c.whisper.model, "large-v3");
    assert_eq!(c.whisper.compute_type, "float16");
    assert_eq!(c.whisper.model_path, "");
    assert_eq!(c.groq.api_key_env, "GROQ_API_KEY");
    assert_eq!(c.groq.base_url, "https://api.groq.com/openai/v1");
    assert_eq!(c.cleaner.filler_patterns[4], "\\bbásicamente\\b");
}

#[test]
fn idle_unload_only_for_local_backend() {
    let mut c = Config::default();
    assert!(!c.idle_unload_enabled());
    c.transcriber.backend = Backend::Local;
    assert!(c.idle_unload_enabled());
    c.transcriber.idle_unload_seconds = 0;
    assert!(!c.idle_unload_enabled());
}
