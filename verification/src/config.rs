//! Configuration. Every section and every key has a default; a configuration
//! file that leaves sections or keys out is completed with those defaults
//! ([`Config::from_partial`]). Reading and parsing the TOML file itself is the
//! program's job; it hands over a [`PartialConfig`] holding what it found.

use vstd::prelude::*;

verus! {

/// Transcription backend, selected in `[transcriber] backend`.
#[derive(Debug, Clone, Copy, PartialEq, Eq, Structural)]
pub enum Backend {
    Local,
    Groq,
}

/// `[ptt]`: the push-to-talk key.
#[derive(Debug, Clone)]
pub struct Ptt {
    pub key: String,
}

impl Default for Ptt {
    fn default() -> (p: Self)
        ensures
            p.key@ == "f12"@,
    {
        Ptt { key: "f12".to_owned() }
    }
}

/// `[audio]`: capture settings.
#[derive(Debug, Clone)]
pub struct Audio {
    pub sample_rate: u32,
    pub channels: u16,
    pub min_audio_duration_ms: u32,
    /// Apply noise suppression to the recording before transcribing.
    pub denoise: bool,
    /// Normalize the recording's level toward a consistent speech loudness
    /// before transcribing.
    pub auto_gain: bool,
}

impl Default for Audio {
    fn default() -> (a: Self)
        ensures
            a.sample_rate == 16000,
            a.channels == 1,
            a.min_audio_duration_ms == 300,
            a.denoise,
            a.auto_gain,
    {
        Audio {
            sample_rate: 16000,
            channels: 1,
            min_audio_duration_ms: 300,
            denoise: true,
            auto_gain: true,
        }
    }
}

/// `[whisper]`: model settings.
#[derive(Debug, Clone)]
pub struct Whisper {
    pub model: String,
    pub device: String,
    pub compute_type: String,
    pub language: String,
    /// Path to the GGML (.bin) model for the local backend. Only used when
    /// `backend = "local"`.
    pub model_path: String,
}

impl Default for Whisper {
    fn default() -> (w: Self)
        ensures
            w.model@ == "large-v3"@,
            w.device@ == "cuda"@,
            w.compute_type@ == "float16"@,
            w.language@ == "es"@,
            w.model_path@ == Seq::<char>::empty(),
    {
        Whisper {
            model: "large-v3".to_owned(),
            device: "cuda".to_owned(),
            compute_type: "float16".to_owned(),
            language: "es".to_owned(),
            model_path: String::new(),
        }
    }
}

/// `[transcriber]`: concurrency and backend selection.
#[derive(Debug, Clone)]
pub struct Transcriber {
    pub max_workers: usize,
    /// Unload the model after this many idle seconds (0 = never).
    pub idle_unload_seconds: u64,
    pub backend: Backend,
}

impl Default for Transcriber {
    fn default() -> (t: Self)
        ensures
            t.max_workers == 2,
            t.idle_unload_seconds == 300,
            t.backend == Backend::Groq,
    {
        Transcriber { max_workers: 2, idle_unload_seconds: 300, backend: Backend::Groq }
    }
}

/// The default filler-word patterns.
pub open spec fn default_filler_patterns() -> Seq<Seq<char>> {
    seq![
        "\\beh+\\b"@,
        "\\bmmm+\\b"@,
        "\\bo sea\\b"@,
        "\\bdigamos\\b"@,
        "\\bbásicamente\\b"@,
        "\\bpues\\b"@,
        "\\benton?ces\\b"@,
        "\\bla verdad\\b"@,
    ]
}

/// The texts of a list of strings.
pub open spec fn texts(v: Seq<String>) -> Seq<Seq<char>> {
    v.map_values(|s: String| s@)
}

/// `[cleaner]`: filler-word patterns (case-insensitive regular expressions).
#[derive(Debug, Clone)]
pub struct Cleaner {
    pub filler_patterns: Vec<String>,
}

impl Default for Cleaner {
    fn default() -> (c: Self)
        ensures
            texts(c.filler_patterns@) == default_filler_patterns(),
    {
        let v = vec![
            "\\beh+\\b".to_owned(),
            "\\bmmm+\\b".to_owned(),
            "\\bo sea\\b".to_owned(),
            "\\bdigamos\\b".to_owned(),
            "\\bbásicamente\\b".to_owned(),
            "\\bpues\\b".to_owned(),
            "\\benton?ces\\b".to_owned(),
            "\\bla verdad\\b".to_owned(),
        ];
        assert(texts(v@) =~= default_filler_patterns());
        Cleaner { filler_patterns: v }
    }
}

/// `[writer]`: paste timing.
#[derive(Debug, Clone)]
pub struct Writer {
    pub clipboard_restore_delay_ms: u64,
}

impl Default for Writer {
    fn default() -> (w: Self)
        ensures
            w.clipboard_restore_delay_ms == 50,
    {
        Writer { clipboard_restore_delay_ms: 50 }
    }
}

/// `[groq]`: the hosted transcription API.
#[derive(Debug, Clone)]
pub struct Groq {
    pub model: String,
    /// Name of the environment variable holding the API key. The key is never
    /// read from the configuration file so secrets are not versioned.
    pub api_key_env: String,
    pub base_url: String,
}

impl Default for Groq {
    fn default() -> (g: Self)
        ensures
            g.model@ == "whisper-large-v3"@,
            g.api_key_env@ == "GROQ_API_KEY"@,
            g.base_url@ == "https://api.groq.com/openai/v1"@,
    {
        Groq {
            model: "whisper-large-v3".to_owned(),
            api_key_env: "GROQ_API_KEY".to_owned(),
            base_url: "https://api.groq.com/openai/v1".to_owned(),
        }
    }
}

/// The whole configuration.
#[derive(Debug, Clone)]
pub struct Config {
    pub ptt: Ptt,
    pub audio: Audio,
    pub whisper: Whisper,
    pub transcriber: Transcriber,
    pub cleaner: Cleaner,
    pub writer: Writer,
    pub groq: Groq,
}

impl Default for Config {
    fn default() -> (c: Self)
        ensures
            c.ptt.key@ == "f12"@,
            c.audio.sample_rate == 16000,
            c.audio.channels == 1,
            c.audio.min_audio_duration_ms == 300,
            c.audio.denoise,
            c.audio.auto_gain,
            c.whisper.model@ == "large-v3"@,
            c.whisper.device@ == "cuda"@,
            c.whisper.compute_type@ == "float16"@,
            c.whisper.language@ == "es"@,
            c.whisper.model_path@ == Seq::<char>::empty(),
            c.transcriber.max_workers == 2,
            c.transcriber.idle_unload_seconds == 300,
            c.transcriber.backend == Backend::Groq,
            texts(c.cleaner.filler_patterns@) == default_filler_patterns(),
            c.writer.clipboard_restore_delay_ms == 50,
            c.groq.model@ == "whisper-large-v3"@,
            c.groq.api_key_env@ == "GROQ_API_KEY"@,
            c.groq.base_url@ == "https://api.groq.com/openai/v1"@,
    {
        Config {
            ptt: Ptt::default(),
            audio: Audio::default(),
            whisper: Whisper::default(),
            transcriber: Transcriber::default(),
            cleaner: Cleaner::default(),
            writer: Writer::default(),
            groq: Groq::default(),
        }
    }
}

// ----- Partial configuration (what a file actually sets) -----

/// `[ptt]` as found in a file: `None` for a key the file leaves out.
#[derive(Debug, Clone, Default)]
pub struct PartialPtt {
    pub key: Option<String>,
}

/// `[audio]` as found in a file.
#[derive(Debug, Clone, Default)]
pub struct PartialAudio {
    pub sample_rate: Option<u32>,
    pub channels: Option<u16>,
    pub min_audio_duration_ms: Option<u32>,
    pub denoise: Option<bool>,
    pub auto_gain: Option<bool>,
}

/// `[whisper]` as found in a file.
#[derive(Debug, Clone, Default)]
pub struct PartialWhisper {
    pub model: Option<String>,
    pub device: Option<String>,
    pub compute_type: Option<String>,
    pub language: Option<String>,
    pub model_path: Option<String>,
}

/// `[transcriber]` as found in a file.
#[derive(Debug, Clone, Default)]
pub struct PartialTranscriber {
    pub max_workers: Option<usize>,
    pub idle_unload_seconds: Option<u64>,
    pub backend: Option<Backend>,
}

/// `[cleaner]` as found in a file.
#[derive(Debug, Clone, Default)]
pub struct PartialCleaner {
    pub filler_patterns: Option<Vec<String>>,
}

/// `[writer]` as found in a file.
#[derive(Debug, Clone, Default)]
pub struct PartialWriter {
    pub clipboard_restore_delay_ms: Option<u64>,
}

/// `[groq]` as found in a file.
#[derive(Debug, Clone, Default)]
pub struct PartialGroq {
    pub model: Option<String>,
    pub api_key_env: Option<String>,
    pub base_url: Option<String>,
}

/// What a configuration file sets. A section the file leaves out is a section
/// with every key left out.
#[derive(Debug, Clone, Default)]
pub struct PartialConfig {
    pub ptt: PartialPtt,
    pub audio: PartialAudio,
    pub whisper: PartialWhisper,
    pub transcriber: PartialTranscriber,
    pub cleaner: PartialCleaner,
    pub writer: PartialWriter,
    pub groq: PartialGroq,
}

/// The text a key resolves to: the file's value when it sets one, otherwise
/// the default.
pub open spec fn text_or(v: Option<String>, default: Seq<char>) -> Seq<char> {
    match v {
        Some(s) => s@,
        None => default,
    }
}

/// The value a key resolves to.
pub open spec fn value_or<T>(v: Option<T>, default: T) -> T {
    match v {
        Some(x) => x,
        None => default,
    }
}

/// Law: a key the file sets keeps the file's value, whatever the default; a
/// key it leaves out takes the default.
pub proof fn lemma_file_values_win(s: String, default: Seq<char>, x: u64, d: u64)
    ensures
        text_or(Some(s), default) == s@,
        text_or(None, default) == default,
        value_or(Some(x), d) == x,
        value_or(None::<u64>, d) == d,
{
}

fn string_or(v: Option<String>, default: &str) -> (s: String)
    ensures
        s@ == text_or(v, default@),
{
    match v {
        Some(s) => s,
        None => default.to_owned(),
    }
}

impl Config {
    /// Completes what a configuration file sets with the defaults: every key
    /// the file sets keeps its value, every key (or whole section) it leaves
    /// out takes the default.
    pub fn from_partial(p: PartialConfig) -> (c: Config)
        ensures
            c.ptt.key@ == text_or(p.ptt.key, "f12"@),
            c.audio.sample_rate == value_or(p.audio.sample_rate, 16000u32),
            c.audio.channels == value_or(p.audio.channels, 1u16),
            c.audio.min_audio_duration_ms == value_or(p.audio.min_audio_duration_ms, 300u32),
            c.audio.denoise == value_or(p.audio.denoise, true),
            c.audio.auto_gain == value_or(p.audio.auto_gain, true),
            c.whisper.model@ == text_or(p.whisper.model, "large-v3"@),
            c.whisper.device@ == text_or(p.whisper.device, "cuda"@),
            c.whisper.compute_type@ == text_or(p.whisper.compute_type, "float16"@),
            c.whisper.language@ == text_or(p.whisper.language, "es"@),
            c.whisper.model_path@ == text_or(p.whisper.model_path, Seq::empty()),
            c.transcriber.max_workers == value_or(p.transcriber.max_workers, 2usize),
            c.transcriber.idle_unload_seconds == value_or(p.transcriber.idle_unload_seconds, 300u64),
            c.transcriber.backend == value_or(p.transcriber.backend, Backend::Groq),
            texts(c.cleaner.filler_patterns@) == match p.cleaner.filler_patterns {
                Some(v) => texts(v@),
                None => default_filler_patterns(),
            },
            c.writer.clipboard_restore_delay_ms == value_or(
                p.writer.clipboard_restore_delay_ms,
                50u64,
            ),
            c.groq.model@ == text_or(p.groq.model, "whisper-large-v3"@),
            c.groq.api_key_env@ == text_or(p.groq.api_key_env, "GROQ_API_KEY"@),
            c.groq.base_url@ == text_or(p.groq.base_url, "https://api.groq.com/openai/v1"@),
    {
        let PartialConfig { ptt, audio, whisper, transcriber, cleaner, writer, groq } = p;
        let filler_patterns = match cleaner.filler_patterns {
            Some(v) => v,
            None => Cleaner::default().filler_patterns,
        };
        Config {
            ptt: Ptt { key: string_or(ptt.key, "f12") },
            audio: Audio {
                sample_rate: match audio.sample_rate {
                    Some(x) => x,
                    None => 16000,
                },
                channels: match audio.channels {
                    Some(x) => x,
                    None => 1,
                },
                min_audio_duration_ms: match audio.min_audio_duration_ms {
                    Some(x) => x,
                    None => 300,
                },
                denoise: match audio.denoise {
                    Some(x) => x,
                    None => true,
                },
                auto_gain: match audio.auto_gain {
                    Some(x) => x,
                    None => true,
                },
            },
            whisper: Whisper {
                model: string_or(whisper.model, "large-v3"),
                device: string_or(whisper.device, "cuda"),
                compute_type: string_or(whisper.compute_type, "float16"),
                language: string_or(whisper.language, "es"),
                model_path: match whisper.model_path {
                    Some(s) => s,
                    None => String::new(),
                },
            },
            transcriber: Transcriber {
                max_workers: match transcriber.max_workers {
                    Some(x) => x,
                    None => 2,
                },
                idle_unload_seconds: match transcriber.idle_unload_seconds {
                    Some(x) => x,
                    None => 300,
                },
                backend: match transcriber.backend {
                    Some(x) => x,
                    None => Backend::Groq,
                },
            },
            cleaner: Cleaner { filler_patterns },
            writer: Writer {
                clipboard_restore_delay_ms: match writer.clipboard_restore_delay_ms {
                    Some(x) => x,
                    None => 50,
                },
            },
            groq: Groq {
                model: string_or(groq.model, "whisper-large-v3"),
                api_key_env: string_or(groq.api_key_env, "GROQ_API_KEY"),
                base_url: string_or(groq.base_url, "https://api.groq.com/openai/v1"),
            },
        }
    }

    /// Whether the transcriber should unload an idle model: only the local
    /// backend holds one, and `idle_unload_seconds = 0` disables it.
    pub fn idle_unload_enabled(&self) -> (b: bool)
        ensures
            b == (self.transcriber.backend == Backend::Local && self.transcriber.idle_unload_seconds
                > 0),
    {
        self.transcriber.backend == Backend::Local && self.transcriber.idle_unload_seconds > 0
    }
}

} // verus!
