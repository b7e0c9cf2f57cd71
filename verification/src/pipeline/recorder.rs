//! Audio recording stage decisions.
//!
//! The recorder turns push-to-talk key events into start/stop commands for the
//! audio input (which the program drives), tags each finished recording with a
//! sequence number, and drops recordings shorter than the configured minimum.
//! It keeps a `recording` flag so that OS key-repeat (several key-downs before
//! the single key-up) does not start capture twice, and a stray key-up does not
//! publish a duplicate recording.

use vstd::prelude::*;

use crate::domain::models::KeyEventKind;

verus! {

/// What the program must do in response to a key event.
#[derive(Clone, Copy, Debug, PartialEq, Eq, Structural)]
pub enum RecorderAction {
    /// Nothing (a key-repeat while recording, or a key-up while idle).
    Ignore,
    /// Ping the transcriber's warm-up and start audio capture, then report
    /// with [`Recorder::capture_started`].
    StartCapture,
    /// Stop audio capture, then report with [`Recorder::finish_capture`].
    StopCapture,
}

/// Whether `n_samples` at `sample_rate` last at least `min_ms` milliseconds
/// (`n_samples / sample_rate * 1000 >= min_ms`, compared exactly).
pub open spec fn long_enough(n_samples: nat, sample_rate: nat, min_ms: nat) -> bool {
    n_samples * 1000 >= min_ms * sample_rate
}

/// Whether a recording of `n_samples` is long enough to keep.
pub fn is_long_enough(n_samples: usize, sample_rate: u32, min_ms: u32) -> (b: bool)
    ensures
        b == long_enough(n_samples as nat, sample_rate as nat, min_ms as nat),
{
    let a = min_ms as u128;
    let b = sample_rate as u128;
    assert(a * b <= 0xffff_ffff * 0xffff_ffff) by (nonlinear_arith)
        requires
            a <= 0xffff_ffff,
            b <= 0xffff_ffff,
    ;
    let lhs = (n_samples as u128) * 1000;
    let rhs = a * b;
    lhs >= rhs
}

/// Abstract state of a recorder: the next sequence number and whether a
/// recording is in progress.
pub struct RecorderModel {
    pub seq: u64,
    pub recording: bool,
}

/// One input to the recorder's state machine.
pub enum RecorderEvent {
    /// A push-to-talk key event.
    Key(KeyEventKind),
    /// Whether starting the capture succeeded.
    Started(bool),
    /// The number of samples captured, or `None` when stopping failed.
    Finished(Option<usize>),
}

/// The recorder's state machine: the new state and the `seq` published, if
/// any, for one event (with the recorder's fixed sample rate and minimum).
pub open spec fn recorder_step(
    m: RecorderModel,
    event: RecorderEvent,
    sample_rate: u32,
    min_ms: u32,
) -> (RecorderModel, Option<u64>) {
    match event {
        RecorderEvent::Key(KeyEventKind::Down) => (m, None),
        RecorderEvent::Key(KeyEventKind::Up) => (RecorderModel { seq: m.seq, recording: false }, None),
        RecorderEvent::Started(ok) => (RecorderModel { seq: m.seq, recording: m.recording || ok }, None),
        RecorderEvent::Finished(Some(n)) => if long_enough(n as nat, sample_rate as nat, min_ms as nat) {
            (RecorderModel { seq: (m.seq + 1) as u64, recording: m.recording }, Some(m.seq))
        } else {
            (m, None)
        },
        RecorderEvent::Finished(None) => (m, None),
    }
}

/// The action a key event calls for in state `m`.
pub open spec fn key_action(m: RecorderModel, kind: KeyEventKind) -> RecorderAction {
    match kind {
        KeyEventKind::Down => if m.recording {
            RecorderAction::Ignore
        } else {
            RecorderAction::StartCapture
        },
        KeyEventKind::Up => if m.recording {
            RecorderAction::StopCapture
        } else {
            RecorderAction::Ignore
        },
    }
}


/// Law: a recording of `n_samples` at `sample_rate` is kept exactly when it
/// lasts at least `min_ms` milliseconds: one of exactly the minimum length is
/// kept, a shorter one dropped, and a longer one kept whenever a shorter one
/// was.
pub proof fn lemma_minimum_duration_is_inclusive(n_samples: nat, more_samples: nat, sample_rate: nat, min_ms: nat)
    ensures
        n_samples * 1000 == min_ms * sample_rate ==> long_enough(n_samples, sample_rate, min_ms),
        n_samples * 1000 < min_ms * sample_rate ==> !long_enough(n_samples, sample_rate, min_ms),
        n_samples <= more_samples && long_enough(n_samples, sample_rate, min_ms) ==> long_enough(
            more_samples,
            sample_rate,
            min_ms,
        ),
{
    if n_samples <= more_samples {
        assert(n_samples * 1000 <= more_samples * 1000) by (nonlinear_arith)
            requires
                n_samples <= more_samples,
        ;
    }
}

/// Law: what each event does to a recorder. A key-down starts a capture
/// unless one is in progress (key repeat), and changes nothing until the
/// capture has started; only a successful start puts it in progress. A key-up
/// stops the capture in progress, and is ignored otherwise. A finished capture
/// that is long enough is published under the next `seq`, which then moves on
/// by one; a failed or too short capture publishes nothing and changes nothing.
pub proof fn lemma_recorder_reacts_to_events(m: RecorderModel, sample_rate: u32, min_ms: u32, n: usize, ok: bool)
    requires
        m.seq < u64::MAX,
    ensures
        key_action(m, KeyEventKind::Down) == (if m.recording {
            RecorderAction::Ignore
        } else {
            RecorderAction::StartCapture
        }),
        recorder_step(m, RecorderEvent::Key(KeyEventKind::Down), sample_rate, min_ms) == (m, None::<u64>),
        key_action(m, KeyEventKind::Up) == (if m.recording {
            RecorderAction::StopCapture
        } else {
            RecorderAction::Ignore
        }),
        recorder_step(m, RecorderEvent::Key(KeyEventKind::Up), sample_rate, min_ms) == (
            RecorderModel { seq: m.seq, recording: false },
            None::<u64>,
        ),
        recorder_step(m, RecorderEvent::Started(ok), sample_rate, min_ms).0.recording == (m.recording
            || ok),
        recorder_step(m, RecorderEvent::Started(ok), sample_rate, min_ms).0.seq == m.seq,
        n * 1000 >= min_ms * sample_rate ==> recorder_step(m, RecorderEvent::Finished(Some(n)), sample_rate, min_ms)
            == (RecorderModel { seq: (m.seq + 1) as u64, recording: m.recording }, Some(m.seq)),
        n * 1000 < min_ms * sample_rate ==> recorder_step(m, RecorderEvent::Finished(Some(n)), sample_rate, min_ms)
            == (m, None::<u64>),
        recorder_step(m, RecorderEvent::Finished(None), sample_rate, min_ms) == (m, None::<u64>),
{
}

/// Runs the recorder's state machine over `events`: the final state and the
/// `seq`s published, in order.
pub open spec fn recorder_run(
    m: RecorderModel,
    events: Seq<RecorderEvent>,
    sample_rate: u32,
    min_ms: u32,
) -> (RecorderModel, Seq<u64>)
    decreases events.len(),
{
    if events.len() == 0 {
        (m, Seq::empty())
    } else {
        let (m1, out1) = recorder_run(m, events.drop_last(), sample_rate, min_ms);
        let (m2, s) = recorder_step(m1, events.last(), sample_rate, min_ms);
        (
            m2,
            match s {
                Some(x) => out1.push(x),
                None => out1,
            },
        )
    }
}

/// Law: the recorder is the only source of `seq` and only counts up: whatever
/// the events, the recordings it publishes carry 0, 1, 2, ... in order, and the
/// next `seq` is the number published so far.
pub proof fn lemma_published_seqs_count_up(events: Seq<RecorderEvent>, sample_rate: u32, min_ms: u32)
    requires
        events.len() < u64::MAX,
    ensures
        recorder_run(RecorderModel { seq: 0, recording: false }, events, sample_rate, min_ms).1
            =~= Seq::new(
            recorder_run(RecorderModel { seq: 0, recording: false }, events, sample_rate, min_ms).0.seq as nat,
            |i: int| i as u64,
        ),
        recorder_run(RecorderModel { seq: 0, recording: false }, events, sample_rate, min_ms).0.seq
            <= events.len(),
    decreases events.len(),
{
    let init = RecorderModel { seq: 0, recording: false };
    if events.len() > 0 {
        lemma_published_seqs_count_up(events.drop_last(), sample_rate, min_ms);
        let (m1, out1) = recorder_run(init, events.drop_last(), sample_rate, min_ms);
        assert(out1 =~= Seq::new(m1.seq as nat, |i: int| i as u64));
    }
}

pub struct Recorder {
    sample_rate: u32,
    channels: u16,
    min_audio_duration_ms: u32,
    seq: u64,
    recording: bool,
}

impl View for Recorder {
    type V = RecorderModel;

    closed spec fn view(&self) -> RecorderModel {
        RecorderModel { seq: self.seq, recording: self.recording }
    }
}

impl Recorder {
    pub closed spec fn sample_rate_view(&self) -> u32 {
        self.sample_rate
    }

    pub closed spec fn channels_view(&self) -> u16 {
        self.channels
    }

    pub closed spec fn min_ms_view(&self) -> u32 {
        self.min_audio_duration_ms
    }

    /// The configuration a recorder keeps across events.
    pub open spec fn same_config(&self, other: &Recorder) -> bool {
        &&& self.sample_rate_view() == other.sample_rate_view()
        &&& self.channels_view() == other.channels_view()
        &&& self.min_ms_view() == other.min_ms_view()
    }

    pub fn new(sample_rate: u32, channels: u16, min_audio_duration_ms: u32) -> (r: Self)
        ensures
            r@ == (RecorderModel { seq: 0, recording: false }),
            r.sample_rate_view() == sample_rate,
            r.channels_view() == channels,
            r.min_ms_view() == min_audio_duration_ms,
    {
        Recorder { sample_rate, channels, min_audio_duration_ms, seq: 0, recording: false }
    }

    /// The `seq` the next published recording will carry.
    pub fn next_seq(&self) -> (s: u64)
        ensures
            s == self@.seq,
    {
        self.seq
    }

    /// The minimum duration, in milliseconds, of a recording that is kept.
    pub fn min_audio_duration_ms(&self) -> (m: u32)
        ensures
            m == self.min_ms_view(),
    {
        self.min_audio_duration_ms
    }

    /// The target sample rate to capture at.
    pub fn sample_rate(&self) -> (r: u32)
        ensures
            r == self.sample_rate_view(),
    {
        self.sample_rate
    }

    /// The channel count to request from the input.
    pub fn channels(&self) -> (c: u16)
        ensures
            c == self.channels_view(),
    {
        self.channels
    }

    /// Decides what a key event calls for. A key-down while already recording
    /// (OS key-repeat) and a key-up while not recording are ignored; a genuine
    /// key-up ends the recording.
    pub fn handle_key(&mut self, kind: KeyEventKind) -> (action: RecorderAction)
        ensures
            action == key_action(old(self)@, kind),
            final(self)@ == recorder_step(old(self)@, RecorderEvent::Key(kind), old(self).sample_rate_view(), old(self).min_ms_view()).0,
            final(self).same_config(old(self)),
    {
        match kind {
            KeyEventKind::Down => {
                if self.recording {
                    RecorderAction::Ignore
                } else {
                    RecorderAction::StartCapture
                }
            },
            KeyEventKind::Up => {
                if !self.recording {
                    RecorderAction::Ignore
                } else {
                    self.recording = false;
                    RecorderAction::StopCapture
                }
            },
        }
    }

    /// Reports whether starting the capture succeeded; only then is a
    /// recording in progress.
    pub fn capture_started(&mut self, ok: bool)
        ensures
            final(self)@ == recorder_step(old(self)@, RecorderEvent::Started(ok), old(self).sample_rate_view(), old(self).min_ms_view()).0,
            final(self).same_config(old(self)),
    {
        if ok {
            self.recording = true;
        }
    }

    /// Reports the end of a capture: the number of samples captured, or
    /// `None` when stopping failed. Returns the `seq` to publish the recording
    /// under, or `None` when it is dropped (failed, or shorter than the
    /// minimum duration).
    pub fn finish_capture(&mut self, n_samples: Option<usize>) -> (seq: Option<u64>)
        requires
            old(self)@.seq < u64::MAX,
        ensures
            (final(self)@, seq) == recorder_step(old(self)@, RecorderEvent::Finished(n_samples), old(self).sample_rate_view(), old(self).min_ms_view()),
            final(self).same_config(old(self)),
    {
        match n_samples {
            None => None,
            Some(n) => {
                if is_long_enough(n, self.sample_rate, self.min_audio_duration_ms) {
                    let seq = self.seq;
                    self.seq = self.seq + 1;
                    Some(seq)
                } else {
                    None
                }
            },
        }
    }
}

} // verus!
