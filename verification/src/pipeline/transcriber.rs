//! Transcription stage decisions.
//!
//! Each audio chunk is transcribed on its own task (the program runs them, a
//! bounded number at a time); this module decides what each finished
//! transcription publishes and how the local model is kept.

use vstd::prelude::*;

use crate::domain::models::TranscribedText;
use crate::utils::text::{all_whitespace, chars_of, is_whitespace, string_from_chars};

verus! {

/// Why a transcription failed (the backend's message).
#[derive(Clone, Debug, PartialEq, Eq)]
pub struct TranscriptionError {
    pub message: String,
}

/// The text a finished transcription publishes: the backend's text, or empty
/// when it failed or returned only whitespace.
pub open spec fn published_text(outcome: Result<String, TranscriptionError>) -> Seq<char> {
    match outcome {
        Ok(raw) => if all_whitespace(raw@) {
            Seq::empty()
        } else {
            raw@
        },
        Err(_) => Seq::empty(),
    }
}

/// Whether `s.trim()` is empty.
pub fn is_blank(s: &str) -> (b: bool)
    ensures
        b == all_whitespace(s@),
{
    let cs = chars_of(s);
    let mut i: usize = 0;
    while i < cs.len()
        invariant
            i <= cs@.len(),
            cs@ == s@,
            forall|j: int| 0 <= j < i ==> crate::utils::text::is_whitespace_spec(#[trigger] cs@[j]),
        decreases cs@.len() - i,
    {
        if !is_whitespace(cs[i]) {
            return false;
        }
        i = i + 1;
    }
    true
}

/// Law: a transcription with some non-whitespace character is published
/// exactly as the backend returned it; one made only of whitespace (or empty),
/// and a failed one, publish the empty text.
pub proof fn lemma_published_text(raw: String, error: TranscriptionError)
    ensures
        (exists|i: int| 0 <= i < raw@.len() && !crate::utils::text::is_whitespace_spec(
            #[trigger] raw@[i],
        )) ==> published_text(Ok(raw)) == raw@,
        (forall|i: int| 0 <= i < raw@.len() ==> crate::utils::text::is_whitespace_spec(
            #[trigger] raw@[i],
        )) ==> published_text(Ok(raw)).len() == 0,
        published_text(Err(error)).len() == 0,
{
}

/// Every chunk publishes exactly one `TranscribedText` under its own `seq`,
/// even when the transcription failed or came back empty: the writer releases
/// items strictly in `seq` order, so a `seq` that never arrived would stall
/// every later chunk.
pub fn settle_transcription(seq: u64, outcome: Result<String, TranscriptionError>) -> (text:
    TranscribedText)
    ensures
        text.seq == seq,
        text.raw@ == published_text(outcome),
{
    let raw = match outcome {
        Ok(raw) => {
            if is_blank(raw.as_str()) {
                String::new()
            } else {
                raw
            }
        },
        Err(_) => String::new(),
    };
    TranscribedText { seq, raw }
}

/// How many transcriptions may run at once: `max_workers`, but at least one.
pub fn worker_permits(max_workers: usize) -> (permits: usize)
    ensures
        permits == if max_workers == 0 {
            1
        } else {
            max_workers
        },
{
    if max_workers == 0 {
        1
    } else {
        max_workers
    }
}


/// The hosted API's transcription endpoint under `base_url` (the base as
/// configured, followed by `/audio/transcriptions`).
pub fn transcriptions_url(base_url: &str) -> (url: String)
    ensures
        url@ == base_url@ + "/audio/transcriptions"@,
{
    let cs = chars_of(base_url);
    let end: usize = cs.len();
    let suffix = chars_of("/audio/transcriptions");
    let mut out: Vec<char> = Vec::new();
    let mut i: usize = 0;
    while i < end
        invariant
            end == cs@.len(),
            i <= end,
            out@ == cs@.take(i as int),
        decreases end - i,
    {
        out.push(cs[i]);
        i = i + 1;
        assert(out@ =~= cs@.take(i as int));
    }
    let mut j: usize = 0;
    while j < suffix.len()
        invariant
            j <= suffix@.len(),
            end == cs@.len(),
            out@ == cs@.take(end as int) + suffix@.take(j as int),
        decreases suffix@.len() - j,
    {
        out.push(suffix[j]);
        j = j + 1;
        assert(out@ =~= cs@.take(end as int) + suffix@.take(j as int));
    }
    assert(suffix@.take(suffix@.len() as int) =~= suffix@);
    assert(cs@.take(end as int) =~= cs@);
    string_from_chars(out.as_slice())
}

/// Whether an idle local model should be unloaded: it is loaded, no
/// transcription is in flight, and it has been idle at least the limit.
pub open spec fn should_unload_spec(
    loaded: bool,
    active: usize,
    idle_nanos: u128,
    limit_nanos: u128,
) -> bool {
    loaded && active == 0 && idle_nanos >= limit_nanos
}

/// Decides whether to unload the local model (times in nanoseconds).
pub fn should_unload(loaded: bool, active: usize, idle_nanos: u128, limit_nanos: u128) -> (b: bool)
    ensures
        b == should_unload_spec(loaded, active, idle_nanos, limit_nanos),
{
    loaded && active == 0 && idle_nanos >= limit_nanos
}

/// The in-flight count after a transcription finishes (never below zero).
pub fn release_count(active: usize) -> (n: usize)
    ensures
        n == if active == 0 {
            0
        } else {
            active - 1
        },
{
    if active == 0 {
        0
    } else {
        active - 1
    }
}

/// What a [`ModelSlot`] tracks: whether the model is loaded and how many
/// transcriptions are using it.
pub struct SlotState {
    pub loaded: bool,
    pub active: nat,
}

/// A transcription asks for the loaded model: when it is loaded, it counts as
/// in use (`true`); otherwise nothing changes (`false`) and the caller loads it.
pub open spec fn begin_use_step(m: SlotState) -> (SlotState, bool) {
    if m.loaded {
        (SlotState { loaded: true, active: m.active + 1 }, true)
    } else {
        (m, false)
    }
}

/// A freshly loaded model is put in the slot, in use by the transcription that
/// loaded it.
pub open spec fn install_step(m: SlotState) -> SlotState {
    SlotState { loaded: true, active: m.active + 1 }
}

/// A transcription is done with the model (the count never goes below zero).
pub open spec fn end_use_step(m: SlotState) -> SlotState {
    SlotState { loaded: m.loaded, active: if m.active == 0 { 0 } else { (m.active - 1) as nat } }
}

/// The idle check: the model is dropped when it is loaded, unused, and has
/// been idle at least the limit.
pub open spec fn unload_step(m: SlotState, idle_nanos: u128, limit_nanos: u128) -> (SlotState, bool) {
    if m.loaded && m.active == 0 && idle_nanos >= limit_nanos {
        (SlotState { loaded: false, active: m.active }, true)
    } else {
        (m, false)
    }
}

/// The local model, loaded on demand and dropped after an idle period, with
/// the number of transcriptions currently using it: it is never dropped while
/// one is in flight.
pub struct ModelSlot<M> {
    model: Option<M>,
    active: usize,
}

impl<M> View for ModelSlot<M> {
    type V = SlotState;

    closed spec fn view(&self) -> SlotState {
        SlotState { loaded: self.model is Some, active: self.active as nat }
    }
}

impl<M> ModelSlot<M> {
    /// The model held, if loaded.
    pub closed spec fn held(&self) -> Option<M> {
        self.model
    }

    /// An empty slot: nothing loaded, nothing in use.
    pub fn new() -> (slot: Self)
        ensures
            slot@ == (SlotState { loaded: false, active: 0 }),
    {
        ModelSlot { model: None, active: 0 }
    }

    /// The model, when loaded.
    pub fn model(&self) -> (m: Option<&M>)
        ensures
            m is Some <==> self@.loaded,
            m is Some ==> self.held() == Some(*m->0),
    {
        self.model.as_ref()
    }

    /// How many transcriptions are using the model.
    pub fn active(&self) -> (n: usize)
        ensures
            n == self@.active,
    {
        self.active
    }

    /// Fast path of taking the model: when loaded, counts one more
    /// transcription in flight and returns `true`; otherwise `false`, and the
    /// caller loads it and calls [`ModelSlot::install`].
    pub fn begin_use(&mut self) -> (in_use: bool)
        requires
            old(self)@.active < usize::MAX,
        ensures
            (final(self)@, in_use) == begin_use_step(old(self)@),
            final(self).held() == old(self).held(),
    {
        match self.model {
            Some(_) => {
                self.active = self.active + 1;
                true
            },
            None => false,
        }
    }

    /// Puts a freshly loaded model in the slot, in use by the caller.
    pub fn install(&mut self, model: M)
        requires
            old(self)@.active < usize::MAX,
        ensures
            final(self)@ == install_step(old(self)@),
            final(self).held() == Some(model),
    {
        self.model = Some(model);
        self.active = self.active + 1;
    }

    /// A transcription is done with the model.
    pub fn end_use(&mut self)
        ensures
            final(self)@ == end_use_step(old(self)@),
            final(self).held() == old(self).held(),
    {
        self.active = release_count(self.active);
    }

    /// Drops the model when it is loaded, unused, and has been idle at least
    /// `limit_nanos`; returns whether it did.
    pub fn unload_if_idle(&mut self, idle_nanos: u128, limit_nanos: u128) -> (unloaded: bool)
        ensures
            (final(self)@, unloaded) == unload_step(old(self)@, idle_nanos, limit_nanos),
            unloaded ==> final(self).held() is None,
            !unloaded ==> final(self).held() == old(self).held(),
    {
        let loaded = self.model.is_some();
        if should_unload(loaded, self.active, idle_nanos, limit_nanos) {
            self.model = None;
            true
        } else {
            false
        }
    }
}

/// Law: a loaded model that no transcription is using is dropped once it has
/// been idle for at least the limit, and kept while it has been idle for less;
/// so a later check, with more idle time behind it, drops whatever an earlier
/// one did. Dropping touches nothing but the model: the in-flight count stays.
pub proof fn lemma_idle_model_is_dropped_at_the_limit(
    m: SlotState,
    idle_nanos: u128,
    later_idle_nanos: u128,
    limit_nanos: u128,
)
    ensures
        m.loaded && m.active == 0 && idle_nanos >= limit_nanos ==> unload_step(
            m,
            idle_nanos,
            limit_nanos,
        ) == (SlotState { loaded: false, active: 0 }, true),
        idle_nanos < limit_nanos ==> unload_step(m, idle_nanos, limit_nanos) == (m, false),
        idle_nanos <= later_idle_nanos && unload_step(m, idle_nanos, limit_nanos).1
            ==> unload_step(m, later_idle_nanos, limit_nanos).1,
        should_unload_spec(true, 0, idle_nanos, limit_nanos) == (idle_nanos >= limit_nanos),
        idle_nanos <= later_idle_nanos && should_unload_spec(true, 0, idle_nanos, limit_nanos)
            ==> should_unload_spec(true, 0, later_idle_nanos, limit_nanos),
{
}

/// Law: the model is never dropped while a transcription is using it, however
/// long it has been idle.
pub proof fn lemma_in_use_model_is_kept(m: SlotState, idle_nanos: u128, limit_nanos: u128)
    requires
        m.active > 0,
    ensures
        unload_step(m, idle_nanos, limit_nanos) == (m, false),
{
}

/// Law: a transcription that takes the model and then is done with it leaves
/// the slot as it found it; one that had to load it leaves it loaded and the
/// count as it was.
pub proof fn lemma_use_is_balanced(m: SlotState)
    ensures
        m.loaded ==> end_use_step(begin_use_step(m).0) == m,
        end_use_step(install_step(m)) == (SlotState { loaded: true, active: m.active }),
{
}

/// Law: inference leaves two of the available cores free, but always uses
/// at least one thread; more cores never mean fewer threads.
pub proof fn lemma_inference_threads(available: usize, more: usize)
    ensures
        inference_threads_spec(available) >= 1,
        available >= 3 ==> inference_threads_spec(available) == available - 2,
        available <= 3 ==> inference_threads_spec(available) == 1,
        available <= more ==> inference_threads_spec(available) <= inference_threads_spec(more),
{
}

/// Law: a transcription that ends lowers the in-flight count by one (never
/// below zero) and leaves the model as it was; taking a loaded model raises it
/// by one; taking it while unloaded changes nothing.
pub proof fn lemma_use_counts(m: SlotState)
    ensures
        end_use_step(m).loaded == m.loaded,
        m.active > 0 ==> end_use_step(m).active == m.active - 1,
        m.active == 0 ==> end_use_step(m).active == 0,
        m.loaded ==> begin_use_step(m) == (SlotState { loaded: true, active: m.active + 1 }, true),
        !m.loaded ==> begin_use_step(m) == (m, false),
        install_step(m) == (SlotState { loaded: true, active: m.active + 1 }),
{
}

/// Threads for CPU inference: leave two cores free for the rest of the
/// pipeline and the OS, but always use at least one.
pub open spec fn inference_threads_spec(available: usize) -> int {
    if available <= 3 {
        1
    } else {
        available - 2
    }
}

/// Threads for CPU inference given the machine's available parallelism,
/// converted to `i32` as the inference parameters take it (with `as`).
pub fn inference_thread_count(available: usize) -> (n: i32)
    ensures
        n == inference_threads_spec(available) as i32,
{
    let t: usize = if available <= 3 {
        1
    } else {
        available - 2
    };
    #[verifier::truncate]
    (t as i32)
}

} // verus!
