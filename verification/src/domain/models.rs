//! Domain models. Immutable by convention: never mutated after creation.

use vstd::prelude::*;

verus! {

/// Kind of push-to-talk key event.
#[derive(Clone, Copy, Debug, PartialEq, Eq, Structural)]
pub enum KeyEventKind {
    Down,
    Up,
}

/// A push-to-talk key event.
#[derive(Clone, Debug, PartialEq, Eq)]
pub struct KeyEvent {
    pub kind: KeyEventKind,
    pub key: String,
}

/// Raw text returned by the transcriber.
#[derive(Clone, Debug, PartialEq, Eq)]
pub struct TranscribedText {
    pub seq: u64,
    pub raw: String,
}

/// Cleaned text, ready to paste.
#[derive(Clone, Debug, PartialEq, Eq)]
pub struct CleanText {
    pub seq: u64,
    pub text: String,
}

} // verus!
