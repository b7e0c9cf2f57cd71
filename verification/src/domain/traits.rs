//! Injectable traits: seams for swapping the system clipboard and keyboard with
//! fakes in tests without touching production code.
//!
//! Each trait keeps, as a specification, the history of the calls made on it:
//! every call appends itself, with its argument and its result. A verified
//! implementation meets this by keeping its own record of the calls (as the
//! boxed forms below do, forwarding to what they hold). The implementations
//! written outside verification (the program's system devices, the test fakes)
//! are not checked against it: they compile with the empty default history,
//! and what the writer proves over the histories holds of them only as far as
//! they behave as the contracts say.

use vstd::prelude::*;

verus! {

/// One call made on a [`Clipboard`], with its result.
pub enum ClipboardCall {
    /// `get_text`, which returned this.
    GetText(Result<String, String>),
    /// `set_text` with this text, which returned this.
    SetText(Seq<char>, Result<(), String>),
}

/// System clipboard access. The real implementation lives with the program
/// (it talks to the desktop); tests implement it with in-memory fakes.
pub trait Clipboard: Send {
    /// The calls made on this clipboard so far, oldest first. A verified
    /// implementation gives its own record of them (the empty default cannot
    /// meet the methods' contracts); the default only lets implementations
    /// written outside verification compile.
    closed spec fn history(&self) -> Seq<ClipboardCall> {
        Seq::empty()
    }

    fn get_text(&mut self) -> (r: Result<String, String>)
        ensures
            final(self).history() == old(self).history().push(ClipboardCall::GetText(r)),
    ;

    fn set_text(&mut self, text: &str) -> (r: Result<(), String>)
        ensures
            final(self).history() == old(self).history().push(ClipboardCall::SetText(text@, r)),
    ;
}

/// Keyboard simulation.
pub trait Keyboard: Send {
    /// The results of the paste shortcuts simulated so far, oldest first
    /// (the default is there for the same reason as [`Clipboard::history`]'s).
    closed spec fn pastes(&self) -> Seq<Result<(), String>> {
        Seq::empty()
    }

    /// Simulates the paste shortcut (Ctrl+V).
    fn paste(&mut self) -> (r: Result<(), String>)
        ensures
            final(self).pastes() == old(self).pastes().push(r),
    ;
}

/// A boxed clipboard is the clipboard it holds.
impl<C: Clipboard> Clipboard for Box<C> {
    open spec fn history(&self) -> Seq<ClipboardCall> {
        (**self).history()
    }

    fn get_text(&mut self) -> (r: Result<String, String>) {
        (**self).get_text()
    }

    fn set_text(&mut self, text: &str) -> (r: Result<(), String>) {
        (**self).set_text(text)
    }
}

/// A boxed keyboard is the keyboard it holds.
impl<K: Keyboard> Keyboard for Box<K> {
    open spec fn pastes(&self) -> Seq<Result<(), String>> {
        (**self).pastes()
    }

    fn paste(&mut self) -> (r: Result<(), String>) {
        (**self).paste()
    }
}

} // verus!
