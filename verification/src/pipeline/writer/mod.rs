//! Writes the text into the active window.
//!
//! The pure reordering logic ([`SequenceBuffer`], in [`sequence_buffer`]) is
//! separated from the clipboard/keyboard calls so the algorithm (the part with
//! the most edge cases) can be reasoned about on its own. The paste itself is
//! split in two halves around the restore delay: [`ClipboardWriter::begin_paste`]
//! backs the clipboard up, sets the text and simulates Ctrl+V;
//! [`ClipboardWriter::finish_paste`], called once the delay has passed, puts the
//! backup back and reports the outcome.

pub mod sequence_buffer;

use vstd::prelude::*;

use crate::domain::models::CleanText;
use crate::domain::traits::{Clipboard, ClipboardCall, Keyboard};

pub use sequence_buffer::SequenceBuffer;
use sequence_buffer::{
    distinct_seqs, feed, feed_invariant, feeds_without_overflow, initial_model, lemma_feed_releases_in_order,
    releases_without_overflow, step, BufferModel,
};

verus! {

/// Why a paste failed.
#[derive(Clone, Debug, PartialEq, Eq)]
pub enum WriteError {
    /// Setting the clipboard to the text failed.
    Clipboard(String),
    /// Simulating the paste shortcut failed.
    Keyboard(String),
}

/// A paste that has been performed and still owes the clipboard its backup.
pub struct PendingRestore {
    /// What the clipboard held before (empty when it could not be read).
    pub backup: String,
    /// The result of setting the clipboard to the text.
    pub set_result: Result<(), String>,
    /// The result of the simulated paste; `None` when it was not attempted
    /// because setting the clipboard failed.
    pub paste_result: Option<Result<(), String>>,
}

/// The outcome a paste reports: the clipboard error first, then the keyboard
/// error, otherwise success.
pub open spec fn paste_outcome(
    set_result: Result<(), String>,
    paste_result: Option<Result<(), String>>,
) -> Result<(), WriteError> {
    match set_result {
        Err(e) => Err(WriteError::Clipboard(e)),
        Ok(()) => match paste_result {
            Some(Err(e)) => Err(WriteError::Keyboard(e)),
            _ => Ok(()),
        },
    }
}

/// A released item is pasted only when its text is not empty.
pub open spec fn is_pastable(item: CleanText) -> bool {
    item.text@.len() > 0
}

/// The items of `released` that get pasted, in order.
pub open spec fn pastable_only(released: Seq<CleanText>) -> Seq<CleanText> {
    released.filter(|t: CleanText| is_pastable(t))
}

/// Law: of the released items, exactly those with non-empty text are pasted,
/// whatever their length or content, in the order they were released: every
/// released item with some text is among those pasted, everything pasted was
/// released and has some text, and when every released item has text, all of
/// them are pasted as released.
pub proof fn lemma_pastes_every_nonempty_text(released: Seq<CleanText>)
    ensures
        forall|i: int|
            0 <= i < released.len() && (#[trigger] released[i]).text@.len() > 0
                ==> pastable_only(released).contains(released[i]),
        forall|j: int|
            0 <= j < pastable_only(released).len() ==> (#[trigger] pastable_only(released)[j]).text@.len()
                > 0 && released.contains(pastable_only(released)[j]),
        (forall|i: int| 0 <= i < released.len() ==> (#[trigger] released[i]).text@.len() > 0)
            ==> pastable_only(released) == released,
    decreases released.len(),
{
    released.filter_lemma(|t: CleanText| is_pastable(t));
    assert forall|j: int| 0 <= j < pastable_only(released).len() implies released.contains(
        #[trigger] pastable_only(released)[j],
    ) by {
        released.lemma_filter_contains_rev(|t: CleanText| is_pastable(t), pastable_only(released)[j]);
    }
    if released.len() > 0 {
        let r = released.drop_last();
        lemma_pastes_every_nonempty_text(r);
        if forall|i: int| 0 <= i < released.len() ==> (#[trigger] released[i]).text@.len() > 0 {
            assert forall|i: int| 0 <= i < r.len() implies (#[trigger] r[i]).text@.len() > 0 by {
                assert(r[i] == released[i]);
            }
            reveal(Seq::filter);
            assert(released.last() == released[released.len() - 1]);
            assert(pastable_only(released) == pastable_only(r).push(released.last()));
            assert(r.push(released.last()) =~= released);
        }
    }
}

/// Law: an item that is the next one expected and has some text is released
/// and due for pasting first, whatever its length or content.
pub proof fn lemma_expected_text_is_pasted_first(m: BufferModel, item: CleanText)
    requires
        item.seq == m.expected,
        item.text@.len() > 0,
    ensures
        pastable_only(step(m, item).1).len() > 0,
        pastable_only(step(m, item).1)[0] == item,
{
    let out = step(m, item).1;
    let rest = out.drop_first();
    assert(out =~= seq![item] + rest);
    Seq::filter_distributes_over_add(seq![item], rest, |t: CleanText| is_pastable(t));
    lemma_pastes_every_nonempty_text(seq![item]);
    assert(pastable_only(seq![item]) == seq![item]);
}

/// Everything a fresh writer hands out for pasting when fed `items` in order,
/// over all its [`ClipboardWriter::accept`] calls.
pub open spec fn pasted(items: Seq<CleanText>) -> Seq<CleanText> {
    pastable_only(feed(initial_model(), items).1)
}

/// Law: one more item handed to the writer adds to what is pasted exactly what
/// [`ClipboardWriter::accept`] returns for it.
pub proof fn lemma_accept_extends_pasted(items: Seq<CleanText>, item: CleanText)
    ensures
        pasted(items.push(item)) == pasted(items) + pastable_only(
            step(feed(initial_model(), items).0, item).1,
        ),
{
    let all = items.push(item);
    assert(all.drop_last() =~= items);
    assert(all.last() == item);
    let out1 = feed(initial_model(), items).1;
    let out2 = step(feed(initial_model(), items).0, item).1;
    assert(feed(initial_model(), all).1 == out1 + out2);
    Seq::filter_distributes_over_add(out1, out2, |t: CleanText| is_pastable(t));
}

/// Filtering keeps a sequence ordered by strictly increasing `seq`, and keeps
/// only its own elements.
proof fn lemma_pastable_keeps_order(s: Seq<CleanText>)
    requires
        forall|i: int, j: int| 0 <= i < j < s.len() ==> #[trigger] s[i].seq < #[trigger] s[j].seq,
    ensures
        forall|i: int, j: int|
            0 <= i < j < pastable_only(s).len() ==> #[trigger] pastable_only(s)[i].seq
                < #[trigger] pastable_only(s)[j].seq,
        forall|i: int|
            0 <= i < pastable_only(s).len() ==> s.contains(#[trigger] pastable_only(s)[i]),
    decreases s.len(),
{
    reveal(Seq::filter);
    if s.len() > 0 {
        let r = s.drop_last();
        assert forall|i: int, j: int| 0 <= i < j < r.len() implies #[trigger] r[i].seq
            < #[trigger] r[j].seq by {
            assert(r[i] == s[i] && r[j] == s[j]);
        }
        lemma_pastable_keeps_order(r);
        let f = pastable_only(r);
        assert forall|i: int| 0 <= i < f.len() implies r.contains(#[trigger] f[i]) && f[i].seq
            < s.last().seq && s.contains(f[i]) by {
            let k = choose|k: int| 0 <= k < r.len() && r[k] == f[i];
            assert(s[k] == r[k]);
            assert(s[s.len() - 1] == s.last());
        }
        if is_pastable(s.last()) {
            assert(pastable_only(s) == f.push(s.last()));
        } else {
            assert(pastable_only(s) == f);
        }
    }
}

/// Law: whatever order the texts arrive in (with distinct `seq`s, never
/// driving the buffer past the largest `u64`), the writer
/// pastes them in strictly increasing `seq` order, only non-empty texts that
/// were handed to it, each at most once, and every non-empty text whose turn
/// has come (its `seq` is below the next one awaited).
pub proof fn lemma_writer_pastes_in_order(items: Seq<CleanText>)
    requires
        distinct_seqs(items),
        feeds_without_overflow(items),
    ensures
        forall|i: int, j: int|
            0 <= i < j < pasted(items).len() ==> #[trigger] pasted(items)[i].seq
                < #[trigger] pasted(items)[j].seq,
        forall|i: int|
            0 <= i < pasted(items).len() ==> is_pastable(#[trigger] pasted(items)[i])
                && items.contains(pasted(items)[i]),
        forall|k: int|
            0 <= k < items.len() && is_pastable(#[trigger] items[k]) && items[k].seq < feed(
                initial_model(),
                items,
            ).0.expected ==> pasted(items).contains(items[k]),
{
    lemma_feed_releases_in_order(items);
    let (m, out) = feed(initial_model(), items);
    assert(feed_invariant(items, m, out));
    lemma_pastable_keeps_order(out);
    let p = pastable_only(out);
    out.filter_lemma(|t: CleanText| is_pastable(t));
    assert forall|i: int| 0 <= i < p.len() implies is_pastable(#[trigger] p[i]) && items.contains(p[i]) by {
        assert(out.contains(p[i]));
        let k = choose|k: int| 0 <= k < out.len() && out[k] == p[i];
        assert(items.contains(out[k]));
    }
    assert forall|k: int|
        0 <= k < items.len() && is_pastable(#[trigger] items[k]) && items[k].seq < m.expected implies p.contains(items[k]) by {
        let s = items[k].seq as int;
        let v = out[s];
        assert(v.seq == s);
        assert(items.contains(v));
        let j = choose|j: int| 0 <= j < items.len() && items[j] == v;
        assert(items[j].seq == items[k].seq);
        assert(j == k);
    }
}

/// The clipboard text a paste backs up: what `get_text` returned, or the empty
/// text when reading the clipboard failed.
pub open spec fn backup_text(got: Result<String, String>) -> Seq<char> {
    match got {
        Ok(t) => t@,
        Err(_) => Seq::empty(),
    }
}

/// Law: the backup is exactly the text the clipboard held when reading it
/// worked, and empty when reading failed; a paste reports the clipboard's
/// error when setting the text failed, otherwise the keyboard's error when the
/// simulated paste failed, and success otherwise.
pub proof fn lemma_backup_and_outcome(
    got: Result<String, String>,
    set_result: Result<(), String>,
    paste_result: Option<Result<(), String>>,
)
    ensures
        got matches Ok(t) ==> backup_text(got) == t@,
        got is Err ==> backup_text(got).len() == 0,
        set_result matches Err(e) ==> paste_outcome(set_result, paste_result) == Err::<(), WriteError>(
            WriteError::Clipboard(e),
        ),
        paste_result matches Some(Err(e)) ==> (set_result is Ok ==> paste_outcome(
            set_result,
            paste_result,
        ) == Err::<(), WriteError>(WriteError::Keyboard(e))),
        set_result is Ok && !(paste_result matches Some(Err(_))) ==> paste_outcome(set_result, paste_result)
            is Ok,
{
}

/// The backup kept from what reading the clipboard returned.
pub fn backup_of(got: Result<String, String>) -> (backup: String)
    ensures
        backup@ == backup_text(got),
{
    match got {
        Ok(current) => current,
        Err(_) => String::new(),
    }
}

/// Pipeline stage: reorders and pastes each text by simulating Ctrl+V.
pub struct ClipboardWriter<K: Keyboard, C: Clipboard> {
    keyboard: K,
    clipboard: C,
    buffer: SequenceBuffer,
    restore_delay_ms: u64,
}

impl<K: Keyboard, C: Clipboard> ClipboardWriter<K, C> {
    /// The state of the reordering buffer.
    pub closed spec fn buffer_model(&self) -> BufferModel {
        self.buffer@
    }

    /// Milliseconds to wait between the paste and the clipboard restore.
    pub closed spec fn restore_delay(&self) -> u64 {
        self.restore_delay_ms
    }

    /// Every call made so far on the writer's clipboard.
    pub closed spec fn clipboard_history(&self) -> Seq<ClipboardCall> {
        self.clipboard.history()
    }

    /// The results of every paste simulated so far on the writer's keyboard.
    pub closed spec fn keyboard_pastes(&self) -> Seq<Result<(), String>> {
        self.keyboard.pastes()
    }

    pub closed spec fn wf(&self) -> bool {
        self.buffer.wf()
    }

    /// A writer over `keyboard` and `clipboard`, making no call on either.
    pub fn new(keyboard: K, clipboard: C, restore_delay_ms: u64) -> (w: Self)
        ensures
            w.wf(),
            w.buffer_model() == initial_model(),
            w.restore_delay() == restore_delay_ms,
            w.clipboard_history() == clipboard.history(),
            w.keyboard_pastes() == keyboard.pastes(),
    {
        ClipboardWriter { keyboard, clipboard, buffer: SequenceBuffer::new(), restore_delay_ms }
    }

    pub fn restore_delay_ms(&self) -> (ms: u64)
        ensures
            ms == self.restore_delay(),
    {
        self.restore_delay_ms
    }

    /// Hands `item` to the reordering buffer and returns the items now due for
    /// pasting, in `seq` order. Items with empty text (audio that was pure
    /// filler) are released and counted but not returned: their paste is
    /// skipped while the `seq` still advances.
    pub fn accept(&mut self, item: CleanText) -> (due: Vec<CleanText>)
        requires
            old(self).wf(),
            releases_without_overflow(old(self).buffer_model(), item.seq),
        ensures
            final(self).wf(),
            final(self).restore_delay() == old(self).restore_delay(),
            final(self).buffer_model() == step(old(self).buffer_model(), item).0,
            final(self).clipboard_history() == old(self).clipboard_history(),
            final(self).keyboard_pastes() == old(self).keyboard_pastes(),
            due@ == pastable_only(step(old(self).buffer_model(), item).1),
    {
        let released = self.buffer.process(item);
        let mut due: Vec<CleanText> = Vec::new();
        let ghost rel = released@;
        let n = released.len();
        let mut i: usize = 0;
        while i < n
            invariant
                n == rel.len(),
                rel == released@,
                i <= n,
                due@ == pastable_only(rel.take(i as int)),
            decreases n - i,
        {
            let t = &released[i];
            proof {
                reveal_with_fuel(Seq::<CleanText>::filter, 1);
                assert(rel.take(i + 1).drop_last() =~= rel.take(i as int));
            }
            if !t.text.as_str().is_empty() {
                due.push(CleanText { seq: t.seq, text: t.text.clone() });
            }
            i = i + 1;
        }
        assert(rel.take(n as int) =~= rel);
        due
    }

    /// Whether the buffer can take an item with this `seq` without its
    /// counter of the next `seq` overflowing (see [`releases_without_overflow`]).
    pub fn can_accept(&self, seq: u64) -> (ok: bool)
        requires
            self.wf(),
        ensures
            ok == releases_without_overflow(self.buffer_model(), seq),
    {
        self.buffer.can_process(seq)
    }

    /// First half of a paste: backs the clipboard up, sets it to `text` and,
    /// only when that worked, simulates the paste shortcut. The clipboard is
    /// still holding `text` afterwards; [`ClipboardWriter::finish_paste`] puts
    /// the backup back.
    pub fn begin_paste(&mut self, text: &str) -> (pending: PendingRestore)
        requires
            old(self).wf(),
        ensures
            final(self).wf(),
            final(self).buffer_model() == old(self).buffer_model(),
            final(self).restore_delay() == old(self).restore_delay(),
            // The clipboard was read, then set to `text`; the backup is what the
            // read returned (empty when it failed).
            final(self).clipboard_history().len() == old(self).clipboard_history().len() + 2,
            final(self).clipboard_history().take(old(self).clipboard_history().len() as int)
                == old(self).clipboard_history(),
            final(self).clipboard_history()[old(self).clipboard_history().len() as int] matches ClipboardCall::GetText(got)
                && pending.backup@ == backup_text(got),
            final(self).clipboard_history()[old(self).clipboard_history().len() + 1int]
                == ClipboardCall::SetText(text@, pending.set_result),
            // The paste was simulated exactly when setting the text worked.
            pending.set_result is Ok ==> pending.paste_result is Some && final(self).keyboard_pastes()
                == old(self).keyboard_pastes().push(pending.paste_result->0),
            pending.set_result is Err ==> pending.paste_result is None && final(self).keyboard_pastes()
                == old(self).keyboard_pastes(),
    {
        let got = self.clipboard.get_text();
        let ghost got_v = got;
        let backup = backup_of(got);
        let set_result = self.clipboard.set_text(text);
        let paste_result = match set_result {
            Ok(()) => Some(self.keyboard.paste()),
            Err(_) => None,
        };
        let pending = PendingRestore { backup, set_result, paste_result };
        proof {
            let h = self.clipboard_history();
            assert(h[h.len() - 2] == ClipboardCall::GetText(got_v));
        }
        pending
    }

    /// Second half of a paste: restores the backup (always, whatever happened
    /// before: the last clipboard call is setting it back to the backup) and
    /// reports the clipboard error first, then the keyboard error.
    pub fn finish_paste(&mut self, pending: PendingRestore) -> (outcome: Result<(), WriteError>)
        requires
            old(self).wf(),
        ensures
            final(self).wf(),
            final(self).buffer_model() == old(self).buffer_model(),
            final(self).restore_delay() == old(self).restore_delay(),
            final(self).clipboard_history().len() == old(self).clipboard_history().len() + 1,
            final(self).clipboard_history().drop_last() == old(self).clipboard_history(),
            final(self).clipboard_history().last() matches ClipboardCall::SetText(restored, _)
                && restored == pending.backup@,
            final(self).keyboard_pastes() == old(self).keyboard_pastes(),
            outcome == paste_outcome(pending.set_result, pending.paste_result),
    {
        let _ = self.clipboard.set_text(pending.backup.as_str());
        match pending.set_result {
            Err(e) => Err(WriteError::Clipboard(e)),
            Ok(()) => match pending.paste_result {
                Some(Err(e)) => Err(WriteError::Keyboard(e)),
                _ => Ok(()),
            },
        }
    }
}

} // verus!
