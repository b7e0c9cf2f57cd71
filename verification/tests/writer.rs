use std::sync::{Arc, Mutex};

use voicecode::domain::models::CleanText;
use voicecode::domain::traits::{Clipboard, Keyboard};
use voicecode::pipeline::writer::{backup_of, ClipboardWriter, WriteError};

fn clean(seq: u64, text: &str) -> CleanText {
    CleanText {
        seq,
        text: text.to_string(),
    }
}

#[derive(Clone, Default)]
struct FakeKeyboard {
    pastes: Arc<Mutex<usize>>,
    fail: bool,
}

impl Keyboard for FakeKeyboard {
    fn paste(&mut self) -> Result<(), String> {
        if self.fail {
            return Err("no keyboard".to_string());
        }
        *self.pastes.lock().unwrap() += 1;
        Ok(())
    }
}

#[derive(Clone, Default)]
struct FakeClipboard {
    current: Arc<Mutex<String>>,
    set_values: Arc<Mutex<Vec<String>>>,
    fail_set: bool,
}

impl Clipboard for FakeClipboard {
    fn get_text(&mut self) -> Result<String, String> {
        Ok(self.current.lock().unwrap().clone())
    }
    fn set_text(&mut self, text: &str) -> Result<(), String> {
        self.set_values.lock().unwrap().push(text.to_string());
        if self.fail_set && text != *self.current.lock().unwrap() {
            return Err("clipboard busy".to_string());
        }
        *self.current.lock().unwrap() = text.to_string();
        Ok(())
    }
}

/// Drives the writer the way the pipeline stage does (without the delay).
fn run_writer(
    writer: &mut ClipboardWriter<Box<FakeKeyboard>, Box<FakeClipboard>>,
    items: Vec<CleanText>) -> Vec<Result<(), WriteError>> {
    let mut outcomes = Vec::new();
    for item in items {
        for ready in writer.accept(item) {
            let pending = writer.begin_paste(&ready.text);
            outcomes.push(writer.finish_paste(pending));
        }
    }
    outcomes
}

fn empty_text_case() {
    let kb = FakeKeyboard::default();
    let cb = FakeClipboard::default();
    let pastes = kb.pastes.clone();

    let mut writer = ClipboardWriter::new(Box::new(kb), Box::new(cb.clone()), 50);

    // seq 0 empty (skipped), seq 1 with text (pasted).
    run_writer(&mut writer, vec![clean(0, ""), clean(1, "hola")]);

    // Only one paste (seq 1), even though seq 0 arrived first.
    assert_eq!(*pastes.lock().unwrap(), 1);
    assert!(cb.set_values.lock().unwrap().iter().any(|v| v == "hola"));
}

#[test]
fn writer_empty_text_skips_paste_but_seq_advances() {
    empty_text_case();
}

#[test]
fn mod_empty_text_skips_paste_but_seq_advances() {
    empty_text_case();
}

#[test]
fn clipboard_is_restored_after_paste() {
    let kb = FakeKeyboard::default();
    let cb = FakeClipboard::default();
    *cb.current.lock().unwrap() = "previous".to_string();
    let mut writer = ClipboardWriter::new(Box::new(kb), Box::new(cb.clone()), 50);
    assert_eq!(writer.restore_delay_ms(), 50);
    let outcomes = run_writer(&mut writer, vec![clean(0, "dictado")]);
    assert_eq!(outcomes, vec![Ok(())]);
    assert_eq!(*cb.current.lock().unwrap(), "previous");
    assert_eq!(
        *cb.set_values.lock().unwrap(),
        vec!["dictado".to_string(), "previous".to_string()]
    );
}

#[test]
fn failed_clipboard_set_skips_the_paste_and_reports_it() {
    let kb = FakeKeyboard::default();
    let pastes = kb.pastes.clone();
    let cb = FakeClipboard {
        fail_set: true,
        ..Default::default()
    };
    let mut writer = ClipboardWriter::new(Box::new(kb), Box::new(cb), 0);
    let outcomes = run_writer(&mut writer, vec![clean(0, "texto")]);
    assert_eq!(outcomes, vec![Err(WriteError::Clipboard("clipboard busy".to_string()))]);
    assert_eq!(*pastes.lock().unwrap(), 0);
}

#[test]
fn failed_paste_is_reported_and_clipboard_still_restored() {
    let kb = FakeKeyboard {
        fail: true,
        ..Default::default()
    };
    let cb = FakeClipboard::default();
    *cb.current.lock().unwrap() = "antes".to_string();
    let mut writer = ClipboardWriter::new(Box::new(kb), Box::new(cb.clone()), 0);
    let outcomes = run_writer(&mut writer, vec![clean(0, "texto")]);
    assert_eq!(outcomes, vec![Err(WriteError::Keyboard("no keyboard".to_string()))]);
    assert_eq!(*cb.current.lock().unwrap(), "antes");
}

#[test]
fn writer_holds_early_items_until_their_turn() {
    let kb = FakeKeyboard::default();
    let cb = FakeClipboard::default();
    let mut writer = ClipboardWriter::new(Box::new(kb), Box::new(cb), 0);
    assert!(writer.accept(clean(1, "b")).is_empty());
    let due = writer.accept(clean(0, "a"));
    assert_eq!(due, vec![clean(0, "a"), clean(1, "b")]);
}

#[test]
fn unreadable_clipboard_is_backed_up_as_empty() {
    assert_eq!(backup_of(Ok("antes".to_string())), "antes");
    assert_eq!(backup_of(Err("no clipboard".to_string())), "");
}

#[test]
fn restores_the_empty_clipboard_after_the_text() {
    let kb = FakeKeyboard::default();
    let cb = FakeClipboard::default();
    let mut writer = ClipboardWriter::new(Box::new(kb), Box::new(cb.clone()), 50);
    run_writer(&mut writer, vec![clean(0, ""), clean(1, "hola")]);
    assert_eq!(
        *cb.set_values.lock().unwrap(),
        vec!["hola".to_string(), String::new()]
    );
}

#[test]
fn writer_refuses_only_an_overflowing_release() {
    let kb = FakeKeyboard::default();
    let cb = FakeClipboard::default();
    let mut writer = ClipboardWriter::new(Box::new(kb), Box::new(cb), 0);
    assert!(writer.can_accept(0));
    assert!(writer.can_accept(u64::MAX));
    assert!(writer.accept(clean(u64::MAX, "last")).is_empty());
}
