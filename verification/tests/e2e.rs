//! End-to-end: transcriptions that finish out of order are cleaned and pasted
//! in `seq` order.

use std::sync::{Arc, Mutex};

use voicecode::domain::traits::{Clipboard, Keyboard};
use voicecode::pipeline::cleaner::RegexCleaner;
use voicecode::pipeline::transcriber::settle_transcription;
use voicecode::pipeline::writer::ClipboardWriter;

#[derive(Clone)]
struct FakeClipboard {
    current: Arc<Mutex<String>>,
}
impl Clipboard for FakeClipboard {
    fn get_text(&mut self) -> Result<String, String> {
        Ok(self.current.lock().unwrap().clone())
    }
    fn set_text(&mut self, text: &str) -> Result<(), String> {
        *self.current.lock().unwrap() = text.to_string();
        Ok(())
    }
}

#[derive(Clone)]
struct FakeKeyboard {
    current: Arc<Mutex<String>>,
    pasted: Arc<Mutex<Vec<String>>>,
}
impl Keyboard for FakeKeyboard {
    fn paste(&mut self) -> Result<(), String> {
        let text = self.current.lock().unwrap().clone();
        self.pasted.lock().unwrap().push(text);
        Ok(())
    }
}

#[test]
fn pipeline_emits_text_in_seq_order_despite_out_of_order_transcription() {
    let current = Arc::new(Mutex::new(String::new()));
    let pasted = Arc::new(Mutex::new(Vec::new()));

    let cleaner = RegexCleaner::new(vec![]); // no filler patterns
    let mut writer = ClipboardWriter::new(
        Box::new(FakeKeyboard {
            current: current.clone(),
            pasted: pasted.clone(),
        }),
        Box::new(FakeClipboard {
            current: current.clone(),
        }),
        0,
    );

    // Chunks 0, 1, 2 were sent in order; their transcriptions finish 2, 1, 0.
    for seq in [2u64, 1, 0] {
        let text = settle_transcription(seq, Ok(format!("t{seq}")));
        let clean = cleaner.clean(&text);
        for ready in writer.accept(clean) {
            let pending = writer.begin_paste(&ready.text);
            writer.finish_paste(pending).unwrap();
        }
    }

    // Despite finishing 2,1,0, the text is pasted in order 0,1,2.
    assert_eq!(*pasted.lock().unwrap(), vec!["T0", "T1", "T2"]);
}
