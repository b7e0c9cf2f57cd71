use voicecode::domain::models::CleanText;
use voicecode::pipeline::writer::sequence_buffer;
use voicecode::pipeline::writer::SequenceBuffer;

fn clean(seq: u64, text: &str) -> CleanText {
    CleanText {
        seq,
        text: text.to_string(),
    }
}

#[test]
fn sequence_buffer_in_order_passes_through() {
    let mut buf = sequence_buffer::SequenceBuffer::new();
    assert_eq!(buf.process(clean(0, "a")), vec![clean(0, "a")]);
    assert_eq!(buf.process(clean(1, "b")), vec![clean(1, "b")]);
}

#[test]
fn sequence_buffer_out_of_order_buffers_until_gap_fills() {
    let mut buf = sequence_buffer::SequenceBuffer::new();
    assert_eq!(buf.process(clean(1, "b")), vec![]);
    assert_eq!(buf.process(clean(2, "c")), vec![]);
    // Once 0 arrives, 0,1,2 drain in order.
    assert_eq!(
        buf.process(clean(0, "a")),
        vec![clean(0, "a"), clean(1, "b"), clean(2, "c")]
    );
}

#[test]
fn sequence_buffer_stops_draining_at_first_gap() {
    let mut buf = sequence_buffer::SequenceBuffer::new();
    buf.process(clean(1, "b"));
    buf.process(clean(3, "d"));
    // 0 arrives -> drains 0,1 but stops (2 is missing).
    assert_eq!(
        buf.process(clean(0, "a")),
        vec![clean(0, "a"), clean(1, "b")]
    );
}

#[test]
fn writer_in_order_passes_through() {
    let mut buf = SequenceBuffer::new();
    assert_eq!(buf.process(clean(0, "a")), vec![clean(0, "a")]);
    assert_eq!(buf.process(clean(1, "b")), vec![clean(1, "b")]);
}

#[test]
fn writer_out_of_order_buffers_until_gap_fills() {
    let mut buf = SequenceBuffer::new();
    assert_eq!(buf.process(clean(1, "b")), vec![]);
    assert_eq!(buf.process(clean(2, "c")), vec![]);
    assert_eq!(
        buf.process(clean(0, "a")),
        vec![clean(0, "a"), clean(1, "b"), clean(2, "c")]
    );
}

#[test]
fn writer_stops_draining_at_first_gap() {
    let mut buf = SequenceBuffer::new();
    buf.process(clean(1, "b"));
    buf.process(clean(3, "d"));
    assert_eq!(
        buf.process(clean(0, "a")),
        vec![clean(0, "a"), clean(1, "b")]
    );
}

#[test]
fn gap_filled_later_releases_the_rest() {
    let mut buf = SequenceBuffer::new();
    buf.process(clean(1, "b"));
    buf.process(clean(3, "d"));
    buf.process(clean(0, "a"));
    assert_eq!(buf.process(clean(2, "c")), vec![clean(2, "c"), clean(3, "d")]);
    assert_eq!(buf.process(clean(4, "e")), vec![clean(4, "e")]);
}

#[test]
fn any_permutation_is_released_sorted() {
    // Law on concrete values: every arrival order of 0..5 comes out as 0..5.
    let orders: Vec<Vec<u64>> = vec![
        vec![4, 3, 2, 1, 0],
        vec![2, 0, 4, 1, 3],
        vec![0, 1, 2, 3, 4],
        vec![1, 3, 0, 4, 2],
    ];
    for order in orders {
        let mut buf = SequenceBuffer::new();
        let mut out = Vec::new();
        for seq in order {
            out.extend(buf.process(clean(seq, &format!("t{seq}"))));
        }
        let seqs: Vec<u64> = out.iter().map(|c| c.seq).collect();
        assert_eq!(seqs, vec![0, 1, 2, 3, 4]);
        assert!(out.iter().all(|c| c.text == format!("t{}", c.seq)));
    }
}

#[test]
fn fresh_buffer_holds_the_largest_seq() {
    let mut buf = SequenceBuffer::new();
    assert!(buf.can_process(u64::MAX));
    assert_eq!(buf.process(clean(u64::MAX, "z")), vec![]);
    assert!(buf.can_process(0));
    assert_eq!(buf.process(clean(0, "a")), vec![clean(0, "a")]);
}
