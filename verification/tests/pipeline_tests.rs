use chartline::pipeline::{render, ChartSlot, RenderOutcome, SlotState};
use chartline::series::SeriesBuffer;
use chartline::{SCALE, WINDOW};

#[test]
fn rendering_is_deterministic() {
    let mut buf = SeriesBuffer::new();
    buf.append(SCALE / 3);
    buf.append(SCALE / 7);
    buf.append(SCALE);
    let a = render(&buf, 64, 48).unwrap();
    let b = render(&buf, 64, 48).unwrap();
    assert_eq!(a, b);
}

#[test]
fn slot_reports_its_lifecycle_states() {
    let mut slot = ChartSlot::new(40, 36);
    assert_eq!(slot.state(), SlotState::Idle);
    assert!(slot.current().is_none());
    let mut buf = SeriesBuffer::new();
    buf.append(SCALE / 2);
    slot.request(&buf);
    // a consumer shows a placeholder here
    assert_eq!(slot.state(), SlotState::Computing);
    assert!(slot.current().is_none());
    let snap = buf.snapshot();
    assert_eq!(slot.finish(&snap), RenderOutcome::Completed);
    assert_eq!(slot.state(), SlotState::Ready);
    let cached = slot.current().unwrap();
    assert_eq!(cached, &render(&buf, 40, 36).unwrap());
}

#[test]
fn late_completion_for_a_superseded_snapshot_is_discarded() {
    // first snapshot: a full window of zeros
    let mut s1 = SeriesBuffer::new();
    for _ in 0..WINDOW {
        s1.append(0);
    }
    // second snapshot: the window after one more append of a full-scale value
    let mut s2 = SeriesBuffer::new();
    for _ in 0..WINDOW - 1 {
        s2.append(0);
    }
    s2.append(SCALE);
    let mut slot = ChartSlot::new(64, 48);
    slot.request(&s1);
    let snap1 = s1.snapshot();
    slot.request(&s2);
    let snap2 = s2.snapshot();
    // the second render completes first; the first completes last
    assert_eq!(slot.finish(&snap2), RenderOutcome::Completed);
    assert_eq!(slot.finish(&snap1), RenderOutcome::StaleDiscarded);
    let expected = render(&s2, 64, 48).unwrap();
    assert_eq!(slot.current().unwrap(), &expected);
    assert_eq!(slot.state(), SlotState::Ready);
}

#[test]
fn stale_completion_in_order_never_reaches_the_cache_either() {
    let mut s1 = SeriesBuffer::new();
    s1.append(0);
    let mut s2 = SeriesBuffer::new();
    s2.append(SCALE);
    let mut slot = ChartSlot::new(64, 48);
    slot.request(&s1);
    slot.request(&s2);
    let snap1 = s1.snapshot();
    let snap2 = s2.snapshot();
    assert_eq!(slot.finish(&snap1), RenderOutcome::StaleDiscarded);
    assert!(slot.current().is_none());
    assert_eq!(slot.finish(&snap2), RenderOutcome::Completed);
    let expected = render(&s2, 64, 48).unwrap();
    assert_eq!(slot.current().unwrap(), &expected);
}
