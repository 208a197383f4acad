use chartline::series::SeriesBuffer;
use chartline::source::{advance, advance_from, SampleSource};
use chartline::{SCALE, WINDOW};

struct ScriptedSource {
    values: Vec<i64>,
    next: usize,
}

impl SampleSource for ScriptedSource {
    fn next_sample(&mut self) -> i64 {
        let v = self.values[self.next % self.values.len()];
        self.next += 1;
        v
    }
}

#[test]
fn window_grows_until_capacity() {
    let mut buf = SeriesBuffer::new();
    for i in 0..30i64 {
        buf.append(i);
    }
    assert_eq!(buf.len(), 30);
    for i in 0..30usize {
        assert_eq!(buf.get(i), i as i64);
    }
}

#[test]
fn append_at_capacity_evicts_oldest() {
    let mut buf = SeriesBuffer::new();
    for i in 0..WINDOW as i64 {
        buf.append(i);
    }
    assert_eq!(buf.len(), WINDOW);
    assert_eq!(buf.get(0), 0);
    buf.append(1000);
    assert_eq!(buf.len(), WINDOW);
    assert_eq!(buf.get(0), 1);
    assert_eq!(buf.get(WINDOW - 1), 1000);
}

#[test]
fn window_keeps_last_fifty_in_order() {
    let mut buf = SeriesBuffer::new();
    for i in 0..120i64 {
        buf.append(i);
    }
    assert_eq!(buf.len(), WINDOW);
    for i in 0..WINDOW {
        assert_eq!(buf.get(i), 120 - WINDOW as i64 + i as i64);
    }
}

#[test]
fn snapshot_copies_the_contents() {
    let mut buf = SeriesBuffer::new();
    for i in 0..7i64 {
        buf.append(i * i);
    }
    let snap = buf.snapshot();
    assert_eq!(snap.len(), 7);
    for i in 0..7usize {
        assert_eq!(snap[i], buf.get(i));
    }
    let rebuilt = SeriesBuffer::from_snapshot(snap);
    assert_eq!(rebuilt.len(), 7);
    assert_eq!(rebuilt.get(3), 9);
}

#[test]
fn a_scripted_source_drives_the_same_policy() {
    let mut src = ScriptedSource { values: vec![10, 20, 30], next: 0 };
    let mut buf = SeriesBuffer::new();
    advance_from(&mut src, &mut buf);
    assert_eq!(buf.len(), WINDOW);
    assert_eq!(buf.get(0), 10);
    assert_eq!(buf.get(1), 20);
    assert_eq!(buf.get(2), 30);
    assert_eq!(buf.get(3), 10);
    advance_from(&mut src, &mut buf);
    assert_eq!(buf.len(), WINDOW);
    // the window slid by one: the old second sample leads, and the
    // fifty-first scripted value (index 50 of the 3-cycle) trails
    assert_eq!(buf.get(0), 20);
    assert_eq!(buf.get(WINDOW - 1), 30);
}

#[test]
fn seeding_fills_the_window_with_in_range_samples() {
    let mut buf = SeriesBuffer::new();
    advance(&mut buf);
    assert_eq!(buf.len(), WINDOW);
    for i in 0..WINDOW {
        let v = buf.get(i);
        assert!(0 <= v && v <= SCALE);
    }
    advance(&mut buf);
    assert_eq!(buf.len(), WINDOW);
    let v = buf.get(WINDOW - 1);
    assert!(0 <= v && v <= SCALE);
}
