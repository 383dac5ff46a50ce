use fidius::stream_marker::Stream;

fn collect<T>(mut s: Stream<T>) -> Vec<T> {
    let mut out = Vec::new();
    while let Some(x) = s.next_item() {
        out.push(x);
    }
    out
}

#[test]
fn from_iter_yields_then_none() {
    let mut s = Stream::from_iter(vec![1u64, 2, 3].into_iter());
    assert_eq!(s.next_item(), Some(1));
    assert_eq!(s.next_item(), Some(2));
    assert_eq!(s.next_item(), Some(3));
    assert_eq!(s.next_item(), None);
    assert_eq!(s.next_item(), None);
}

#[test]
fn from_iter_accepts_a_range() {
    let s = Stream::from_iter(0u64..3);
    let got: Vec<u64> = collect(s);
    assert_eq!(got, vec![0, 1, 2]);
}

#[test]
fn marker_form_is_empty() {
    let mut s: Stream<u64> = Stream::new();
    assert_eq!(s.next_item(), None);
    let mut d: Stream<u64> = Stream::default();
    assert_eq!(d.next_item(), None);
}
