use farm_session::buffer::{OutputBuffer, OUTPUT_CAPACITY};

fn lines(names: &[&str]) -> Vec<String> {
    names.iter().map(|s| s.to_string()).collect()
}

#[test]
fn eleventh_line_evicts_the_first() {
    let mut b = OutputBuffer::new();
    let input = lines(&["a", "b", "c", "d", "e", "f", "g", "h", "i", "j", "k"]);
    for l in input {
        b.push(l);
    }
    assert_eq!(b.snapshot(), lines(&["b", "c", "d", "e", "f", "g", "h", "i", "j", "k"]));
}

#[test]
fn many_pushes_keep_the_last_ten_in_order() {
    let mut b = OutputBuffer::new();
    for n in 0..25 {
        b.push(format!("line {}", n));
    }
    let expected: Vec<String> = (15..25).map(|n| format!("line {}", n)).collect();
    assert_eq!(b.len(), OUTPUT_CAPACITY);
    assert_eq!(b.snapshot(), expected);
}

#[test]
fn fewer_than_capacity_keeps_all() {
    let mut b = OutputBuffer::new();
    assert!(b.snapshot().is_empty());
    b.push("x".to_string());
    b.push("y".to_string());
    assert_eq!(b.snapshot(), lines(&["x", "y"]));
    assert_eq!(b.len(), 2);
}

#[test]
fn exactly_capacity_evicts_nothing() {
    let mut b = OutputBuffer::new();
    for n in 0..10 {
        b.push(n.to_string());
    }
    let expected: Vec<String> = (0..10).map(|n| n.to_string()).collect();
    assert_eq!(b.snapshot(), expected);
}

#[test]
fn snapshot_does_not_change_the_buffer() {
    let mut b = OutputBuffer::new();
    b.push("one".to_string());
    let first = b.snapshot();
    let second = b.snapshot();
    assert_eq!(first, second);
    assert_eq!(b.len(), 1);
}
