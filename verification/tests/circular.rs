use tui_logger::CircularBuffer;

fn filled(depth: usize, n: u32) -> CircularBuffer<u32> {
    let mut buffer = CircularBuffer::new(depth);
    for i in 1..=n {
        buffer.push(i);
    }
    buffer
}

fn copied(elements: Vec<&u32>) -> Vec<u32> {
    elements.into_iter().copied().collect()
}

#[test]
fn new_buffer_is_empty() {
    let buffer: CircularBuffer<u32> = CircularBuffer::new(5);
    assert_eq!(buffer.len(), 0);
    assert!(buffer.is_empty());
    assert_eq!(buffer.capacity(), 5);
    assert_eq!(buffer.total_elements(), 0);
    assert!(!buffer.has_wrapped());
    assert!(buffer.iter().is_empty());
    assert!(buffer.rev_iter().is_empty());
}

#[test]
fn buffer_grows_until_its_depth() {
    let buffer = filled(5, 3);
    assert_eq!(buffer.len(), 3);
    assert!(!buffer.is_empty());
    assert_eq!(copied(buffer.iter()), vec![1, 2, 3]);
    assert_eq!(copied(buffer.rev_iter()), vec![3, 2, 1]);
    assert!(!buffer.has_wrapped());
}

#[test]
fn full_buffer_has_not_wrapped() {
    let buffer = filled(5, 5);
    assert_eq!(buffer.len(), 5);
    assert_eq!(buffer.total_elements(), 5);
    assert!(!buffer.has_wrapped());
    assert_eq!(copied(buffer.iter()), vec![1, 2, 3, 4, 5]);
}

#[test]
fn oldest_elements_are_overwritten() {
    for n in 6..=23 {
        let buffer = filled(5, n);
        let latest: Vec<u32> = (n - 4..=n).collect();
        let mut reversed = latest.clone();
        reversed.reverse();
        assert_eq!(copied(buffer.iter()), latest);
        assert_eq!(copied(buffer.rev_iter()), reversed);
        assert_eq!(buffer.len(), 5);
        assert_eq!(buffer.capacity(), 5);
        assert_eq!(buffer.total_elements(), n as usize);
        assert!(buffer.has_wrapped());
    }
}

#[test]
fn buffer_of_depth_one_keeps_the_last() {
    let buffer = filled(1, 4);
    assert_eq!(copied(buffer.iter()), vec![4]);
    assert!(buffer.has_wrapped());
}

#[test]
fn take_empties_the_buffer() {
    for n in 0..=12 {
        let mut buffer = filled(4, n);
        let before = copied(buffer.iter());
        assert_eq!(buffer.take(), before);
        assert!(buffer.is_empty());
        assert_eq!(buffer.total_elements(), 0);
        assert_eq!(buffer.capacity(), 4);
        buffer.push(99);
        assert_eq!(copied(buffer.iter()), vec![99]);
    }
}

#[test]
fn take_of_a_buffer_without_depth() {
    let mut buffer: CircularBuffer<u64> = CircularBuffer::new(0);
    assert_eq!(buffer.capacity(), 0);
    assert_eq!(buffer.take(), Vec::<u64>::new());
    assert!(buffer.is_empty());
}
