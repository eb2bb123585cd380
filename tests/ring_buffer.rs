use audio_fx::RingBuffer;

#[test]
fn test_new() {
    let buffer: RingBuffer<i32> = RingBuffer::new(10);
    assert_eq!(buffer.capacity(), 10);
    assert_eq!(buffer.len(), 0);
}

#[test]
fn test_push_pop() {
    let mut buffer: RingBuffer<i32> = RingBuffer::new(10);
    buffer.push(1);
    assert_eq!(buffer.len(), 1);
    assert_eq!(buffer.pop(), 1);
    assert_eq!(buffer.len(), 0);
}

#[test]
fn test_peek() {
    let mut buffer: RingBuffer<i32> = RingBuffer::new(10);
    buffer.push(1);
    assert_eq!(buffer.peek(), 1);
    assert_eq!(buffer.len(), 1);
}

#[test]
fn test_get() {
    let mut buffer: RingBuffer<i32> = RingBuffer::new(10);
    buffer.push(1);
    buffer.push(2);
    assert_eq!(buffer.get(0), 1);
    assert_eq!(buffer.get(1), 2);
}

#[test]
fn test_reset() {
    let mut buffer: RingBuffer<i32> = RingBuffer::new(10);
    buffer.push(1);
    buffer.reset();
    assert_eq!(buffer.len(), 0);
}

#[test]
fn new_buffer_of_one_slot_is_empty() {
    let buffer: RingBuffer<u8> = RingBuffer::new(1);
    assert_eq!(buffer.capacity(), 1);
    assert_eq!(buffer.len(), 0);
    assert_eq!(buffer.get_read_index(), 0);
    assert_eq!(buffer.get_write_index(), 0);
}

#[test]
fn new_slots_hold_the_default_value() {
    let buffer: RingBuffer<i32> = RingBuffer::new(4);
    for i in 0..4 {
        assert_eq!(buffer.get(i), 0);
    }
}

#[test]
fn reset_refills_with_default_and_rewinds() {
    let mut buffer: RingBuffer<i32> = RingBuffer::new(3);
    buffer.push(7);
    buffer.push(8);
    buffer.pop();
    buffer.reset();
    assert_eq!(buffer.get_read_index(), 0);
    assert_eq!(buffer.get_write_index(), 0);
    assert_eq!(buffer.capacity(), 3);
    for i in 0..3 {
        assert_eq!(buffer.get(i), 0);
    }
}

#[test]
fn push_then_pop_on_a_non_empty_buffer_keeps_len() {
    let mut buffer: RingBuffer<i32> = RingBuffer::new(4);
    buffer.push(1);
    buffer.push(2);
    buffer.push(3);
    assert_eq!(buffer.len(), 3);
    buffer.push(4);
    assert_eq!(buffer.len(), 0);
    assert_eq!(buffer.pop(), 1);
    assert_eq!(buffer.len(), 3);
}

#[test]
fn pushes_then_get_reads_in_order_without_moving_cursors() {
    let mut buffer: RingBuffer<i32> = RingBuffer::new(5);
    let values = [10, 20, 30, 40, 50];
    for v in values {
        buffer.push(v);
    }
    for (i, v) in values.iter().enumerate() {
        assert_eq!(buffer.get(i), *v);
    }
    assert_eq!(buffer.get_read_index(), 0);
    assert_eq!(buffer.get_write_index(), 0);
}

#[test]
fn get_wraps_offsets_beyond_capacity() {
    let mut buffer: RingBuffer<i32> = RingBuffer::new(3);
    buffer.push(1);
    buffer.push(2);
    buffer.push(3);
    assert_eq!(buffer.get(3), 1);
    assert_eq!(buffer.get(7), 2);
    assert_eq!(buffer.get(usize::MAX), 1);
    buffer.set_read_index(2);
    assert_eq!(buffer.get(1), 1);
}

#[test]
fn put_and_peek_do_not_advance() {
    let mut buffer: RingBuffer<i32> = RingBuffer::new(4);
    buffer.put(9);
    assert_eq!(buffer.get_write_index(), 0);
    assert_eq!(buffer.peek(), 9);
    assert_eq!(buffer.get_read_index(), 0);
    assert_eq!(buffer.len(), 0);
}

#[test]
fn cursor_setters_reduce_modulo_capacity() {
    let mut buffer: RingBuffer<i32> = RingBuffer::new(4);
    buffer.set_write_index(9);
    assert_eq!(buffer.get_write_index(), 1);
    buffer.set_read_index(7);
    assert_eq!(buffer.get_read_index(), 3);
    assert_eq!(buffer.len(), 2);
}

#[test]
fn len_handles_write_behind_read() {
    let mut buffer: RingBuffer<i32> = RingBuffer::new(5);
    buffer.set_read_index(4);
    buffer.set_write_index(1);
    assert_eq!(buffer.len(), 2);
}

#[test]
fn push_wraps_write_cursor_and_overwrites_oldest() {
    let mut buffer: RingBuffer<i32> = RingBuffer::new(2);
    buffer.push(1);
    buffer.push(2);
    buffer.push(3);
    assert_eq!(buffer.get_write_index(), 1);
    assert_eq!(buffer.peek(), 3);
    assert_eq!(buffer.get(1), 2);
}

#[test]
fn filter_enums_are_copyable() {
    let kind = audio_fx::FilterType::IIR;
    let copy = kind;
    assert!(matches!(copy, audio_fx::FilterType::IIR));
    assert!(matches!(kind, audio_fx::FilterType::IIR));
    let param = audio_fx::FilterParam::Delay;
    assert!(matches!(param, audio_fx::FilterParam::Delay));
}
