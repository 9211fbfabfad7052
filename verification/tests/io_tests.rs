use light_control::io_handler::{interrupt_events, ByteMaskIterator, IoMessage};

#[test]
fn test_byte_mask() {
    assert_eq!(
        vec![IoMessage::Release(0)],
        ByteMaskIterator {
            value: 0b00000001,
            mask: 0b00000001,
            index: 0,
        }
        .collect_events()
    );
    assert_eq!(
        vec![
            IoMessage::Release(8),
            IoMessage::Press(9),
            IoMessage::Release(10),
            IoMessage::Press(11),
            IoMessage::Release(12),
            IoMessage::Press(13),
            IoMessage::Release(14),
            IoMessage::Press(15),
        ],
        ByteMaskIterator {
            value: 0b01010101,
            mask: 0b11111111,
            index: 8,
        }
        .collect_events()
    );
}

#[test]
fn interrupt_of_port_b_counts_from_input_eight() {
    assert_eq!(vec![IoMessage::Press(8), IoMessage::Release(10)], interrupt_events('b', 0b0000_0101, 0b0000_0100));
    assert_eq!(vec![IoMessage::Release(7)], interrupt_events('a', 0b1000_0000, 0b1111_1111));
}

#[test]
fn interrupt_of_unknown_port_gives_nothing() {
    assert_eq!(Vec::<IoMessage>::new(), interrupt_events('c', 0xff, 0));
    assert_eq!(Vec::<IoMessage>::new(), interrupt_events('a', 0, 0xff));
}
