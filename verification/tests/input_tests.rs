use usya::input;
use usya::input::keyboard::{handle_scancode, scancode_to_char, RingBuffer, KEYBOARD_QUEUE_CAPACITY};
use usya::input::mouse::{Mouse, Ps2Action};

#[test]
fn ring_buffer_returns_items_in_push_order() {
    let mut q: RingBuffer<8> = RingBuffer::new();
    q.push('a');
    q.push('b');
    q.push('c');
    assert_eq!(q.pop(), Some('a'));
    q.push('d');
    assert_eq!(q.pop(), Some('b'));
    assert_eq!(q.pop(), Some('c'));
    assert_eq!(q.pop(), Some('d'));
    assert_eq!(q.pop(), None);
}

#[test]
fn ring_buffer_holds_one_less_than_its_slots() {
    let mut q: RingBuffer<4> = RingBuffer::new();
    q.push('1');
    q.push('2');
    q.push('3');
    q.push('4');
    assert_eq!(q.pop(), Some('1'));
    assert_eq!(q.pop(), Some('2'));
    assert_eq!(q.pop(), Some('3'));
    assert_eq!(q.pop(), None);
}

#[test]
fn ring_buffer_wraps_around() {
    let mut q: RingBuffer<3> = RingBuffer::new();
    for round in 0..10u32 {
        let c = char::from_u32('a' as u32 + round).unwrap();
        q.push(c);
        assert_eq!(q.pop(), Some(c));
    }
    assert_eq!(q.pop(), None);
}

#[test]
fn ring_buffer_without_slots_is_always_empty() {
    let mut q: RingBuffer<0> = RingBuffer::new();
    assert_eq!(q.pop(), None);
}

#[test]
fn push_then_pop_on_empty_queue_gives_item_back() {
    let mut q: RingBuffer<KEYBOARD_QUEUE_CAPACITY> = RingBuffer::new();
    q.push('z');
    assert_eq!(q.pop(), Some('z'));
    assert_eq!(q.pop(), None);
}

#[test]
fn scancodes_map_to_qwerty_characters() {
    assert_eq!(scancode_to_char(0x02), Some('1'));
    assert_eq!(scancode_to_char(0x0B), Some('0'));
    assert_eq!(scancode_to_char(0x10), Some('q'));
    assert_eq!(scancode_to_char(0x19), Some('p'));
    assert_eq!(scancode_to_char(0x1E), Some('a'));
    assert_eq!(scancode_to_char(0x26), Some('l'));
    assert_eq!(scancode_to_char(0x2C), Some('z'));
    assert_eq!(scancode_to_char(0x32), Some('m'));
    assert_eq!(scancode_to_char(0x39), Some(' '));
    assert_eq!(scancode_to_char(0x1C), Some('\n'));
    assert_eq!(scancode_to_char(0x0E), Some('\x08'));
}

#[test]
fn unknown_scancodes_give_nothing() {
    assert_eq!(scancode_to_char(0x00), None);
    assert_eq!(scancode_to_char(0x01), None);
    assert_eq!(scancode_to_char(0x81), None);
    assert_eq!(scancode_to_char(0x2A), None);
}

#[test]
fn keyboard_interrupt_queues_known_keys_only() {
    let mut q: RingBuffer<KEYBOARD_QUEUE_CAPACITY> = RingBuffer::new();
    handle_scancode(&mut q, 0x23);
    handle_scancode(&mut q, 0xAA);
    handle_scancode(&mut q, 0x17);
    assert_eq!(q.pop(), Some('h'));
    assert_eq!(q.pop(), Some('i'));
    assert_eq!(q.pop(), None);
}

#[test]
fn mouse_packet_moves_pointer() {
    let mut m = Mouse::new();
    m.handle_interrupt(0x08);
    m.handle_interrupt(10);
    m.handle_interrupt(0xFB); // dy = -5: the pointer moves down
    assert_eq!(m.x, 10);
    assert_eq!(m.y, 5);
    assert_eq!((m.x(), m.y()), (10, 5));
}

#[test]
fn mouse_drops_bytes_until_sync_bit() {
    let mut m = Mouse::new();
    m.handle_interrupt(0x00);
    m.handle_interrupt(0x10);
    m.handle_interrupt(0x09);
    m.handle_interrupt(3);
    m.handle_interrupt(0xFF);
    assert_eq!(m.x, 3);
    assert_eq!(m.y, 1);
}

#[test]
fn mouse_pointer_stays_on_screen() {
    let mut m = Mouse::new();
    // Moving left and up from the corner stays at the corner.
    m.handle_interrupt(0x08);
    m.handle_interrupt(0x80); // dx = -128
    m.handle_interrupt(0x7F); // dy = 127: up
    assert_eq!((m.x, m.y), (0, 0));
    for _ in 0..100 {
        m.handle_interrupt(0x08);
        m.handle_interrupt(0x7F);
        m.handle_interrupt(0x80); // dy = -128: down
    }
    assert_eq!((m.x, m.y), (1920, 1080));
}

#[test]
fn mouse_saturates_before_clamping() {
    let mut m = Mouse::new();
    m.x = i32::MAX;
    m.y = i32::MIN;
    m.handle_interrupt(0x08);
    m.handle_interrupt(0x7F);
    m.handle_interrupt(0x7F);
    assert_eq!((m.x, m.y), (1920, 0));
}

fn run_mouse_init(status: u8, config: u8, ack: u8) -> Vec<Ps2Action> {
    let mut machine = input::init();
    let mut actions = Vec::new();
    let mut value = 0u8;
    loop {
        let act = machine.step(value);
        actions.push(act);
        value = match act {
            Ps2Action::ReadStatus => status,
            Ps2Action::ReadData => {
                if actions.iter().filter(|a| **a == Ps2Action::ReadData).count() == 1 {
                    config
                } else {
                    ack
                }
            }
            Ps2Action::Done => break,
            _ => 0,
        };
        assert!(actions.len() < 200_000);
    }
    actions
}

#[test]
fn mouse_init_sequence_with_ready_controller() {
    // Status 0x01: input buffer empty (writes may go) and output buffer full.
    let actions = run_mouse_init(0x01, 0x65, 0xFA);
    assert_eq!(
        actions,
        vec![
            Ps2Action::ReadStatus,
            Ps2Action::WriteCommand(0xA8),
            Ps2Action::ReadStatus,
            Ps2Action::WriteCommand(0x20),
            Ps2Action::ReadStatus,
            Ps2Action::ReadData,
            Ps2Action::ReadStatus,
            Ps2Action::WriteCommand(0x60),
            Ps2Action::ReadStatus,
            Ps2Action::WriteData(0x47),
            Ps2Action::ReadStatus,
            Ps2Action::WriteCommand(0xD4),
            Ps2Action::ReadStatus,
            Ps2Action::WriteData(0xF4),
            Ps2Action::ReadStatus,
            Ps2Action::ReadData,
            Ps2Action::Done,
        ]
    );
}

#[test]
fn mouse_init_waits_give_up_after_ten_thousand_polls() {
    // Status 0x02: the input buffer never empties, the output never fills.
    let actions = run_mouse_init(0x02, 0x00, 0x00);
    let first_write = actions
        .iter()
        .position(|a| *a == Ps2Action::WriteCommand(0xA8))
        .unwrap();
    assert_eq!(first_write, 10_000);
    assert!(actions[..first_write].iter().all(|a| *a == Ps2Action::ReadStatus));
    assert_eq!(*actions.last().unwrap(), Ps2Action::Done);
    assert!(actions.contains(&Ps2Action::WriteData(0x02)));
}

#[test]
fn mouse_init_from_mouse_starts_at_beginning() {
    let mouse = Mouse::new();
    let mut machine = mouse.init();
    assert_eq!(machine.step(0), Ps2Action::ReadStatus);
    assert!(!machine.is_done());
}
