use vstd::prelude::*;

verus! {

/// Capacity of the keyboard queue that the interrupt handler fills.
pub const KEYBOARD_QUEUE_CAPACITY: usize = 256;

/// A fixed-size ring buffer of characters.
///
/// One slot always stays empty to tell a full buffer from an empty one, so
/// the buffer holds at most `N - 1` characters.
pub struct RingBuffer<const N: usize> {
    buffer: Vec<char>,
    head: usize,
    tail: usize,
}

/// The queue after `item` is offered to a ring of `n` slots holding `q`:
/// it is appended when a slot is left, and dropped otherwise.
pub open spec fn ring_after_push(q: Seq<char>, item: char, n: nat) -> Seq<char> {
    if q.len() + 1 < n {
        q.push(item)
    } else {
        q
    }
}

/// What a pop of the queue `q` returns.
pub open spec fn ring_front(q: Seq<char>) -> Option<char> {
    if q.len() == 0 {
        None
    } else {
        Some(q[0])
    }
}

/// The queue left after a pop of `q`.
pub open spec fn ring_after_pop(q: Seq<char>) -> Seq<char> {
    if q.len() == 0 {
        q
    } else {
        q.drop_first()
    }
}

/// Index `x` reduced once into a ring of `n` slots.
spec fn wrap(x: int, n: int) -> int {
    if x < n {
        x
    } else {
        x - n
    }
}

proof fn lemma_mod_wrap(x: int, n: int)
    requires
        n > 0,
        0 <= x < 2 * n,
    ensures
        x % n == wrap(x, n),
{
    if x < n {
        vstd::arithmetic::div_mod::lemma_small_mod(x as nat, n as nat);
    } else {
        vstd::arithmetic::div_mod::lemma_small_mod((x - n) as nat, n as nat);
        vstd::arithmetic::div_mod::lemma_mod_sub_multiples_vanish(x, n);
    }
}

impl<const N: usize> RingBuffer<N> {
    /// The buffer has its `N` slots and both cursors point into them.
    pub closed spec fn wf(self) -> bool {
        &&& self.buffer.len() == N
        &&& N > 0 ==> self.head < N && self.tail < N
        &&& N == 0 ==> self.head == 0 && self.tail == 0
    }

    spec fn count(self) -> nat {
        if self.head >= self.tail {
            (self.head - self.tail) as nat
        } else {
            (self.head + N - self.tail) as nat
        }
    }

    /// The queued characters, oldest first.
    pub closed spec fn contents(self) -> Seq<char> {
        Seq::new(self.count(), |i: int| self.buffer@[wrap(self.tail + i, N as int)])
    }

    /// An empty ring buffer.
    pub fn new() -> (r: Self)
        ensures
            r.wf(),
            r@ == Seq::<char>::empty(),
    {
        let mut buffer: Vec<char> = Vec::new();
        let mut i: usize = 0;
        while i < N
            invariant
                i <= N,
                buffer.len() == i,
            decreases N - i,
        {
            buffer.push('\0');
            i = i + 1;
        }
        RingBuffer { buffer, head: 0, tail: 0 }
    }

    /// Appends `item` unless the buffer is full; a full buffer drops it.
    pub fn push(&mut self, item: char)
        requires
            N > 0,
            old(self).wf(),
        ensures
            final(self).wf(),
            final(self)@ == ring_after_push(old(self)@, item, N as nat),
            final(self)@.len() < N,
    {
        proof {
            lemma_mod_wrap(self.head + 1, N as int);
        }
        let next = (self.head + 1) % N;
        if next != self.tail {
            let ghost q = self@;
            self.buffer.set(self.head, item);
            self.head = next;
            proof {
                assert(q.len() + 1 < N);
                assert(self@ =~= q.push(item));
            }
        } else {
            proof {
                assert(!(self@.len() + 1 < N));
            }
        }
    }

    /// Removes and returns the oldest character, or `None` when empty.
    pub fn pop(&mut self) -> (r: Option<char>)
        requires
            old(self).wf(),
        ensures
            final(self).wf(),
            r == ring_front(old(self)@),
            final(self)@ == ring_after_pop(old(self)@),
            N > 0 ==> final(self)@.len() < N,
    {
        if self.head == self.tail {
            None
        } else {
            let ghost q = self@;
            proof {
                lemma_mod_wrap(self.tail + 1, N as int);
                assert(q[0] == self.buffer@[self.tail as int]);
            }
            let item = self.buffer[self.tail];
            self.tail = (self.tail + 1) % N;
            proof {
                assert(self@ =~= q.drop_first());
            }
            Some(item)
        }
    }
}

impl<const N: usize> View for RingBuffer<N> {
    type V = Seq<char>;

    closed spec fn view(&self) -> Seq<char> {
        self.contents()
    }
}

/// FIFO order: on a ring with room for two more, offering `x` to a queue
/// and then popping gives what popping first and offering `x` after gives,
/// except that an empty queue hands `x` straight back.
pub proof fn law_push_pop_commute(q: Seq<char>, x: char, n: nat)
    requires
        q.len() + 1 < n,
    ensures
        q.len() == 0 ==> ring_front(ring_after_push(q, x, n)) == Some(x)
            && ring_after_pop(ring_after_push(q, x, n)) == q,
        q.len() > 0 ==> ring_front(ring_after_push(q, x, n)) == ring_front(q)
            && ring_after_pop(ring_after_push(q, x, n)) == ring_after_push(ring_after_pop(q), x, n),
{
    if q.len() == 0 {
        assert(q.push(x).drop_first() =~= q);
    } else {
        assert(q.push(x).drop_first() =~= q.drop_first().push(x));
    }
}

/// The character that a PS/2 set-1 make code stands for, if any.
pub open spec fn scancode_char(scancode: u8) -> Option<char> {
    match scancode {
        0x02u8 => Some('1'),
        0x03u8 => Some('2'),
        0x04u8 => Some('3'),
        0x05u8 => Some('4'),
        0x06u8 => Some('5'),
        0x07u8 => Some('6'),
        0x08u8 => Some('7'),
        0x09u8 => Some('8'),
        0x0Au8 => Some('9'),
        0x0Bu8 => Some('0'),
        0x10u8 => Some('q'),
        0x11u8 => Some('w'),
        0x12u8 => Some('e'),
        0x13u8 => Some('r'),
        0x14u8 => Some('t'),
        0x15u8 => Some('y'),
        0x16u8 => Some('u'),
        0x17u8 => Some('i'),
        0x18u8 => Some('o'),
        0x19u8 => Some('p'),
        0x1Eu8 => Some('a'),
        0x1Fu8 => Some('s'),
        0x20u8 => Some('d'),
        0x21u8 => Some('f'),
        0x22u8 => Some('g'),
        0x23u8 => Some('h'),
        0x24u8 => Some('j'),
        0x25u8 => Some('k'),
        0x26u8 => Some('l'),
        0x2Cu8 => Some('z'),
        0x2Du8 => Some('x'),
        0x2Eu8 => Some('c'),
        0x2Fu8 => Some('v'),
        0x30u8 => Some('b'),
        0x31u8 => Some('n'),
        0x32u8 => Some('m'),
        0x39u8 => Some(' '),
        0x1Cu8 => Some('\n'),
        0x0Eu8 => Some('\x08'),
        _ => None,
    }
}

/// Translates a set-1 scan code into a character (lower-case letters,
/// digits, space, enter and backspace); other codes give `None`.
pub fn scancode_to_char(scancode: u8) -> (r: Option<char>)
    ensures
        r == scancode_char(scancode),
{
    match scancode {
        0x02 => Some('1'),
        0x03 => Some('2'),
        0x04 => Some('3'),
        0x05 => Some('4'),
        0x06 => Some('5'),
        0x07 => Some('6'),
        0x08 => Some('7'),
        0x09 => Some('8'),
        0x0A => Some('9'),
        0x0B => Some('0'),
        0x10 => Some('q'),
        0x11 => Some('w'),
        0x12 => Some('e'),
        0x13 => Some('r'),
        0x14 => Some('t'),
        0x15 => Some('y'),
        0x16 => Some('u'),
        0x17 => Some('i'),
        0x18 => Some('o'),
        0x19 => Some('p'),
        0x1E => Some('a'),
        0x1F => Some('s'),
        0x20 => Some('d'),
        0x21 => Some('f'),
        0x22 => Some('g'),
        0x23 => Some('h'),
        0x24 => Some('j'),
        0x25 => Some('k'),
        0x26 => Some('l'),
        0x2C => Some('z'),
        0x2D => Some('x'),
        0x2E => Some('c'),
        0x2F => Some('v'),
        0x30 => Some('b'),
        0x31 => Some('n'),
        0x32 => Some('m'),
        0x39 => Some(' '),
        0x1C => Some('\n'),
        0x0E => Some('\x08'),
        _ => None,
    }
}

/// The keys of the US-QWERTY rows in the order their set-1 make codes run:
/// the digit row from 0x02, the top letter row from 0x10, the home row
/// from 0x1E and the bottom row from 0x2C.
pub open spec fn digit_row() -> Seq<char> {
    seq!['1', '2', '3', '4', '5', '6', '7', '8', '9', '0']
}

pub open spec fn top_row() -> Seq<char> {
    seq!['q', 'w', 'e', 'r', 't', 'y', 'u', 'i', 'o', 'p']
}

pub open spec fn home_row() -> Seq<char> {
    seq!['a', 's', 'd', 'f', 'g', 'h', 'j', 'k', 'l']
}

pub open spec fn bottom_row() -> Seq<char> {
    seq!['z', 'x', 'c', 'v', 'b', 'n', 'm']
}

/// Each make code of a key row types the character printed on that key of
/// a US-QWERTY keyboard: the `k`-th key of a row, counted from the left,
/// has the row's first code plus `k`. Space (0x39), enter (0x1C) and
/// backspace (0x0E) type `' '`, `'\n'` and `'\x08'`.
pub proof fn law_keys_follow_the_qwerty_rows(k: int)
    ensures
        0 <= k < 10 ==> scancode_char((0x02 + k) as u8) == Some(digit_row()[k]),
        0 <= k < 10 ==> scancode_char((0x10 + k) as u8) == Some(top_row()[k]),
        0 <= k < 9 ==> scancode_char((0x1E + k) as u8) == Some(home_row()[k]),
        0 <= k < 7 ==> scancode_char((0x2C + k) as u8) == Some(bottom_row()[k]),
        scancode_char(0x39) == Some(' '),
        scancode_char(0x1C) == Some('\n'),
        scancode_char(0x0E) == Some('\x08'),
{
    if 0 <= k < 10 {
        assert(0 <= k <= 9);
    }
}

/// The make code of the key that types `c`, where one does.
spec fn key_code(c: char) -> u8 {
    match c {
        '1' => 0x02,
        '2' => 0x03,
        '3' => 0x04,
        '4' => 0x05,
        '5' => 0x06,
        '6' => 0x07,
        '7' => 0x08,
        '8' => 0x09,
        '9' => 0x0A,
        '0' => 0x0B,
        'q' => 0x10,
        'w' => 0x11,
        'e' => 0x12,
        'r' => 0x13,
        't' => 0x14,
        'y' => 0x15,
        'u' => 0x16,
        'i' => 0x17,
        'o' => 0x18,
        'p' => 0x19,
        'a' => 0x1E,
        's' => 0x1F,
        'd' => 0x20,
        'f' => 0x21,
        'g' => 0x22,
        'h' => 0x23,
        'j' => 0x24,
        'k' => 0x25,
        'l' => 0x26,
        'z' => 0x2C,
        'x' => 0x2D,
        'c' => 0x2E,
        'v' => 0x2F,
        'b' => 0x30,
        'n' => 0x31,
        'm' => 0x32,
        ' ' => 0x39,
        '\n' => 0x1C,
        '\x08' => 0x0E,
        _ => 0,
    }
}

/// No two keys type the same character: a character tells which make code
/// was pressed.
pub proof fn law_keys_are_distinct(a: u8, b: u8)
    ensures
        scancode_char(a) is Some && scancode_char(a) == scancode_char(b) ==> a == b,
{
    if scancode_char(a) is Some && scancode_char(a) == scancode_char(b) {
        assert(key_code(scancode_char(a)->0) == a);
        assert(key_code(scancode_char(b)->0) == b);
    }
}

/// The keyboard interrupt's work once the scan code has been read from the
/// data port: a code with a character queues that character.
pub fn handle_scancode<const N: usize>(queue: &mut RingBuffer<N>, scancode: u8)
    requires
        N > 0,
        old(queue).wf(),
    ensures
        final(queue).wf(),
        final(queue)@ == match scancode_char(scancode) {
            Some(c) => ring_after_push(old(queue)@, c, N as nat),
            None => old(queue)@,
        },
{
    if let Some(ch) = scancode_to_char(scancode) {
        queue.push(ch);
    }
}

} // verus!
