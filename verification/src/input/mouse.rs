use vstd::prelude::*;

verus! {

/// Rightmost x coordinate the pointer can reach.
pub const SCREEN_MAX_X: i32 = 1920;

/// Lowest y coordinate the pointer can reach.
pub const SCREEN_MAX_Y: i32 = 1080;

/// Status reads a wait makes before it gives up.
pub const WAIT_POLLS: u32 = 10000;

/// The PS/2 mouse: the packet being assembled and the pointer position.
pub struct Mouse {
    byte_count: u8,
    packet: [u8; 3],
    pub x: i32,
    pub y: i32,
}

/// A movement byte of a packet, read as a signed 8-bit number.
pub open spec fn signed_byte(b: u8) -> int {
    if b < 128 {
        b as int
    } else {
        b - 256
    }
}

/// `v` limited to `lo..=hi`.
pub open spec fn clamp(v: int, lo: int, hi: int) -> int {
    if v < lo {
        lo
    } else if v > hi {
        hi
    } else {
        v
    }
}

/// `v` held to the `i32` range, as a saturating operation leaves it.
pub open spec fn saturate_i32(v: int) -> int {
    clamp(v, i32::MIN as int, i32::MAX as int)
}

/// The pointer x after a packet that moves it by `dx`.
pub open spec fn moved_x(x: i32, dx: u8) -> int {
    clamp(saturate_i32(x + signed_byte(dx)), 0, SCREEN_MAX_X as int)
}

/// The pointer y after a packet that moves it by `dy` (the mouse counts
/// up, the screen down).
pub open spec fn moved_y(y: i32, dy: u8) -> int {
    clamp(saturate_i32(y - signed_byte(dy)), 0, SCREEN_MAX_Y as int)
}

fn clamp_i64(v: i64, lo: i64, hi: i64) -> (r: i64)
    requires
        lo <= hi,
    ensures
        r == clamp(v as int, lo as int, hi as int),
{
    if v < lo {
        lo
    } else if v > hi {
        hi
    } else {
        v
    }
}

fn signed(b: u8) -> (r: i64)
    ensures
        r == signed_byte(b),
{
    if b < 128 {
        b as i64
    } else {
        b as i64 - 256
    }
}

impl Mouse {
    /// The pointer's x coordinate (the field `x`).
    pub closed spec fn spec_x(&self) -> i32 {
        self.x
    }

    /// The pointer's y coordinate (the field `y`).
    pub closed spec fn spec_y(&self) -> i32 {
        self.y
    }

    /// The pointer's x coordinate.
    pub fn x(&self) -> (r: i32)
        ensures
            r == self.spec_x(),
    {
        self.x
    }

    /// The pointer's y coordinate.
    pub fn y(&self) -> (r: i32)
        ensures
            r == self.spec_y(),
    {
        self.y
    }

    /// Bytes of the current packet received so far.
    pub closed spec fn count(&self) -> u8 {
        self.byte_count
    }

    /// The bytes of the current packet.
    pub closed spec fn packet_bytes(&self) -> Seq<u8> {
        self.packet@
    }

    /// A packet is at most two bytes short.
    pub closed spec fn wf(&self) -> bool {
        self.byte_count < 3
    }

    /// A mouse at the top-left corner with no packet begun.
    pub fn new() -> (m: Self)
        ensures
            m.wf(),
            m.count() == 0,
            m.spec_x() == 0,
            m.spec_y() == 0,
            m.packet_bytes() == seq![0u8, 0u8, 0u8],
    {
        Mouse { byte_count: 0, packet: [0u8, 0u8, 0u8], x: 0, y: 0 }
    }

    /// Starts the PS/2 bring-up that enables this mouse's packets.
    pub fn init(&self) -> (m: MouseInit)
        ensures
            m.wf(),
            m.pc() == 0,
            m.polls() == 0,
            !m.asked(),
            m.config() == 0,
    {
        MouseInit::new()
    }

    /// Takes `data`, the byte the interrupt read from the data port. A
    /// packet must start with a byte that has bit 3 set (others are dropped
    /// to regain sync); the third byte completes it and moves the pointer
    /// by the signed second and third bytes, y inverted, saturating and
    /// then held to the screen.
    pub fn handle_interrupt(&mut self, data: u8)
        requires
            old(self).wf(),
        ensures
            final(self).wf(),
            if old(self).count() == 0 && data & 0x08 == 0 {
                *final(self) == *old(self)
            } else if old(self).count() < 2 {
                &&& final(self).count() == old(self).count() + 1
                &&& final(self).packet_bytes() == old(self).packet_bytes().update(
                    old(self).count() as int,
                    data,
                )
                &&& final(self).spec_x() == old(self).spec_x()
                &&& final(self).spec_y() == old(self).spec_y()
            } else {
                &&& final(self).count() == 0
                &&& final(self).packet_bytes() == old(self).packet_bytes().update(2, data)
                &&& final(self).spec_x() == moved_x(old(self).spec_x(), old(self).packet_bytes()[1])
                &&& final(self).spec_y() == moved_y(old(self).spec_y(), data)
            },
    {
        if self.byte_count == 0 && (data & 0x08) == 0 {
            return;
        }
        self.packet[self.byte_count as usize] = data;
        self.byte_count = self.byte_count + 1;
        if self.byte_count == 3 {
            self.byte_count = 0;
            let dx = signed(self.packet[1]);
            let dy = signed(self.packet[2]);
            let sx = clamp_i64(self.x as i64 + dx, i32::MIN as i64, i32::MAX as i64);
            let sy = clamp_i64(self.y as i64 - dy, i32::MIN as i64, i32::MAX as i64);
            self.x = clamp_i64(sx, 0, SCREEN_MAX_X as i64) as i32;
            self.y = clamp_i64(sy, 0, SCREEN_MAX_Y as i64) as i32;
        }
    }
}

/// The pointer stays on screen: once inside the screen, it is inside after
/// every byte.
pub proof fn law_pointer_stays_on_screen(x: i32, y: i32, dx: u8, dy: u8)
    requires
        0 <= x <= SCREEN_MAX_X,
        0 <= y <= SCREEN_MAX_Y,
    ensures
        0 <= moved_x(x, dx) <= SCREEN_MAX_X,
        0 <= moved_y(y, dy) <= SCREEN_MAX_Y,
{
}

/// A packet moves the pointer by its movement bytes read as two's-complement
/// `i8`s, x to the right and y up the screen (the mouse counts up, the
/// screen down), wherever that stays on screen; elsewhere the pointer stops
/// at the edge it ran into.
pub proof fn law_packet_moves_by_signed_bytes(x: i32, y: i32, dx: u8, dy: u8)
    requires
        0 <= x <= SCREEN_MAX_X,
        0 <= y <= SCREEN_MAX_Y,
    ensures
        0 <= x + (dx as i8) <= SCREEN_MAX_X ==> moved_x(x, dx) == x + (dx as i8),
        x + (dx as i8) < 0 ==> moved_x(x, dx) == 0,
        x + (dx as i8) > SCREEN_MAX_X ==> moved_x(x, dx) == SCREEN_MAX_X,
        0 <= y - (dy as i8) <= SCREEN_MAX_Y ==> moved_y(y, dy) == y - (dy as i8),
        y - (dy as i8) < 0 ==> moved_y(y, dy) == 0,
        y - (dy as i8) > SCREEN_MAX_Y ==> moved_y(y, dy) == SCREEN_MAX_Y,
{
    assert(signed_byte(dx) == (dx as i8) as int) by (bit_vector);
    assert(signed_byte(dy) == (dy as i8) as int) by (bit_vector);
}

/// One operation of the mouse bring-up program.
#[derive(Clone, Copy, Debug, PartialEq, Eq, Structural)]
pub enum Ps2Op {
    /// Poll the status port until the input buffer is empty (bit 1 clear).
    WaitWrite,
    /// Poll the status port until the output buffer is full (bit 0 set).
    WaitRead,
    /// Write a byte to the command port.
    Command(u8),
    /// Write the controller configuration byte, changed to enable IRQ12
    /// (bit 1 set) and the mouse clock (bit 5 clear), to the data port.
    WriteConfig,
    /// Write a byte to the data port.
    Data(u8),
    /// Read a byte from the data port.
    ReadData,
    /// The program is over.
    End,
}

/// The bring-up program: enable the auxiliary device (0xA8), read the
/// configuration byte (0x20), write it back changed (0x60), then send the
/// mouse "enable packets" command (0xD4, 0xF4) and read its acknowledgement.
pub open spec fn ps2_program(pc: nat) -> Ps2Op {
    if pc == 0 {
        Ps2Op::WaitWrite
    } else if pc == 1 {
        Ps2Op::Command(0xA8)
    } else if pc == 2 {
        Ps2Op::WaitWrite
    } else if pc == 3 {
        Ps2Op::Command(0x20)
    } else if pc == 4 {
        Ps2Op::WaitRead
    } else if pc == 5 {
        Ps2Op::ReadData
    } else if pc == 6 {
        Ps2Op::WaitWrite
    } else if pc == 7 {
        Ps2Op::Command(0x60)
    } else if pc == 8 {
        Ps2Op::WaitWrite
    } else if pc == 9 {
        Ps2Op::WriteConfig
    } else if pc == 10 {
        Ps2Op::WaitWrite
    } else if pc == 11 {
        Ps2Op::Command(0xD4)
    } else if pc == 12 {
        Ps2Op::WaitWrite
    } else if pc == 13 {
        Ps2Op::Data(0xF4)
    } else if pc == 14 {
        Ps2Op::WaitRead
    } else if pc == 15 {
        Ps2Op::ReadData
    } else {
        Ps2Op::End
    }
}

fn program(pc: u8) -> (op: Ps2Op)
    ensures
        op == ps2_program(pc as nat),
{
    match pc {
        0 => Ps2Op::WaitWrite,
        1 => Ps2Op::Command(0xA8),
        2 => Ps2Op::WaitWrite,
        3 => Ps2Op::Command(0x20),
        4 => Ps2Op::WaitRead,
        5 => Ps2Op::ReadData,
        6 => Ps2Op::WaitWrite,
        7 => Ps2Op::Command(0x60),
        8 => Ps2Op::WaitWrite,
        9 => Ps2Op::WriteConfig,
        10 => Ps2Op::WaitWrite,
        11 => Ps2Op::Command(0xD4),
        12 => Ps2Op::WaitWrite,
        13 => Ps2Op::Data(0xF4),
        14 => Ps2Op::WaitRead,
        15 => Ps2Op::ReadData,
        _ => Ps2Op::End,
    }
}

/// A port access the mouse bring-up asks for.
#[derive(Clone, Copy, Debug, PartialEq, Eq, Structural)]
pub enum Ps2Action {
    /// Read the status port (0x64) and hand the byte to the next step.
    ReadStatus,
    /// Read the data port (0x60) and hand the byte to the next step.
    ReadData,
    /// Write to the command port (0x64).
    WriteCommand(u8),
    /// Write to the data port (0x60).
    WriteData(u8),
    /// Bring-up is over.
    Done,
}

/// Whether status byte `status` ends a wait of kind `op`.
pub open spec fn wait_satisfied(op: Ps2Op, status: u8) -> bool {
    match op {
        Ps2Op::WaitWrite => status & 2u8 == 0,
        Ps2Op::WaitRead => status & 1u8 == 1,
        _ => true,
    }
}

/// The configuration byte with IRQ12 enabled and the mouse clock on.
pub open spec fn enabled_config(config: u8) -> u8 {
    (config | 2u8) & !0x20u8
}

/// The PS/2 mouse bring-up as a state machine: `pc` indexes the program,
/// `polls` counts the status reads of the current wait, `asked` says a read
/// awaits its answer, and `config` keeps the configuration byte read.
pub struct MouseInit {
    pc: u8,
    polls: u32,
    asked: bool,
    config: u8,
}

/// The state after the pending answer `value` has been taken in.
pub open spec fn after_answer(before: MouseInit, value: u8) -> (u8, u32, u8) {
    let op = ps2_program(before.pc() as nat);
    if !before.asked() {
        (before.pc(), before.polls(), before.config())
    } else if op == Ps2Op::ReadData {
        ((before.pc() + 1) as u8, 0, if before.pc() == 5 { value } else { before.config() })
    } else if wait_satisfied(op, value) || before.polls() >= WAIT_POLLS {
        ((before.pc() + 1) as u8, 0, before.config())
    } else {
        (before.pc(), before.polls(), before.config())
    }
}

/// One step of the bring-up: `value` answers the last read (if one was
/// asked for); the machine takes it in and asks for the next access of the
/// program.
pub open spec fn mouse_init_step(before: MouseInit, value: u8, after: MouseInit, act: Ps2Action) -> bool {
    let (pc, polls, config) = after_answer(before, value);
    &&& after.config() == config
    &&& match ps2_program(pc as nat) {
        Ps2Op::WaitWrite | Ps2Op::WaitRead => {
            &&& act == Ps2Action::ReadStatus
            &&& after.pc() == pc
            &&& after.polls() == polls + 1
            &&& after.asked()
        },
        Ps2Op::ReadData => {
            &&& act == Ps2Action::ReadData
            &&& after.pc() == pc
            &&& after.polls() == polls
            &&& after.asked()
        },
        Ps2Op::Command(c) => {
            &&& act == Ps2Action::WriteCommand(c)
            &&& after.pc() == pc + 1
            &&& after.polls() == 0
            &&& !after.asked()
        },
        Ps2Op::WriteConfig => {
            &&& act == Ps2Action::WriteData(enabled_config(config))
            &&& after.pc() == pc + 1
            &&& after.polls() == 0
            &&& !after.asked()
        },
        Ps2Op::Data(d) => {
            &&& act == Ps2Action::WriteData(d)
            &&& after.pc() == pc + 1
            &&& after.polls() == 0
            &&& !after.asked()
        },
        Ps2Op::End => {
            &&& act == Ps2Action::Done
            &&& after.pc() == pc
            &&& after.polls() == polls
            &&& !after.asked()
        },
    }
}

/// A wait polls the status port until the controller is ready: a wait for
/// the output buffer ends only once the status has bit 0 set, a wait for
/// the input buffer only once the status has bit 1 clear (either also after
/// `WAIT_POLLS` polls). Until then the machine stays at the same step and
/// asks for the status again.
pub proof fn law_waits_poll_until_ready(before: MouseInit, value: u8, after: MouseInit, act: Ps2Action)
    requires
        before.wf(),
        mouse_init_step(before, value, after, act),
        before.asked(),
        before.polls() < WAIT_POLLS,
    ensures
        ps2_program(before.pc() as nat) == Ps2Op::WaitRead ==> {
            &&& value & 1u8 == 0u8 ==> after.pc() == before.pc() && act == Ps2Action::ReadStatus
            &&& value & 1u8 == 1u8 ==> after.pc() == before.pc() + 1 && act == Ps2Action::ReadData
        },
        ps2_program(before.pc() as nat) == Ps2Op::WaitWrite ==> {
            &&& value & 2u8 != 0u8 ==> after.pc() == before.pc() && act == Ps2Action::ReadStatus
            &&& value & 2u8 == 0u8 ==> after.pc() > before.pc()
        },
{
}

/// A measure of the work left in the bring-up.
pub open spec fn init_work_left(m: MouseInit) -> int {
    (17 - m.pc()) * (2 * WAIT_POLLS + 4) - 2 * m.polls() - if m.asked() {
        1int
    } else {
        0int
    }
}

/// The bring-up ends: every step that does not report `Done` leaves less
/// work, and the work left is never negative.
pub proof fn law_mouse_init_terminates(before: MouseInit, value: u8, after: MouseInit, act: Ps2Action)
    requires
        before.wf(),
        after.wf(),
        mouse_init_step(before, value, after, act),
        act != Ps2Action::Done,
    ensures
        0 <= init_work_left(after) < init_work_left(before),
{
    assert(before.pc() <= 16 && after.pc() <= 16);
    assert(before.polls() <= WAIT_POLLS && after.polls() <= WAIT_POLLS);
}

impl MouseInit {
    pub closed spec fn pc(&self) -> u8 {
        self.pc
    }

    pub closed spec fn polls(&self) -> u32 {
        self.polls
    }

    pub closed spec fn asked(&self) -> bool {
        self.asked
    }

    pub closed spec fn config(&self) -> u8 {
        self.config
    }

    /// The program counter stays within the program and a wait never
    /// makes more than `WAIT_POLLS` reads.
    pub closed spec fn wf(&self) -> bool {
        &&& self.pc <= 16
        &&& self.polls <= WAIT_POLLS
        &&& self.asked ==> self.pc < 16
        &&& !self.asked ==> self.polls == 0
    }

    /// The bring-up at its first operation.
    pub fn new() -> (m: Self)
        ensures
            m.wf(),
            m.pc() == 0,
            m.polls() == 0,
            !m.asked(),
            m.config() == 0,
    {
        MouseInit { pc: 0, polls: 0, asked: false, config: 0 }
    }

    /// Whether the program has run to its end.
    pub fn is_done(&self) -> (r: bool)
        ensures
            r == (ps2_program(self.pc() as nat) == Ps2Op::End),
    {
        self.pc >= 16
    }

    /// Takes `value`, the answer to the read asked for last (ignored when
    /// none was), and returns the next port access.
    pub fn step(&mut self, value: u8) -> (act: Ps2Action)
        requires
            old(self).wf(),
        ensures
            final(self).wf(),
            mouse_init_step(*old(self), value, *final(self), act),
    {
        if self.asked {
            let op = program(self.pc);
            match op {
                Ps2Op::ReadData => {
                    if self.pc == 5 {
                        self.config = value;
                    }
                    self.pc = self.pc + 1;
                    self.polls = 0;
                },
                Ps2Op::WaitWrite => {
                    if value & 2 == 0 || self.polls >= WAIT_POLLS {
                        self.pc = self.pc + 1;
                        self.polls = 0;
                    }
                },
                Ps2Op::WaitRead => {
                    if value & 1 == 1 || self.polls >= WAIT_POLLS {
                        self.pc = self.pc + 1;
                        self.polls = 0;
                    }
                },
                _ => {
                    self.pc = self.pc + 1;
                    self.polls = 0;
                },
            }
            self.asked = false;
        }
        match program(self.pc) {
            Ps2Op::WaitWrite | Ps2Op::WaitRead => {
                self.polls = self.polls + 1;
                self.asked = true;
                Ps2Action::ReadStatus
            },
            Ps2Op::ReadData => {
                self.asked = true;
                Ps2Action::ReadData
            },
            Ps2Op::Command(c) => {
                self.pc = self.pc + 1;
                self.polls = 0;
                Ps2Action::WriteCommand(c)
            },
            Ps2Op::WriteConfig => {
                self.pc = self.pc + 1;
                self.polls = 0;
                Ps2Action::WriteData((self.config | 2) & !0x20)
            },
            Ps2Op::Data(d) => {
                self.pc = self.pc + 1;
                self.polls = 0;
                Ps2Action::WriteData(d)
            },
            Ps2Op::End => Ps2Action::Done,
        }
    }
}

} // verus!
