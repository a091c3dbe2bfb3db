use vstd::prelude::*;

verus! {

/// A block device (NVMe, AHCI, ...).
pub trait StorageDriver {
    /// Reads the block at `lba` into `buffer`.
    fn read_block(&mut self, lba: u64, buffer: &mut [u8]) -> Result<(), &'static str>;

    /// Writes `buffer` to the block at `lba`.
    fn write_block(&mut self, lba: u64, buffer: &[u8]) -> Result<(), &'static str>;

    /// The capacity of the device in blocks.
    fn capacity_blocks(&self) -> u64;
}

/// Why bringing up an NVMe controller failed.
#[derive(Clone, Copy, Debug, PartialEq, Eq, Structural)]
pub enum NvmeError {
    NoControllerFound,
    InvalidBar0,
    UnsupportedCommandSet,
    Timeout,
}

/// An NVMe controller: where it sits on PCI bus 0, the base of its
/// memory-mapped registers, and whether it is ready for commands.
pub struct NvmeController {
    bus: u8,
    device: u8,
    function: u8,
    bar0: usize,
    ready: bool,
}

/// Blocks of 512 bytes in the 1 GiB drive that the controller reports.
pub const NVME_CAPACITY_BLOCKS: u64 = 2 * 1024 * 1024;

/// Polls of CSTS.RDY after which a wait for it to clear or to set counts as
/// timed out.
pub const READY_TIMEOUT_POLLS: u32 = 5_000_000;

/// Admin Queue Attributes: 64 submission and 64 completion entries.
pub const ADMIN_QUEUE_ATTRIBUTES: u32 = (63u32 << 16u32) | 63u32;

/// Register offsets in the controller's BAR0 window.
pub const REG_CAP_LOW: usize = 0x00;
pub const REG_CAP_HIGH: usize = 0x04;
pub const REG_CC: usize = 0x14;
pub const REG_CSTS: usize = 0x1C;
pub const REG_AQA: usize = 0x24;

/// One request that the controller bring-up makes of the hardware, or its
/// outcome.
pub enum NvmeAction {
    /// Read the 32-bit PCI configuration word at `offset` of
    /// `bus:device.function`; hand the value to the next step.
    ReadConfig { bus: u8, device: u8, function: u8, offset: u8 },
    /// Read the 32-bit register at `base + register`; hand the value over.
    ReadRegister { base: usize, register: usize },
    /// Write `value` to the 32-bit register at `base + register`.
    WriteRegister { base: usize, register: usize, value: u32 },
    /// Bring-up is over.
    Finished(Result<NvmeController, NvmeError>),
}

/// Where the bring-up stands; each stage names what the value handed to the
/// next step answers.
#[derive(Clone, Copy, PartialEq, Eq, Structural)]
pub enum InitStage {
    /// Nothing asked yet.
    Start,
    /// The configuration word at 0x00 of the probed function.
    Vendor,
    /// The word at 0x08, read for the class and subclass bytes.
    Class,
    /// The word at 0x08 again, read for the programming interface byte.
    ProgIf { class_subclass: u16 },
    /// The word at 0x10: low half of BAR0.
    Bar0Low,
    /// The word at 0x14: high half of BAR0.
    Bar0High { low: u32 },
    /// Register configuration starts from the controller found.
    Configure,
    /// CAP low half.
    CapLow,
    /// CAP high half.
    CapHigh,
    /// The CC register.
    ControllerConfig,
    /// The write of CC with EN cleared has been made.
    Disabled { cc: u32 },
    /// CSTS while waiting for RDY to clear, with the polls left.
    WaitNotReady { cc: u32, polls_left: u32 },
    /// The write of AQA has been made.
    QueuesSet { cc: u32 },
    /// The write of CC with EN set has been made.
    Enabled,
    /// CSTS while waiting for RDY to set, with the polls left.
    WaitReady { polls_left: u32 },
    /// Bring-up is over.
    Done,
}

/// The bring-up of an NVMe controller as a state machine: each `step` takes
/// the answer to the previous request and returns the next request, until
/// `Finished`.
pub struct NvmeInit {
    stage: InitStage,
    controller: NvmeController,
}

/// The 16-bit half of the configuration word `dword` that holds offset
/// `offset`.
pub open spec fn config_word(dword: u32, offset: u8) -> u16 {
    ((dword >> (((offset & 2u8) as u32) * 8u32)) & 0xFFFFu32) as u16
}

/// The 16-bit configuration value at `offset`, taken out of the 32-bit word
/// read at `offset & 0xFC`.
pub fn config_word_at(dword: u32, offset: u8) -> (r: u16)
    ensures
        r == config_word(dword, offset),
{
    assert(offset & 2u8 <= 2u8) by (bit_vector);
    ((dword >> (((offset & 2) as u32) * 8)) & 0xFFFF) as u16
}

/// The BAR0 base address from the two halves of the base address register,
/// with the four flag bits cleared.
pub open spec fn bar0_address(low: u32, high: u32) -> usize {
    (((high as u64) << 32u64) | ((low as u64) & !0xFu64)) as usize
}

/// Whether class/subclass word and programming-interface byte identify an
/// NVM Express controller (class 0x01, subclass 0x08, interface 0x02).
pub open spec fn is_nvme(class_subclass: u16, prog_if: u8) -> bool {
    (class_subclass >> 8u16) as u8 == 0x01u8 && (class_subclass & 0xFFu16) as u8 == 0x08u8 && prog_if
        == 0x02u8
}

/// The function probed after `device.function` on bus 0, if any.
pub open spec fn next_function(device: u8, function: u8) -> Option<(u8, u8)> {
    if function < 7 {
        Some((device, (function + 1) as u8))
    } else if device < 31 {
        Some(((device + 1) as u8, 0u8))
    } else {
        None
    }
}

/// Whether `c` is the not-yet-configured controller record at `0:d.f`.
pub open spec fn probing_at(c: NvmeController, d: u8, f: u8) -> bool {
    &&& c.spec_bus() == 0
    &&& c.spec_device() == d
    &&& c.spec_function() == f
    &&& c.spec_bar0() == 0
    &&& !c.is_ready()
}

/// `c2` is `c1` with only its readiness set to `ready`.
pub open spec fn same_place(c1: NvmeController, c2: NvmeController, ready: bool) -> bool {
    &&& c2.spec_bus() == c1.spec_bus()
    &&& c2.spec_device() == c1.spec_device()
    &&& c2.spec_function() == c1.spec_function()
    &&& c2.spec_bar0() == c1.spec_bar0()
    &&& c2.is_ready() == ready
}

/// The scan moves past the probed function `0:d.f`: to the next one, or it
/// ends with `NoControllerFound` after the last.
pub open spec fn moves_on(d: u8, f: u8, new: NvmeInit, act: NvmeAction) -> bool {
    match next_function(d, f) {
        Some((d2, f2)) => {
            &&& new.stage() == InitStage::Vendor
            &&& probing_at(new.controller(), d2, f2)
            &&& act == (NvmeAction::ReadConfig { bus: 0, device: d2, function: f2, offset: 0 })
        },
        None => {
            &&& new.stage() == InitStage::Done
            &&& act == NvmeAction::Finished(Err(NvmeError::NoControllerFound))
        },
    }
}

/// Register work on controller `c` goes on in `stage`.
pub open spec fn configuring(c: NvmeController, new: NvmeInit, stage: InitStage) -> bool {
    &&& new.stage() == stage
    &&& new.controller() == c
}

/// Bring-up ends with `e`.
pub open spec fn fails_with(new: NvmeInit, act: NvmeAction, e: NvmeError) -> bool {
    &&& new.stage() == InitStage::Done
    &&& act == NvmeAction::Finished(Err(e))
}

/// One step of the bring-up: from `before`, with `value` answering the last
/// request, the machine moves to `new` and makes request `act`.
pub open spec fn init_step(before: NvmeInit, value: u32, new: NvmeInit, act: NvmeAction) -> bool {
    let c = before.controller();
    let d = c.spec_device();
    let f = c.spec_function();
    match before.stage() {
        InitStage::Start => {
            &&& new.stage() == InitStage::Vendor
            &&& probing_at(new.controller(), 0, 0)
            &&& act == (NvmeAction::ReadConfig { bus: 0, device: 0, function: 0, offset: 0 })
        },
        InitStage::Vendor => if config_word(value, 0) == 0xFFFFu16 {
            moves_on(d, f, new, act)
        } else {
            &&& new.stage() == InitStage::Class
            &&& new.controller() == c
            &&& act == (NvmeAction::ReadConfig { bus: 0, device: d, function: f, offset: 0x08 })
        },
        InitStage::Class => {
            &&& new.stage() == (InitStage::ProgIf { class_subclass: config_word(value, 0x0A) })
            &&& new.controller() == c
            &&& act == (NvmeAction::ReadConfig { bus: 0, device: d, function: f, offset: 0x08 })
        },
        InitStage::ProgIf { class_subclass } => if is_nvme(
            class_subclass,
            (config_word(value, 0x08) >> 8u16) as u8,
        ) {
            &&& new.stage() == InitStage::Bar0Low
            &&& new.controller() == c
            &&& act == (NvmeAction::ReadConfig { bus: 0, device: d, function: f, offset: 0x10 })
        } else {
            moves_on(d, f, new, act)
        },
        InitStage::Bar0Low => {
            &&& new.stage() == (InitStage::Bar0High { low: value })
            &&& new.controller() == c
            &&& act == (NvmeAction::ReadConfig { bus: 0, device: d, function: f, offset: 0x14 })
        },
        InitStage::Bar0High { low } => {
            let found = new.controller();
            &&& found.spec_bus() == 0
            &&& found.spec_device() == d
            &&& found.spec_function() == f
            &&& found.spec_bar0() == bar0_address(low, value)
            &&& !found.is_ready()
            &&& if bar0_address(low, value) == 0 {
                fails_with(new, act, NvmeError::InvalidBar0)
            } else {
                configuring(found, new, InitStage::CapLow) && act == (NvmeAction::ReadRegister {
                    base: bar0_address(low, value),
                    register: REG_CAP_LOW,
                })
            }
        },
        InitStage::Configure => if c.spec_bar0() == 0 {
            fails_with(new, act, NvmeError::InvalidBar0)
        } else {
            configuring(c, new, InitStage::CapLow) && act == (NvmeAction::ReadRegister { base: c.spec_bar0(), register: REG_CAP_LOW })
        },
        InitStage::CapLow => configuring(c, new, InitStage::CapHigh) && act == (
        NvmeAction::ReadRegister { base: c.spec_bar0(), register: REG_CAP_HIGH }),
        InitStage::CapHigh => if value & 0x20u32 == 0 {
            fails_with(new, act, NvmeError::UnsupportedCommandSet)
        } else {
            configuring(c, new, InitStage::ControllerConfig) && act == (
            NvmeAction::ReadRegister { base: c.spec_bar0(), register: REG_CC })
        },
        InitStage::ControllerConfig => configuring(c, new, InitStage::Disabled { cc: value & !1u32 }) && act == (NvmeAction::WriteRegister {
            base: c.spec_bar0(),
            register: REG_CC,
            value: value & !1u32,
        }),
        InitStage::Disabled { cc } => configuring(
            c,
            new,
            InitStage::WaitNotReady { cc, polls_left: READY_TIMEOUT_POLLS },
        ) && act == (NvmeAction::ReadRegister { base: c.spec_bar0(), register: REG_CSTS }),
        InitStage::WaitNotReady { cc, polls_left } => if value & 1u32 != 0 {
            if polls_left <= 1 {
                fails_with(new, act, NvmeError::Timeout)
            } else {
                configuring(c, new, InitStage::WaitNotReady { cc, polls_left: (polls_left - 1) as u32 })
                    && act == (NvmeAction::ReadRegister { base: c.spec_bar0(), register: REG_CSTS })
            }
        } else {
            configuring(c, new, InitStage::QueuesSet { cc }) && act == (
            NvmeAction::WriteRegister {
                base: c.spec_bar0(),
                register: REG_AQA,
                value: ADMIN_QUEUE_ATTRIBUTES,
            })
        },
        InitStage::QueuesSet { cc } => configuring(c, new, InitStage::Enabled) && act == (
        NvmeAction::WriteRegister {
            base: c.spec_bar0(),
            register: REG_CC,
            value: (cc | 1u32) & !(7u32 << 4u32),
        }),
        InitStage::Enabled => configuring(c, new, InitStage::WaitReady { polls_left: READY_TIMEOUT_POLLS }) && act == (NvmeAction::ReadRegister { base: c.spec_bar0(), register: REG_CSTS }),
        InitStage::WaitReady { polls_left } => if value & 1u32 == 0 {
            if polls_left <= 1 {
                fails_with(new, act, NvmeError::Timeout)
            } else {
                configuring(c, new, InitStage::WaitReady { polls_left: (polls_left - 1) as u32 }) && act == (NvmeAction::ReadRegister { base: c.spec_bar0(), register: REG_CSTS })
            }
        } else {
            &&& new.stage() == InitStage::Done
            &&& act matches NvmeAction::Finished(Ok(ready)) && same_place(c, ready, true)
        },
        InitStage::Done => false,
    }
}

/// The class, subclass and programming-interface bytes of the PCI
/// configuration word at 0x08 (bytes 0x0B, 0x0A and 0x09), as the probe
/// takes them out of its 16-bit halves.
proof fn lemma_class_code_bytes(v: u32)
    ensures
        ((config_word(v, 0x0A) >> 8u16) as u8 == 0x01u8) == (v >> 24u32 == 0x01u32),
        ((config_word(v, 0x0A) & 0xFFu16) as u8 == 0x08u8) == ((v >> 16u32) & 0xFFu32 == 0x08u32),
        ((config_word(v, 0x08) >> 8u16) as u8 == 0x02u8) == ((v >> 8u32) & 0xFFu32 == 0x02u32),
{
    assert((0x0Au8 & 2u8) == 2u8) by (bit_vector);
    assert((0x08u8 & 2u8) == 0u8) by (bit_vector);
    let hi = ((v >> 16u32) & 0xFFFFu32) as u16;
    let lo = ((v >> 0u32) & 0xFFFFu32) as u16;
    assert(config_word(v, 0x0A) == hi);
    assert(config_word(v, 0x08) == lo);
    assert(((hi >> 8u16) as u8 == 0x01u8) == (v >> 24u32 == 0x01u32)) by (bit_vector)
        requires
            hi == ((v >> 16u32) & 0xFFFFu32) as u16,
    ;
    assert(((hi & 0xFFu16) as u8 == 0x08u8) == ((v >> 16u32) & 0xFFu32 == 0x08u32)) by (bit_vector)
        requires
            hi == ((v >> 16u32) & 0xFFFFu32) as u16,
    ;
    assert(((lo >> 8u16) as u8 == 0x02u8) == ((v >> 8u32) & 0xFFu32 == 0x02u32)) by (bit_vector)
        requires
            lo == ((v >> 0u32) & 0xFFFFu32) as u16,
    ;
}

/// Only an NVM Express controller is taken: after the probe reads the
/// class word (configuration offset 0x08) of a function twice, answered
/// `class_word` and then `prog_word`, it goes on to read that function's
/// BAR0 (offset 0x10) exactly when the base class byte is 0x01 (mass
/// storage), the subclass byte 0x08 (non-volatile memory) and the
/// programming interface byte 0x02 (NVM Express); any other function makes
/// it probe the next function on bus 0, or end with `NoControllerFound`
/// after the last.
pub proof fn law_only_nvm_express_is_taken(
    m0: NvmeInit,
    class_word: u32,
    m1: NvmeInit,
    a1: NvmeAction,
    prog_word: u32,
    m2: NvmeInit,
    a2: NvmeAction,
)
    requires
        m0.wf(),
        m0.stage() == InitStage::Class,
        init_step(m0, class_word, m1, a1),
        init_step(m1, prog_word, m2, a2),
    ensures
        ({
            let d = m0.controller().spec_device();
            let f = m0.controller().spec_function();
            let nvme = class_word >> 24u32 == 0x01u32 && (class_word >> 16u32) & 0xFFu32 == 0x08u32
                && (prog_word >> 8u32) & 0xFFu32 == 0x02u32;
            &&& nvme ==> a2 == (NvmeAction::ReadConfig { bus: 0, device: d, function: f, offset: 0x10 })
            &&& !nvme ==> {
                ||| a2 matches NvmeAction::ReadConfig { bus: 0, offset: 0, device, function }
                    && device * 8 + function == d * 8 + f + 1
                ||| (d == 31 && f == 7 && a2 == NvmeAction::Finished(Err(NvmeError::NoControllerFound)))
            }
        }),
{
    lemma_class_code_bytes(class_word);
    lemma_class_code_bytes(prog_word);
}

/// A measure of the work left in the bring-up: the functions still to probe
/// on bus 0, then the register stages, each wait counted by its polls left.
pub open spec fn bring_up_work_left(m: NvmeInit) -> int {
    let t = READY_TIMEOUT_POLLS as int;
    let config = 2 * t + 7;
    let per_function = config + 5;
    let probed = 255 - (m.controller().spec_device() * 8 + m.controller().spec_function());
    match m.stage() {
        InitStage::Start => 256 * per_function,
        InitStage::Vendor => probed * per_function + config + 4,
        InitStage::Class => probed * per_function + config + 3,
        InitStage::ProgIf { .. } => probed * per_function + config + 2,
        InitStage::Bar0Low => probed * per_function + config + 1,
        InitStage::Bar0High { .. } => probed * per_function + config,
        InitStage::Configure => config,
        InitStage::CapLow => 2 * t + 6,
        InitStage::CapHigh => 2 * t + 5,
        InitStage::ControllerConfig => 2 * t + 4,
        InitStage::Disabled { .. } => 2 * t + 3,
        InitStage::WaitNotReady { polls_left, .. } => t + 2 + polls_left,
        InitStage::QueuesSet { .. } => t + 2,
        InitStage::Enabled => t + 1,
        InitStage::WaitReady { polls_left } => polls_left as int,
        InitStage::Done => 0,
    }
}

/// The bring-up ends, whatever the hardware answers: every step leaves
/// less work, the work left is never negative, and none is left once it
/// is done. So neither wait on CSTS.RDY can hang; each ends in `Timeout`
/// after `READY_TIMEOUT_POLLS` polls at most.
pub proof fn law_bring_up_terminates(before: NvmeInit, value: u32, new: NvmeInit, act: NvmeAction)
    requires
        before.wf(),
        new.wf(),
        before.stage() != InitStage::Done,
        init_step(before, value, new, act),
    ensures
        0 <= bring_up_work_left(new) < bring_up_work_left(before),
        new.stage() == InitStage::Done ==> bring_up_work_left(new) == 0,
{
    let c = before.controller();
    let d = c.spec_device() as int;
    let f = c.spec_function() as int;
    let per_function = 2 * (READY_TIMEOUT_POLLS as int) + 12;
    assert(0 <= d < 32 && 0 <= f < 8);
    assert(0 <= 255 - (d * 8 + f));
    let goal = bring_up_work_left(new) < bring_up_work_left(before);
    match before.stage() {
        InitStage::Start => {
            let nd = new.controller().spec_device() as int;
            let nf = new.controller().spec_function() as int;
            assert((255 - (nd * 8 + nf)) * per_function + per_function == 256 * per_function)
                by (nonlinear_arith)
                requires
                    nd == 0,
                    nf == 0,
            ;
            assert(goal);
        },
        InitStage::Vendor => {
            if new.stage() == InitStage::Vendor {
                let nd = new.controller().spec_device() as int;
                let nf = new.controller().spec_function() as int;
                assert(nd * 8 + nf == d * 8 + f + 1);
                assert((255 - (nd * 8 + nf)) * per_function + per_function == (255 - (d * 8 + f))
                    * per_function) by (nonlinear_arith)
                    requires
                        nd * 8 + nf == d * 8 + f + 1,
                ;
                assert(goal);
            } else {
                assert(goal);
            }
        },
        InitStage::ProgIf { .. } => {
            if new.stage() == InitStage::Vendor {
                let nd = new.controller().spec_device() as int;
                let nf = new.controller().spec_function() as int;
                assert(nd * 8 + nf == d * 8 + f + 1);
                assert((255 - (nd * 8 + nf)) * per_function + per_function == (255 - (d * 8 + f))
                    * per_function) by (nonlinear_arith)
                    requires
                        nd * 8 + nf == d * 8 + f + 1,
                ;
                assert(goal);
            } else {
                assert(goal);
            }
        },
        InitStage::Class => {
            assert(goal);
        },
        InitStage::Bar0Low => {
            assert(goal);
        },
        InitStage::Bar0High { .. } => {
            assert(0 <= (255 - (d * 8 + f)) * per_function) by (nonlinear_arith)
                requires
                    0 <= 255 - (d * 8 + f),
                    0 <= per_function,
            ;
            assert(goal);
        },
        InitStage::WaitNotReady { cc, polls_left } => {
            assert(goal);
        },
        InitStage::WaitReady { polls_left } => {
            assert(goal);
        },
        _ => {
            assert(goal);
        },
    }
    assert(0 <= bring_up_work_left(new));
    assert(bring_up_work_left(new) < bring_up_work_left(before));
}

impl NvmeInit {
    /// The stage the bring-up stands at.
    pub closed spec fn stage(&self) -> InitStage {
        self.stage
    }

    /// The controller record being probed or configured.
    pub closed spec fn controller(&self) -> NvmeController {
        self.controller
    }

    /// A copy of the controller record as it stands (not ready until
    /// configuration succeeds).
    pub fn controller_record(&self) -> (c: NvmeController)
        ensures
            c == self.controller(),
    {
        self.copy_controller()
    }

    /// Whether bring-up is over.
    pub fn is_done(&self) -> (r: bool)
        ensures
            r == (self.stage() == InitStage::Done),
    {
        self.stage == InitStage::Done
    }

    fn probe_next(&mut self) -> (act: NvmeAction)
        requires
            old(self).controller().spec_device() < 32,
            old(self).controller().spec_function() < 8,
        ensures
            moves_on(
                old(self).controller().spec_device(),
                old(self).controller().spec_function(),
                *final(self),
                act,
            ),
            final(self).controller().spec_device() < 32,
            final(self).controller().spec_function() < 8,
    {
        let d = self.controller.device;
        let f = self.controller.function;
        if f < 7 {
            self.controller = NvmeController { bus: 0, device: d, function: f + 1, bar0: 0, ready: false };
            self.stage = InitStage::Vendor;
            NvmeAction::ReadConfig { bus: 0, device: d, function: f + 1, offset: 0 }
        } else if d < 31 {
            self.controller = NvmeController { bus: 0, device: d + 1, function: 0, bar0: 0, ready: false };
            self.stage = InitStage::Vendor;
            NvmeAction::ReadConfig { bus: 0, device: d + 1, function: 0, offset: 0 }
        } else {
            self.stage = InitStage::Done;
            NvmeAction::Finished(Err(NvmeError::NoControllerFound))
        }
    }

    fn copy_controller(&self) -> (c: NvmeController)
        ensures
            c == self.controller(),
    {
        proof {
            use_type_invariant(&self.controller);
        }
        NvmeController {
            bus: self.controller.bus,
            device: self.controller.device,
            function: self.controller.function,
            bar0: self.controller.bar0,
            ready: self.controller.ready,
        }
    }

    /// Takes `value`, the answer to the previous request (ignored after a
    /// write or at the start), and returns the next request.
    pub fn step(&mut self, value: u32) -> (act: NvmeAction)
        requires
            old(self).wf(),
            old(self).stage() != InitStage::Done,
        ensures
            final(self).wf(),
            init_step(*old(self), value, *final(self), act),
    {
        let base = self.controller.bar0;
        let d = self.controller.device;
        let f = self.controller.function;
        match self.stage {
            InitStage::Start => {
                self.controller = NvmeController { bus: 0, device: 0, function: 0, bar0: 0, ready: false };
                self.stage = InitStage::Vendor;
                NvmeAction::ReadConfig { bus: 0, device: 0, function: 0, offset: 0 }
            },
            InitStage::Vendor => {
                let vendor_id = config_word_at(value, 0x00);
                if vendor_id == 0xFFFF {
                    self.probe_next()
                } else {
                    self.stage = InitStage::Class;
                    NvmeAction::ReadConfig { bus: 0, device: d, function: f, offset: 0x08 }
                }
            },
            InitStage::Class => {
                let class_subclass = config_word_at(value, 0x0A);
                self.stage = InitStage::ProgIf { class_subclass };
                NvmeAction::ReadConfig { bus: 0, device: d, function: f, offset: 0x08 }
            },
            InitStage::ProgIf { class_subclass } => {
                let base_class = (class_subclass >> 8) as u8;
                let sub_class = (class_subclass & 0xFF) as u8;
                let prog_if = (config_word_at(value, 0x08) >> 8) as u8;
                if base_class == 0x01 && sub_class == 0x08 && prog_if == 0x02 {
                    self.stage = InitStage::Bar0Low;
                    NvmeAction::ReadConfig { bus: 0, device: d, function: f, offset: 0x10 }
                } else {
                    self.probe_next()
                }
            },
            InitStage::Bar0Low => {
                self.stage = InitStage::Bar0High { low: value };
                NvmeAction::ReadConfig { bus: 0, device: d, function: f, offset: 0x14 }
            },
            InitStage::Bar0High { low } => {
                let bar0 = (((value as u64) << 32) | ((low as u64) & !0xF)) as usize;
                self.controller = NvmeController { bus: 0, device: d, function: f, bar0, ready: false };
                if bar0 == 0 {
                    self.stage = InitStage::Done;
                    NvmeAction::Finished(Err(NvmeError::InvalidBar0))
                } else {
                    self.stage = InitStage::CapLow;
                    NvmeAction::ReadRegister { base: bar0, register: REG_CAP_LOW }
                }
            },
            InitStage::Configure => {
                if base == 0 {
                    self.stage = InitStage::Done;
                    NvmeAction::Finished(Err(NvmeError::InvalidBar0))
                } else {
                    self.stage = InitStage::CapLow;
                    NvmeAction::ReadRegister { base, register: REG_CAP_LOW }
                }
            },
            InitStage::CapLow => {
                self.stage = InitStage::CapHigh;
                NvmeAction::ReadRegister { base, register: REG_CAP_HIGH }
            },
            InitStage::CapHigh => {
                assert(1u32 << 5u32 == 0x20u32) by (bit_vector);
                if value & (1 << 5) == 0 {
                    self.stage = InitStage::Done;
                    NvmeAction::Finished(Err(NvmeError::UnsupportedCommandSet))
                } else {
                    self.stage = InitStage::ControllerConfig;
                    NvmeAction::ReadRegister { base, register: REG_CC }
                }
            },
            InitStage::ControllerConfig => {
                let cc = value & !1;
                self.stage = InitStage::Disabled { cc };
                NvmeAction::WriteRegister { base, register: REG_CC, value: cc }
            },
            InitStage::Disabled { cc } => {
                self.stage = InitStage::WaitNotReady { cc, polls_left: READY_TIMEOUT_POLLS };
                NvmeAction::ReadRegister { base, register: REG_CSTS }
            },
            InitStage::WaitNotReady { cc, polls_left } => {
                if value & 1 != 0 {
                    let left = polls_left - 1;
                    if left == 0 {
                        self.stage = InitStage::Done;
                        NvmeAction::Finished(Err(NvmeError::Timeout))
                    } else {
                        self.stage = InitStage::WaitNotReady { cc, polls_left: left };
                        NvmeAction::ReadRegister { base, register: REG_CSTS }
                    }
                } else {
                    self.stage = InitStage::QueuesSet { cc };
                    NvmeAction::WriteRegister { base, register: REG_AQA, value: (63 << 16) | 63 }
                }
            },
            InitStage::QueuesSet { cc } => {
                let enabled = (cc | 1) & !(7 << 4);
                self.stage = InitStage::Enabled;
                NvmeAction::WriteRegister { base, register: REG_CC, value: enabled }
            },
            InitStage::Enabled => {
                self.stage = InitStage::WaitReady { polls_left: READY_TIMEOUT_POLLS };
                NvmeAction::ReadRegister { base, register: REG_CSTS }
            },
            InitStage::WaitReady { polls_left } => {
                if value & 1 == 0 {
                    let left = polls_left - 1;
                    if left == 0 {
                        self.stage = InitStage::Done;
                        NvmeAction::Finished(Err(NvmeError::Timeout))
                    } else {
                        self.stage = InitStage::WaitReady { polls_left: left };
                        NvmeAction::ReadRegister { base, register: REG_CSTS }
                    }
                } else {
                    self.controller.ready = true;
                    self.stage = InitStage::Done;
                    NvmeAction::Finished(Ok(self.copy_controller()))
                }
            },
            InitStage::Done => NvmeAction::Finished(Err(NvmeError::NoControllerFound)),
        }
    }

    /// Probing stays on bus 0 within devices 0..32 and functions 0..8, and
    /// each wait on CSTS.RDY has between one and `READY_TIMEOUT_POLLS` polls
    /// left.
    pub closed spec fn wf(&self) -> bool {
        &&& self.controller.device < 32
        &&& self.controller.function < 8
        &&& self.stage matches InitStage::WaitReady { polls_left } ==> 1 <= polls_left
            <= READY_TIMEOUT_POLLS
        &&& self.stage matches InitStage::WaitNotReady { polls_left, .. } ==> 1 <= polls_left
            <= READY_TIMEOUT_POLLS
        &&& Self::configuring_stage(self.stage) ==> self.controller.bar0 != 0
    }

    /// Stages in which the controller's registers are being programmed.
    pub open spec fn configuring_stage(stage: InitStage) -> bool {
        match stage {
            InitStage::CapLow | InitStage::CapHigh | InitStage::ControllerConfig
            | InitStage::Disabled { .. } | InitStage::WaitNotReady { .. }
            | InitStage::QueuesSet { .. } | InitStage::Enabled | InitStage::WaitReady { .. } => true,
            _ => false,
        }
    }

    /// A controller that bring-up hands back is ready for commands and has
    /// a non-zero register base.
    pub proof fn law_finished_controller_is_ready(
        before: NvmeInit,
        value: u32,
        new: NvmeInit,
        c: NvmeController,
    )
        requires
            before.wf(),
            init_step(before, value, new, NvmeAction::Finished(Ok(c))),
        ensures
            c.is_ready(),
            c.spec_bar0() != 0,
    {
    }
}

impl NvmeController {
    /// Every controller record names a function on the probed range:
    /// device below 32, function below 8.
    #[verifier::type_invariant]
    spec fn on_probed_range(&self) -> bool {
        self.device < 32 && self.function < 8
    }

    pub closed spec fn spec_bus(&self) -> u8 {
        self.bus
    }

    pub closed spec fn spec_device(&self) -> u8 {
        self.device
    }

    pub closed spec fn spec_function(&self) -> u8 {
        self.function
    }

    pub closed spec fn spec_bar0(&self) -> usize {
        self.bar0
    }

    pub closed spec fn is_ready(&self) -> bool {
        self.ready
    }

    /// Starts bringing up the NVMe controller: scans PCI bus 0 (devices
    /// 0..32, functions 0..8, in that order) for the first function of
    /// class 0x01, subclass 0x08, interface 0x02, reads its BAR0 and
    /// configures its registers.
    pub fn init_controller() -> (m: NvmeInit)
        ensures
            m.wf(),
            m.stage() == InitStage::Start,
            m.controller().spec_bus() == 0,
            m.controller().spec_device() == 0,
            m.controller().spec_function() == 0,
            m.controller().spec_bar0() == 0,
            !m.controller().is_ready(),
    {
        NvmeInit {
            stage: InitStage::Start,
            controller: NvmeController { bus: 0, device: 0, function: 0, bar0: 0, ready: false },
        }
    }

    /// Starts configuring this controller's registers again (the work of
    /// `Driver::init`).
    pub fn configure(&self) -> (m: NvmeInit)
        ensures
            m.wf(),
            m.stage() == InitStage::Configure,
            m.controller() == *self,
    {
        proof {
            use_type_invariant(self);
        }
        NvmeInit {
            stage: InitStage::Configure,
            controller: NvmeController {
                bus: self.bus,
                device: self.device,
                function: self.function,
                bar0: self.bar0,
                ready: self.ready,
            },
        }
    }

    /// The driver's name.
    pub fn name(&self) -> (r: &'static str)
        ensures
            r@ == "NVMe Storage Driver"@,
    {
        "NVMe Storage Driver"
    }

    /// Acknowledging an interrupt changes nothing yet.
    pub fn handle_interrupt(&mut self)
        ensures
            *final(self) == *old(self),
    {
    }

    /// Whether the controller is ready for commands.
    pub fn ready(&self) -> (r: bool)
        ensures
            r == self.is_ready(),
    {
        self.ready
    }

    /// The base of the memory-mapped registers.
    pub fn bar0(&self) -> (r: usize)
        ensures
            r == self.spec_bar0(),
    {
        self.bar0
    }
}

impl StorageDriver for NvmeController {
    /// Fails with "Controller not ready", leaving the buffer alone, unless
    /// the controller is ready. Of a read from a ready controller only the
    /// success and the buffer's length are stated, not the bytes it leaves
    /// in the buffer: this driver does not yet submit the read command.
    fn read_block(&mut self, _lba: u64, _buffer: &mut [u8]) -> (r: Result<(), &'static str>)
        ensures
            *final(self) == *old(self),
            final(_buffer)@.len() == old(_buffer)@.len(),
            !old(self).is_ready() ==> final(_buffer)@ == old(_buffer)@,
            r.is_ok() == old(self).is_ready(),
            r matches Err(msg) ==> msg@ == "Controller not ready"@,
    {
        if !self.ready {
            return Err("Controller not ready");
        }
        Ok(())
    }

    /// Fails with "Controller not ready" unless the controller is ready. Of
    /// a write to a ready controller only the success is stated: this
    /// driver does not yet submit the write command.
    fn write_block(&mut self, _lba: u64, _buffer: &[u8]) -> (r: Result<(), &'static str>)
        ensures
            *final(self) == *old(self),
            r.is_ok() == old(self).is_ready(),
            r matches Err(msg) ==> msg@ == "Controller not ready"@,
    {
        if !self.ready {
            return Err("Controller not ready");
        }
        Ok(())
    }

    /// 2 Mi blocks of 512 bytes.
    fn capacity_blocks(&self) -> (r: u64)
        ensures
            r == NVME_CAPACITY_BLOCKS,
    {
        2 * 1024 * 1024
    }
}

} // verus!
