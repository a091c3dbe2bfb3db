use usya::driver::Driver;
use usya::pci::{config_address, scan_bus, PciDevice};
use usya::serial::{encode_str, send_bytes, transmitter_empty, SerialPort, COM1};
use usya::storage::{
    config_word_at, NvmeAction, NvmeController, NvmeError, NvmeInit, StorageDriver,
    ADMIN_QUEUE_ATTRIBUTES, NVME_CAPACITY_BLOCKS, READY_TIMEOUT_POLLS, REG_AQA, REG_CAP_HIGH,
    REG_CAP_LOW, REG_CC, REG_CSTS,
};

/// A simulated bus-0 configuration space and NVMe register file.
struct Machine {
    nvme_at: Option<(u8, u8)>,
    bar0_low: u32,
    bar0_high: u32,
    cap_high: u32,
    ready_after: u32,
    csts_reads: u32,
    stuck_ready: bool,
    disabled_reads: u32,
    enabled: bool,
    writes: Vec<(usize, u32)>,
}

impl Machine {
    fn answer(&mut self, act: &NvmeAction) -> u32 {
        match *act {
            NvmeAction::ReadConfig { device, function, offset, .. } => {
                let here = self.nvme_at == Some((device, function));
                match (here, offset) {
                    (false, 0x00) => 0xFFFF_FFFF,
                    (true, 0x00) => 0x0010_1B36,
                    (true, 0x08) => 0x0108_0200,
                    (true, 0x10) => self.bar0_low,
                    (true, 0x14) => self.bar0_high,
                    _ => 0,
                }
            }
            NvmeAction::ReadRegister { register, .. } => {
                if register == REG_CAP_HIGH {
                    self.cap_high
                } else if register == REG_CSTS {
                    if !self.enabled {
                        self.disabled_reads += 1;
                        if self.stuck_ready { 1 } else { 0 }
                    } else {
                        self.csts_reads += 1;
                        if self.csts_reads >= self.ready_after { 1 } else { 0 }
                    }
                } else if register == REG_CC {
                    0x0046_0001
                } else {
                    0
                }
            }
            NvmeAction::WriteRegister { register, value, .. } => {
                self.writes.push((register, value));
                if register == REG_CC && value & 1 == 1 {
                    self.enabled = true;
                }
                0
            }
            NvmeAction::Finished(_) => 0,
        }
    }
}

fn machine() -> Machine {
    Machine {
        nvme_at: Some((4, 0)),
        bar0_low: 0xFEBF_0004,
        bar0_high: 0,
        cap_high: 0x20,
        ready_after: 3,
        csts_reads: 0,
        stuck_ready: false,
        disabled_reads: 0,
        enabled: false,
        writes: Vec::new(),
    }
}

fn run(mut init: NvmeInit, m: &mut Machine) -> Result<NvmeController, NvmeError> {
    let mut value = 0;
    loop {
        let act = init.step(value);
        if let NvmeAction::Finished(r) = act {
            assert!(init.is_done());
            return r;
        }
        value = m.answer(&act);
    }
}

#[test]
fn nvme_controller_found_and_enabled() {
    let mut m = machine();
    let c = run(NvmeController::init_controller(), &mut m).ok().unwrap();
    assert!(c.ready());
    assert_eq!(c.bar0(), 0xFEBF_0000);
    assert_eq!(
        m.writes,
        vec![(REG_CC, 0x0046_0000), (REG_AQA, ADMIN_QUEUE_ATTRIBUTES), (REG_CC, 0x0046_0001)]
    );
    assert_eq!(ADMIN_QUEUE_ATTRIBUTES, 0x003F_003F);
}

#[test]
fn nvme_high_bar_half_is_used() {
    let mut m = machine();
    m.bar0_high = 0x1;
    let c = run(NvmeController::init_controller(), &mut m).ok().unwrap();
    assert_eq!(c.bar0(), 0x1_FEBF_0000);
}

#[test]
fn nvme_absent_gives_no_controller_found() {
    let mut m = machine();
    m.nvme_at = None;
    assert_eq!(run(NvmeController::init_controller(), &mut m).err(), Some(NvmeError::NoControllerFound));
}

#[test]
fn nvme_zero_bar_is_invalid() {
    let mut m = machine();
    m.bar0_low = 0x0000_000C;
    assert_eq!(run(NvmeController::init_controller(), &mut m).err(), Some(NvmeError::InvalidBar0));
}

#[test]
fn nvme_without_nvm_command_set_is_unsupported() {
    let mut m = machine();
    m.cap_high = 0x10;
    assert_eq!(
        run(NvmeController::init_controller(), &mut m).err(),
        Some(NvmeError::UnsupportedCommandSet)
    );
}

#[test]
fn nvme_that_never_gets_ready_times_out() {
    let mut m = machine();
    m.ready_after = u32::MAX;
    assert_eq!(run(NvmeController::init_controller(), &mut m).err(), Some(NvmeError::Timeout));
    assert_eq!(m.csts_reads, READY_TIMEOUT_POLLS);
}

#[test]
fn nvme_that_never_clears_ready_times_out() {
    let mut m = machine();
    m.stuck_ready = true;
    assert_eq!(run(NvmeController::init_controller(), &mut m).err(), Some(NvmeError::Timeout));
    assert_eq!(m.disabled_reads, READY_TIMEOUT_POLLS);
    assert_eq!(m.writes, vec![(REG_CC, 0x0046_0000)]);
}

#[test]
fn nvme_probe_visits_functions_in_order() {
    let mut init = NvmeController::init_controller();
    let mut seen = Vec::new();
    let mut value = 0;
    loop {
        match init.step(value) {
            NvmeAction::ReadConfig { bus, device, function, offset } => {
                assert_eq!(bus, 0);
                assert_eq!(offset, 0);
                seen.push((device, function));
                value = 0xFFFF_FFFF;
            }
            NvmeAction::Finished(r) => {
                assert_eq!(r.err(), Some(NvmeError::NoControllerFound));
                break;
            }
            _ => panic!("no register access expected"),
        }
    }
    assert_eq!(seen.len(), 256);
    assert_eq!(seen[0], (0, 0));
    assert_eq!(seen[9], (1, 1));
    assert_eq!(seen[255], (31, 7));
}

#[test]
fn nvme_reconfigure_through_driver_path() {
    let mut m = machine();
    let c = run(NvmeController::init_controller(), &mut m).ok().unwrap();
    let mut m2 = machine();
    let again = run(c.configure(), &mut m2).ok().unwrap();
    assert!(again.ready());
    assert_eq!(again.bar0(), c.bar0());
}

#[test]
fn nvme_storage_needs_ready_controller() {
    let mut m = machine();
    let mut c = run(NvmeController::init_controller(), &mut m).ok().unwrap();
    let mut buf = [0u8; 512];
    assert_eq!(c.read_block(0, &mut buf), Ok(()));
    assert_eq!(c.write_block(7, &buf), Ok(()));
    assert_eq!(c.capacity_blocks(), NVME_CAPACITY_BLOCKS);
    assert_eq!(c.capacity_blocks(), 2 * 1024 * 1024);
    assert_eq!(c.name(), "NVMe Storage Driver");
    c.handle_interrupt();
    assert!(c.ready());
}

#[test]
fn nvme_storage_on_unready_controller_fails() {
    let mut m = machine();
    let mut init = NvmeController::init_controller();
    let mut value = 0;
    loop {
        let act = init.step(value);
        if let NvmeAction::ReadRegister { register, .. } = act {
            if register == REG_CAP_LOW {
                break;
            }
        }
        value = m.answer(&act);
    }
    let mut c = init.controller_record();
    assert!(!c.ready());
    assert_eq!(c.bar0(), 0xFEBF_0000);
    let mut buf = [0u8; 512];
    assert_eq!(c.read_block(0, &mut buf), Err("Controller not ready"));
    assert_eq!(c.write_block(0, &buf), Err("Controller not ready"));
}

struct Pretend {
    inits: u32,
}

impl Driver for Pretend {
    fn init(&mut self) -> Result<(), &'static str> {
        self.inits += 1;
        Ok(())
    }
    fn name(&self) -> &'static str {
        "pretend"
    }
    fn handle_interrupt(&mut self) {}
}

#[test]
fn driver_trait_can_be_implemented() {
    let mut d = Pretend { inits: 0 };
    assert_eq!(d.init(), Ok(()));
    d.handle_interrupt();
    assert_eq!(d.name(), "pretend");
    assert_eq!(d.inits, 1);
}

#[test]
fn config_words_pick_the_right_half() {
    assert_eq!(config_word_at(0x1234_5678, 0x00), 0x5678);
    assert_eq!(config_word_at(0x1234_5678, 0x02), 0x1234);
    assert_eq!(config_word_at(0x0108_0200, 0x0A), 0x0108);
    assert_eq!(config_word_at(0x0108_0200, 0x08) >> 8, 0x02);
}

#[test]
fn pci_config_address_layout() {
    assert_eq!(config_address(0, 0, 0, 0), 0x8000_0000);
    assert_eq!(config_address(1, 2, 3, 0x10), 0x8001_1310);
    assert_eq!(config_address(0, 31, 7, 0x0B), 0x8000_FF08);
}

#[test]
fn pci_scan_lists_present_functions() {
    let mut words = vec![0xFFFF_FFFFu32; 256];
    words[0] = 0x1237_8086;
    words[3 * 8 + 1] = 0x100E_8086;
    words[31 * 8 + 7] = 0xABCD_FFFF;
    let found = scan_bus(&words);
    assert_eq!(
        found,
        vec![
            PciDevice { bus: 0, slot: 0, function: 0, vendor_id: 0x8086, device_id: 0x1237 },
            PciDevice { bus: 0, slot: 3, function: 1, vendor_id: 0x8086, device_id: 0x100E },
        ]
    );
}

#[test]
fn serial_backspace_is_erased_on_screen() {
    assert_eq!(send_bytes(8), vec![8, b' ', 8]);
    assert_eq!(send_bytes(0x7F), vec![8, b' ', 8]);
    assert_eq!(send_bytes(b'a'), vec![b'a']);
}

#[test]
fn serial_string_is_sent_byte_by_byte() {
    assert_eq!(encode_str("hi\x7f!"), vec![b'h', b'i', 8, b' ', 8, b'!']);
    assert_eq!(encode_str(""), Vec::<u8>::new());
    let joined = encode_str("ab\x08cd");
    let mut parts = encode_str("ab\x08");
    parts.extend(encode_str("cd"));
    assert_eq!(joined, parts);
}

#[test]
fn serial_init_programs_the_uart() {
    let port = SerialPort::new(COM1);
    assert_eq!(
        port.init_sequence(),
        vec![
            (0x3F9, 0x00),
            (0x3FB, 0x80),
            (0x3F8, 0x03),
            (0x3F9, 0x00),
            (0x3FB, 0x03),
            (0x3FA, 0xC7),
            (0x3FC, 0x0B),
            (0x3F9, 0x01),
        ]
    );
    assert_eq!(port.data_port(), 0x3F8);
    assert_eq!(port.line_status_port(), 0x3FD);
}

#[test]
fn serial_transmitter_status_bit() {
    assert!(transmitter_empty(0x20));
    assert!(transmitter_empty(0x60));
    assert!(!transmitter_empty(0x01));
}
