use vstd::prelude::*;

verus! {

/// I/O port of the PCI configuration address register.
pub const CONFIG_ADDRESS: u16 = 0xCF8;

/// I/O port of the PCI configuration data register.
pub const CONFIG_DATA: u16 = 0xCFC;

/// Slots on a PCI bus.
pub const SLOTS: usize = 32;

/// Functions of a PCI slot.
pub const FUNCTIONS: usize = 8;

/// The value written to the configuration address register to reach the
/// 32-bit word at `offset` of `bus:slot.func` (enable bit set, offset
/// rounded down to a multiple of four).
pub open spec fn config_address_spec(bus: u8, slot: u8, func: u8, offset: u8) -> u32 {
    0x8000_0000u32 | ((bus as u32) << 16u32) | ((slot as u32) << 11u32) | ((func as u32) << 8u32)
        | ((offset as u32) & 0xFCu32)
}

/// Computes the configuration address of `bus:slot.func`, word `offset`.
pub fn config_address(bus: u8, slot: u8, func: u8, offset: u8) -> (r: u32)
    ensures
        r == config_address_spec(bus, slot, func, offset),
{
    0x8000_0000u32 | ((bus as u32) << 16) | ((slot as u32) << 11) | ((func as u32) << 8) | ((
    offset as u32) & 0xFC)
}

/// A function found on the bus.
#[derive(Clone, Copy, Debug, PartialEq, Eq, Structural)]
pub struct PciDevice {
    pub bus: u8,
    pub slot: u8,
    pub function: u8,
    pub vendor_id: u16,
    pub device_id: u16,
}

/// The function that the `k`-th word of a bus-0 scan describes, its
/// configuration word 0 being `word`.
pub open spec fn device_at(k: int, word: u32) -> PciDevice {
    PciDevice {
        bus: 0,
        slot: (k / FUNCTIONS as int) as u8,
        function: (k % FUNCTIONS as int) as u8,
        vendor_id: (word & 0xFFFFu32) as u16,
        device_id: (word >> 16u32) as u16,
    }
}

/// The functions present among the first `n` words of a scan: those whose
/// vendor id is not 0xFFFF, in scan order.
pub open spec fn present_devices(words: Seq<u32>, n: int) -> Seq<PciDevice>
    decreases n,
{
    if n <= 0 {
        Seq::empty()
    } else if (words[n - 1] & 0xFFFFu32) as u16 != 0xFFFFu16 {
        present_devices(words, n - 1).push(device_at(n - 1, words[n - 1]))
    } else {
        present_devices(words, n - 1)
    }
}

/// Lists the functions present on bus 0, given configuration word 0
/// (device id above vendor id) of each slot and function, read in the
/// order slot 0..32, function 0..8. A vendor id of 0xFFFF means that
/// nothing answers there.
pub fn scan_bus(vendor_device: &Vec<u32>) -> (found: Vec<PciDevice>)
    requires
        vendor_device.len() == SLOTS * FUNCTIONS,
    ensures
        found@ == present_devices(vendor_device@, (SLOTS * FUNCTIONS) as int),
{
    let mut found: Vec<PciDevice> = Vec::new();
    let mut slot: usize = 0;
    while slot < SLOTS
        invariant
            slot <= SLOTS,
            vendor_device.len() == SLOTS * FUNCTIONS,
            found@ == present_devices(vendor_device@, (slot * FUNCTIONS) as int),
        decreases SLOTS - slot,
    {
        let mut func: usize = 0;
        while func < FUNCTIONS
            invariant
                slot < SLOTS,
                func <= FUNCTIONS,
                vendor_device.len() == SLOTS * FUNCTIONS,
                found@ == present_devices(vendor_device@, (slot * FUNCTIONS + func) as int),
            decreases FUNCTIONS - func,
        {
            let k = slot * FUNCTIONS + func;
            let vendor_device_word = vendor_device[k];
            let vendor_id = (vendor_device_word & 0xFFFF) as u16;
            let device_id = (vendor_device_word >> 16) as u16;
            if vendor_id != 0xFFFF {
                found.push(
                    PciDevice {
                        bus: 0,
                        slot: slot as u8,
                        function: func as u8,
                        vendor_id,
                        device_id,
                    },
                );
            }
            proof {
                assert(k / 8 == slot && k % 8 == func);
            }
            func = func + 1;
        }
        slot = slot + 1;
    }
    found
}

} // verus!

verus! {

/// A scan lists only functions that answer: no listed vendor id is 0xFFFF.
pub proof fn law_scan_lists_present_functions(words: Seq<u32>, n: int)
    ensures
        forall|k: int|
            0 <= k < present_devices(words, n).len() ==> (#[trigger] present_devices(words, n)[k]).vendor_id
                != 0xFFFFu16,
    decreases n,
{
    if n > 0 {
        law_scan_lists_present_functions(words, n - 1);
        let before = present_devices(words, n - 1);
        if (words[n - 1] & 0xFFFFu32) as u16 != 0xFFFFu16 {
            let d = device_at(n - 1, words[n - 1]);
            assert(d.vendor_id == (words[n - 1] & 0xFFFFu32) as u16);
            assert forall|k: int| 0 <= k < before.push(d).len() implies (#[trigger] before.push(
                d,
            )[k]).vendor_id != 0xFFFFu16 by {
                if k < before.len() {
                    assert(before.push(d)[k] == before[k]);
                }
            }
        }
    }
}

/// The configuration address carries each part in its own bit field: the
/// enable bit 31, the bus in bits 16..24, the device in bits 11..16, the
/// function in bits 8..11 and the register offset, rounded down to a
/// multiple of four, in bits 0..8.
pub proof fn law_config_address_fields(bus: u8, slot: u8, func: u8, offset: u8)
    requires
        slot < 32,
        func < 8,
    ensures
        config_address_spec(bus, slot, func, offset) >> 31u32 == 1u32,
        (config_address_spec(bus, slot, func, offset) >> 16u32) & 0xFFu32 == bus as u32,
        (config_address_spec(bus, slot, func, offset) >> 11u32) & 0x1Fu32 == slot as u32,
        (config_address_spec(bus, slot, func, offset) >> 8u32) & 0x7u32 == func as u32,
        config_address_spec(bus, slot, func, offset) & 0xFFu32 == (offset as u32) & 0xFCu32,
{
    let a = config_address_spec(bus, slot, func, offset);
    let (b, s, f, o) = (bus as u32, slot as u32, func as u32, offset as u32);
    assert(a == 0x8000_0000u32 | (b << 16u32) | (s << 11u32) | (f << 8u32) | (o & 0xFCu32));
    assert({
        let a = 0x8000_0000u32 | (b << 16u32) | (s << 11u32) | (f << 8u32) | (o & 0xFCu32);
        &&& a >> 31u32 == 1u32
        &&& (a >> 16u32) & 0xFFu32 == b
        &&& (a >> 11u32) & 0x1Fu32 == s
        &&& (a >> 8u32) & 0x7u32 == f
        &&& a & 0xFFu32 == o & 0xFCu32
    }) by (bit_vector)
        requires
            b < 256,
            s < 32,
            f < 8,
            o < 256,
    ;
}

} // verus!
