//! The `.note.rp1` boot note ABI and the owner bitmap device numbering.

use vstd::prelude::*;

verus! {

/// Note name `"RP1\0"`.
pub const RP1_NOTE_NAME: [u8; 4] = [0x52, 0x50, 0x31, 0x00];
pub const RP1_NOTE_TYPE_BOOT_V1: u32 = 0x5250_3101;
/// Note descriptor magic `"RP1NOTE\0"`.
pub const RP1_NOTE_MAGIC: [u8; 8] = [0x52, 0x50, 0x31, 0x4e, 0x4f, 0x54, 0x45, 0x00];
pub const RP1_NOTE_ABI_VERSION: u16 = 1;

pub const RP1_VERSION_NON_PIO: u32 = 0;
pub const RP1_VERSION_PIO: u32 = 1;

pub const RP1_MAILBOX_FLAG_ENABLE: u32 = 1;
pub const RP1_MAILBOX_FLAG_PRIVATE_LAYOUT_V1: u32 = 2;
pub const RP1_MAILBOX_FLAGS_SUPPORTED_MASK: u32 = 3;

/// Byte size of the version-1 boot info descriptor.
pub const BOOT_INFO_V1_SIZE: usize = 176;

pub const DEV_GPIO: u8 = 0;
pub const DEV_UART0: u8 = 1;
pub const DEV_UART1: u8 = 2;
pub const DEV_I2C0: u8 = 3;
pub const DEV_I2C1: u8 = 4;
pub const DEV_SPI0: u8 = 5;
pub const DEV_PIO0: u8 = 6;
pub const DEV_PIO1: u8 = 7;
pub const DEV_DMA: u8 = 8;
pub const DEV_TIMER: u8 = 9;

/// The owner bitmap bit of device number `device`.
pub fn bit(device: u8) -> (r: u64)
    requires
        device < 64,
    ensures
        r == 1u64 << device,
{
    1u64 << device
}

#[derive(Clone, Copy)]
pub struct Rp1NoteHeader {
    pub magic: [u8; 8],
    pub abi_version: u16,
    pub header_size: u16,
    pub flags: u32,
    pub desc_crc32: u32,
}

#[derive(Clone, Copy)]
pub struct Rp1BootInfoV1 {
    pub header: Rp1NoteHeader,
    pub entry: u32,
    pub stack_top: u32,
    pub vector_table: u32,
    pub load_base: u32,
    pub image_min_addr: u32,
    pub image_max_addr: u32,
    pub owner_rp1: u64,
    pub owner_linux: u64,
    pub owner_disabled: u64,
    pub mailbox_flags: u32,
    pub firmware_version_kind: u32,
    pub config_hash: [u8; 32],
    pub firmware_hash: [u8; 32],
    pub reserved: [u32; 8],
}

impl Rp1BootInfoV1 {
    pub const SIZE: usize = 176;

    /// Whether the header carries the version-1 magic, ABI version and size.
    pub fn has_supported_abi(&self) -> (r: bool)
        ensures
            r == (self.header.magic@ == RP1_NOTE_MAGIC@ && self.header.abi_version
                == RP1_NOTE_ABI_VERSION && self.header.header_size == BOOT_INFO_V1_SIZE),
    {
        let mut i: usize = 0;
        while i < 8
            invariant
                i <= 8,
                self.header.magic@.len() == 8,
                RP1_NOTE_MAGIC@.len() == 8,
                forall|j: int| 0 <= j < i ==> self.header.magic@[j] == RP1_NOTE_MAGIC@[j],
            decreases 8 - i,
        {
            if self.header.magic[i] != RP1_NOTE_MAGIC[i] {
                return false;
            }
            i += 1;
        }
        assert(self.header.magic@ =~= RP1_NOTE_MAGIC@);
        self.header.abi_version == RP1_NOTE_ABI_VERSION && self.header.header_size as usize
            == BOOT_INFO_V1_SIZE
    }
}

} // verus!
