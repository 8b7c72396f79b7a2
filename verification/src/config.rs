//! Build-time configuration: the owner bitmaps, the mailbox flags and the
//! `.note.rp1` boot note that the firmware image carries.

use vstd::prelude::*;
use crate::debug::le_bytes;
use crate::note::{
    BOOT_INFO_V1_SIZE, DEV_DMA, DEV_GPIO, DEV_I2C0, DEV_I2C1, DEV_PIO0, DEV_PIO1, DEV_SPI0,
    DEV_TIMER, DEV_UART0, DEV_UART1, RP1_MAILBOX_FLAGS_SUPPORTED_MASK, RP1_MAILBOX_FLAG_ENABLE,
    RP1_MAILBOX_FLAG_PRIVATE_LAYOUT_V1, RP1_NOTE_ABI_VERSION, RP1_NOTE_MAGIC, RP1_NOTE_NAME,
    RP1_NOTE_TYPE_BOOT_V1, RP1_VERSION_NON_PIO,
};

verus! {

/// Byte offset of the mailbox flags inside the encoded note.
pub const NOTE_MAILBOX_FLAGS_OFFSET: usize = 88;
/// Byte length of the encoded note: a 12-byte header, the 4-byte name and
/// the descriptor.
pub const NOTE_LEN: usize = 192;

#[derive(Clone, Copy, Debug, Eq, PartialEq, Structural)]
pub struct Rp1BuildConfig {
    pub owner_rp1: u64,
    pub owner_linux: u64,
    pub owner_disabled: u64,
    pub mailbox_flags: u32,
    pub firmware_version_kind: u32,
}

#[derive(Clone, Copy, Debug, Eq, PartialEq, Structural)]
pub struct OwnerBitmap {
    pub owner_rp1: u64,
    pub owner_linux: u64,
    pub owner_disabled: u64,
}

/// Why a build configuration was refused.
#[derive(Debug, Eq, PartialEq)]
pub enum BuildError {
    /// `[owner]` names a device that does not exist.
    UnknownOwnerKey(String),
    /// The same device is assigned twice.
    DuplicateOwnerAssignment(String),
    /// The owner is none of `rp1`, `linux`, `disabled`.
    InvalidOwner { owner: String, key: String },
    /// `[firmware] mailbox_layout_v1` disagrees with the build feature.
    MailboxLayoutFeatureMismatch,
}

/// The device number that an `[owner]` key names.
pub open spec fn owner_key_device(key: Seq<char>) -> Option<u8> {
    if key == "gpio"@ {
        Some(DEV_GPIO)
    } else if key == "uart0"@ {
        Some(DEV_UART0)
    } else if key == "uart1"@ {
        Some(DEV_UART1)
    } else if key == "i2c0"@ {
        Some(DEV_I2C0)
    } else if key == "i2c1"@ {
        Some(DEV_I2C1)
    } else if key == "spi0"@ {
        Some(DEV_SPI0)
    } else if key == "pio0"@ {
        Some(DEV_PIO0)
    } else if key == "pio1"@ {
        Some(DEV_PIO1)
    } else if key == "dma"@ {
        Some(DEV_DMA)
    } else if key == "timer"@ {
        Some(DEV_TIMER)
    } else {
        None
    }
}

/// Owner kinds: 0 for `rp1`, 1 for `linux`, 2 for `disabled`.
pub open spec fn owner_kind(owner: Seq<char>) -> Option<int> {
    if owner == "rp1"@ {
        Some(0)
    } else if owner == "linux"@ {
        Some(1)
    } else if owner == "disabled"@ {
        Some(2)
    } else {
        None
    }
}

pub open spec fn assigned(b: OwnerBitmap) -> u64 {
    b.owner_rp1 | b.owner_linux | b.owner_disabled
}

/// `b` with the device bit `mask` added to the owner of kind `kind`.
pub open spec fn with_owner(b: OwnerBitmap, kind: int, mask: u64) -> OwnerBitmap {
    if kind == 0 {
        OwnerBitmap { owner_rp1: b.owner_rp1 | mask, ..b }
    } else if kind == 1 {
        OwnerBitmap { owner_linux: b.owner_linux | mask, ..b }
    } else {
        OwnerBitmap { owner_disabled: b.owner_disabled | mask, ..b }
    }
}

/// The outcome of assigning the entries of `owner` in order, starting from
/// `b`: the first entry with an unknown key, an already assigned device or an
/// invalid owner decides the error.
pub open spec fn assign_owners(b: OwnerBitmap, owner: Seq<(String, String)>) -> Result<
    OwnerBitmap,
    BuildError,
>
    decreases owner.len(),
{
    if owner.len() == 0 {
        Ok(b)
    } else {
        let (key, value) = owner[0];
        match owner_key_device(key@) {
            None => Err(BuildError::UnknownOwnerKey(key)),
            Some(device) => {
                let mask = (1u64 << device) as u64;
                if assigned(b) & mask != 0 {
                    Err(BuildError::DuplicateOwnerAssignment(key))
                } else {
                    match owner_kind(value@) {
                        None => Err(BuildError::InvalidOwner { owner: value, key }),
                        Some(kind) => assign_owners(with_owner(b, kind, mask), owner.drop_first()),
                    }
                }
            },
        }
    }
}

pub open spec fn empty_bitmap() -> OwnerBitmap {
    OwnerBitmap { owner_rp1: 0, owner_linux: 0, owner_disabled: 0 }
}

/// The device number of an `[owner]` key.
fn owner_key_bit(key: &String) -> (r: Result<u8, BuildError>)
    ensures
        r == (match owner_key_device(key@) {
            Some(d) => Ok(d),
            None => Err(BuildError::UnknownOwnerKey(*key)),
        }),
{
    if *key == "gpio".to_owned() {
        Ok(DEV_GPIO)
    } else if *key == "uart0".to_owned() {
        Ok(DEV_UART0)
    } else if *key == "uart1".to_owned() {
        Ok(DEV_UART1)
    } else if *key == "i2c0".to_owned() {
        Ok(DEV_I2C0)
    } else if *key == "i2c1".to_owned() {
        Ok(DEV_I2C1)
    } else if *key == "spi0".to_owned() {
        Ok(DEV_SPI0)
    } else if *key == "pio0".to_owned() {
        Ok(DEV_PIO0)
    } else if *key == "pio1".to_owned() {
        Ok(DEV_PIO1)
    } else if *key == "dma".to_owned() {
        Ok(DEV_DMA)
    } else if *key == "timer".to_owned() {
        Ok(DEV_TIMER)
    } else {
        Err(BuildError::UnknownOwnerKey(key.clone()))
    }
}

fn owner_kind_of(value: &String) -> (r: Option<u8>)
    ensures
        match owner_kind(value@) {
            Some(k) => r == Some(k as u8),
            None => r is None,
        },
{
    if *value == "rp1".to_owned() {
        Some(0)
    } else if *value == "linux".to_owned() {
        Some(1)
    } else if *value == "disabled".to_owned() {
        Some(2)
    } else {
        None
    }
}

/// Assigns each `[owner]` entry, in order, to the bitmap of its owner.
///
/// Fails on the first entry whose key names no device, whose device is
/// already assigned, or whose owner is not `rp1`, `linux` or `disabled`.
pub fn owner_bitmap(owner: &Vec<(String, String)>) -> (r: Result<OwnerBitmap, BuildError>)
    ensures
        r == assign_owners(empty_bitmap(), owner@),
{
    let mut bitmap = OwnerBitmap { owner_rp1: 0, owner_linux: 0, owner_disabled: 0 };
    let mut i: usize = 0;
    assert(owner@.skip(0) =~= owner@);
    while i < owner.len()
        invariant
            i <= owner@.len(),
            assign_owners(empty_bitmap(), owner@) == assign_owners(bitmap, owner@.skip(i as int)),
        decreases owner@.len() - i,
    {
        let ghost rest = owner@.skip(i as int);
        assert(rest[0] == owner@[i as int]);
        assert(rest.drop_first() =~= owner@.skip(i + 1));
        let key = &owner[i].0;
        let value = &owner[i].1;
        let device = match owner_key_bit(key) {
            Ok(d) => d,
            Err(e) => {
                return Err(e);
            },
        };
        let mask = 1u64 << device;
        if (bitmap.owner_rp1 | bitmap.owner_linux | bitmap.owner_disabled) & mask != 0 {
            return Err(BuildError::DuplicateOwnerAssignment(key.clone()));
        }
        match owner_kind_of(value) {
            Some(0) => {
                bitmap.owner_rp1 = bitmap.owner_rp1 | mask;
            },
            Some(1) => {
                bitmap.owner_linux = bitmap.owner_linux | mask;
            },
            Some(_) => {
                bitmap.owner_disabled = bitmap.owner_disabled | mask;
            },
            None => {
                return Err(BuildError::InvalidOwner { owner: value.clone(), key: key.clone() });
            },
        }
        i += 1;
    }
    assert(owner@.skip(i as int) =~= Seq::<(String, String)>::empty());
    Ok(bitmap)
}

/// The mailbox flags of a configuration: `ENABLE` when `[linux] mailbox` is
/// set, `PRIVATE_LAYOUT_V1` when `[firmware] mailbox_layout_v1` is set.
pub open spec fn mailbox_flags_of(linux_mailbox: bool, mailbox_layout_v1: bool) -> u32 {
    (if linux_mailbox { RP1_MAILBOX_FLAG_ENABLE } else { 0u32 }) | (if mailbox_layout_v1 {
        RP1_MAILBOX_FLAG_PRIVATE_LAYOUT_V1
    } else {
        0u32
    })
}

/// The configuration that a parsed `rp1.toml` describes: its `[owner]`
/// table, `[linux] mailbox` and `[firmware] mailbox_layout_v1` (absent
/// means `false`). The firmware version kind is always the non-PIO one.
pub fn config_from_parts(
    owner: &Vec<(String, String)>,
    linux_mailbox: bool,
    mailbox_layout_v1: bool,
) -> (r: Result<Rp1BuildConfig, BuildError>)
    ensures
        r == (match assign_owners(empty_bitmap(), owner@) {
            Ok(b) => Ok(
                Rp1BuildConfig {
                    owner_rp1: b.owner_rp1,
                    owner_linux: b.owner_linux,
                    owner_disabled: b.owner_disabled,
                    mailbox_flags: mailbox_flags_of(linux_mailbox, mailbox_layout_v1),
                    firmware_version_kind: RP1_VERSION_NON_PIO,
                },
            ),
            Err(e) => Err(e),
        }),
{
    let owners = match owner_bitmap(owner) {
        Ok(b) => b,
        Err(e) => {
            return Err(e);
        },
    };
    let enable: u32 = if linux_mailbox { RP1_MAILBOX_FLAG_ENABLE } else { 0 };
    let layout: u32 = if mailbox_layout_v1 { RP1_MAILBOX_FLAG_PRIVATE_LAYOUT_V1 } else { 0 };
    Ok(
        Rp1BuildConfig {
            owner_rp1: owners.owner_rp1,
            owner_linux: owners.owner_linux,
            owner_disabled: owners.owner_disabled,
            mailbox_flags: enable | layout,
            firmware_version_kind: RP1_VERSION_NON_PIO,
        },
    )
}

/// Whether the private layout flag of the configuration agrees with the
/// `debug-mailbox-layout-v1` build feature.
pub open spec fn layout_feature_agrees(config: Rp1BuildConfig, feature_enabled: bool) -> bool {
    (config.mailbox_flags & RP1_MAILBOX_FLAG_PRIVATE_LAYOUT_V1 != 0) == feature_enabled
}

pub open spec fn layout_feature_result(config: Rp1BuildConfig, feature_enabled: bool) -> Result<
    (),
    BuildError,
> {
    if layout_feature_agrees(config, feature_enabled) {
        Ok(())
    } else {
        Err(BuildError::MailboxLayoutFeatureMismatch)
    }
}

/// Refuses a configuration whose `mailbox_layout_v1` setting disagrees with
/// the build feature.
pub fn validate_mailbox_layout_v1_feature(config: &Rp1BuildConfig, feature_enabled: bool) -> (r:
    Result<(), BuildError>)
    ensures
        r == layout_feature_result(*config, feature_enabled),
{
    let config_enabled = config.mailbox_flags & RP1_MAILBOX_FLAG_PRIVATE_LAYOUT_V1 != 0;
    if config_enabled != feature_enabled {
        return Err(BuildError::MailboxLayoutFeatureMismatch);
    }
    Ok(())
}

/// The two little-endian bytes of a half-word.
pub open spec fn le_bytes16(v: u16) -> Seq<u8> {
    seq![(v & 0xff) as u8, ((v >> 8u16) & 0xff) as u8]
}

/// The eight little-endian bytes of a double word.
pub open spec fn le_bytes64(v: u64) -> Seq<u8> {
    le_bytes((v & 0xffff_ffff) as u32) + le_bytes((v >> 32u64) as u32)
}

pub open spec fn zero_bytes(n: nat) -> Seq<u8> {
    Seq::new(n, |i: int| 0u8)
}

/// The version-1 boot info descriptor of a configuration: magic, ABI
/// version, header size, zero flags and checksum, zero image fields, the
/// three owner bitmaps, the mailbox flags, the version kind and zero hashes.
pub open spec fn desc_bytes(c: Rp1BuildConfig) -> Seq<u8> {
    RP1_NOTE_MAGIC@ + le_bytes16(RP1_NOTE_ABI_VERSION) + le_bytes16(BOOT_INFO_V1_SIZE as u16)
        + le_bytes(0) + le_bytes(0) + zero_bytes(28) + le_bytes64(c.owner_rp1) + le_bytes64(
        c.owner_linux,
    ) + le_bytes64(c.owner_disabled) + le_bytes(c.mailbox_flags) + le_bytes(
        c.firmware_version_kind,
    ) + zero_bytes(96)
}

/// The ELF note: name size, descriptor size, note type, the name and the
/// descriptor (both already four-byte aligned).
pub open spec fn note_bytes(c: Rp1BuildConfig) -> Seq<u8> {
    le_bytes(4) + le_bytes(BOOT_INFO_V1_SIZE as u32) + le_bytes(RP1_NOTE_TYPE_BOOT_V1)
        + RP1_NOTE_NAME@ + desc_bytes(c)
}

fn write_u16(out: &mut Vec<u8>, value: u16)
    ensures
        final(out)@ == old(out)@ + le_bytes16(value),
{
    out.push((value & 0xff) as u8);
    out.push(((value >> 8u16) & 0xff) as u8);
    assert(out@ =~= old(out)@ + le_bytes16(value));
}

fn write_u32(out: &mut Vec<u8>, value: u32)
    ensures
        final(out)@ == old(out)@ + le_bytes(value),
{
    out.push((value & 0xff) as u8);
    out.push(((value >> 8u32) & 0xff) as u8);
    out.push(((value >> 16u32) & 0xff) as u8);
    out.push(((value >> 24u32) & 0xff) as u8);
    assert(out@ =~= old(out)@ + le_bytes(value));
}

fn write_u64(out: &mut Vec<u8>, value: u64)
    ensures
        final(out)@ == old(out)@ + le_bytes64(value),
{
    write_u32(out, (value & 0xffff_ffff) as u32);
    write_u32(out, (value >> 32u64) as u32);
    assert(out@ =~= old(out)@ + le_bytes64(value));
}

fn write_bytes(out: &mut Vec<u8>, bytes: &[u8])
    ensures
        final(out)@ == old(out)@ + bytes@,
{
    let mut i: usize = 0;
    while i < bytes.len()
        invariant
            i <= bytes@.len(),
            out@ == old(out)@ + bytes@.subrange(0, i as int),
        decreases bytes@.len() - i,
    {
        out.push(bytes[i]);
        i += 1;
        assert(out@ =~= old(out)@ + bytes@.subrange(0, i as int));
    }
    assert(bytes@.subrange(0, i as int) =~= bytes@);
}

fn write_zeros(out: &mut Vec<u8>, n: usize)
    ensures
        final(out)@ == old(out)@ + zero_bytes(n as nat),
{
    let mut i: usize = 0;
    while i < n
        invariant
            i <= n,
            out@ == old(out)@ + zero_bytes(i as nat),
        decreases n - i,
    {
        out.push(0);
        i += 1;
        assert(out@ =~= old(out)@ + zero_bytes(i as nat));
    }
}

/// Zero bytes up to the next multiple of four.
fn pad4(out: &mut Vec<u8>)
    ensures
        final(out)@ == old(out)@ + zero_bytes(((4 - old(out)@.len() % 4) % 4) as nat),
{
    let ghost start = out@;
    while out.len() % 4 != 0
        invariant
            start.len() <= out@.len() <= start.len() + 3,
            out@.len() % 4 == 0 ==> out@.len() == start.len() + (4 - start.len() % 4) % 4,
            out@.len() - start.len() <= (4 - start.len() % 4) % 4,
            out@ == start + zero_bytes((out@.len() - start.len()) as nat),
        decreases start.len() + 3 - out@.len(),
    {
        out.push(0);
        assert(out@ =~= start + zero_bytes((out@.len() - start.len()) as nat));
    }
}

/// The version-1 boot info descriptor of `config`.
pub fn encode_desc(config: &Rp1BuildConfig) -> (desc: Vec<u8>)
    ensures
        desc@ == desc_bytes(*config),
        desc@.len() == BOOT_INFO_V1_SIZE,
{
    let mut desc: Vec<u8> = Vec::new();
    write_bytes(&mut desc, &RP1_NOTE_MAGIC);
    write_u16(&mut desc, RP1_NOTE_ABI_VERSION);
    write_u16(&mut desc, 176);
    write_u32(&mut desc, 0);
    write_u32(&mut desc, 0);
    write_zeros(&mut desc, 28);
    write_u64(&mut desc, config.owner_rp1);
    write_u64(&mut desc, config.owner_linux);
    write_u64(&mut desc, config.owner_disabled);
    write_u32(&mut desc, config.mailbox_flags);
    write_u32(&mut desc, config.firmware_version_kind);
    write_zeros(&mut desc, 96);
    assert(desc@ =~= desc_bytes(*config));
    desc
}

/// The `.note.rp1` ELF note that carries the boot info of `config`.
pub fn encode_note(config: &Rp1BuildConfig) -> (note: Vec<u8>)
    ensures
        note@ == note_bytes(*config),
        note@.len() == NOTE_LEN,
{
    let desc = encode_desc(config);
    let mut note: Vec<u8> = Vec::new();
    write_u32(&mut note, 4);
    write_u32(&mut note, desc.len() as u32);
    write_u32(&mut note, RP1_NOTE_TYPE_BOOT_V1);
    write_bytes(&mut note, &RP1_NOTE_NAME);
    pad4(&mut note);
    assert(zero_bytes(0) =~= Seq::<u8>::empty());
    write_bytes(&mut note, desc.as_slice());
    pad4(&mut note);
    assert(note@ =~= note_bytes(*config));
    note
}

/// The mailbox flags word that a note carries at bytes 88..92.
pub open spec fn note_mailbox_flags(note: Seq<u8>) -> u32 {
    crate::debug::le_word(note[88], note[89], note[90], note[91])
}

/// Reads the mailbox flags back out of an encoded note.
pub fn encoded_mailbox_flags(note: &[u8]) -> (r: Option<u32>)
    ensures
        r == (if note@.len() >= 92 {
            Some(note_mailbox_flags(note@))
        } else {
            None
        }),
{
    crate::debug::snapshot_response_word(note, 22)
}

/// The mailbox flags written into the note are read back unchanged from
/// bytes 88..92.
pub proof fn lemma_note_carries_mailbox_flags(c: Rp1BuildConfig)
    ensures
        note_bytes(c).len() == NOTE_LEN,
        note_mailbox_flags(note_bytes(c)) == c.mailbox_flags,
{
    let n = note_bytes(c);
    let f = le_bytes(c.mailbox_flags);
    assert(n.len() == 192);
    assert(n[88] == f[0]);
    assert(n[89] == f[1]);
    assert(n[90] == f[2]);
    assert(n[91] == f[3]);
    crate::debug::lemma_le_word_of_bytes(c.mailbox_flags);
}

/// A parsed configuration never sets a mailbox flag outside the supported
/// mask, and sets exactly the flags that were asked for.
pub proof fn lemma_mailbox_flags_are_supported(linux_mailbox: bool, mailbox_layout_v1: bool)
    ensures
        mailbox_flags_of(linux_mailbox, mailbox_layout_v1) & !RP1_MAILBOX_FLAGS_SUPPORTED_MASK
            == 0,
        (mailbox_flags_of(linux_mailbox, mailbox_layout_v1) & RP1_MAILBOX_FLAG_ENABLE != 0)
            == linux_mailbox,
        (mailbox_flags_of(linux_mailbox, mailbox_layout_v1) & RP1_MAILBOX_FLAG_PRIVATE_LAYOUT_V1
            != 0) == mailbox_layout_v1,
{
    let a: u32 = if linux_mailbox { 1 } else { 0 };
    let b: u32 = if mailbox_layout_v1 { 2 } else { 0 };
    assert((a | b) & !3u32 == 0 && ((a | b) & 1 != 0) == (a == 1) && ((a | b) & 2 != 0) == (b
        == 2)) by (bit_vector)
        requires
            a == 0 || a == 1,
            b == 0 || b == 2,
    ;
}

} // verus!
