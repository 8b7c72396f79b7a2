use rp1::config::{config_from_parts, BuildError};
use rp1::elf_check::{
    check_bootloader_compatible, check_elf_summary, has_feature, validate_config_features,
    ElfCheck, ElfCheckError, ElfSummary, PT_LOAD,
};

fn summary(entry: u64, names: &[&str], segments: Vec<(u32, u64, u64)>) -> ElfSummary {
    ElfSummary {
        entry,
        section_names: names.iter().map(|n| Some(n.to_string())).collect(),
        segments,
    }
}

/// A little-endian ELF32 ARM executable with one loadable segment and the
/// sections named in `note_name` and `.shstrtab`.
fn tiny_elf(entry: u32, paddr: u32, memsz: u32, note_name: &str) -> Vec<u8> {
    let mut strtab = vec![0u8];
    strtab.extend_from_slice(note_name.as_bytes());
    strtab.push(0);
    let shstrtab_name = strtab.len() as u32;
    strtab.extend_from_slice(b".shstrtab\0");
    let strtab_off = 52 + 32;
    let mut shoff = strtab_off + strtab.len();
    shoff += (4 - shoff % 4) % 4;
    let mut out = Vec::new();
    out.extend_from_slice(&[0x7f, b'E', b'L', b'F', 1, 1, 1, 0, 0, 0, 0, 0, 0, 0, 0, 0]);
    out.extend_from_slice(&2u16.to_le_bytes());
    out.extend_from_slice(&40u16.to_le_bytes());
    out.extend_from_slice(&1u32.to_le_bytes());
    out.extend_from_slice(&entry.to_le_bytes());
    out.extend_from_slice(&52u32.to_le_bytes());
    out.extend_from_slice(&(shoff as u32).to_le_bytes());
    out.extend_from_slice(&0x0500_0200u32.to_le_bytes());
    out.extend_from_slice(&52u16.to_le_bytes());
    out.extend_from_slice(&32u16.to_le_bytes());
    out.extend_from_slice(&1u16.to_le_bytes());
    out.extend_from_slice(&40u16.to_le_bytes());
    out.extend_from_slice(&3u16.to_le_bytes());
    out.extend_from_slice(&2u16.to_le_bytes());
    for word in [1u32, 0, paddr, paddr, 0, memsz, 5, 4] {
        out.extend_from_slice(&word.to_le_bytes());
    }
    out.extend_from_slice(&strtab);
    while out.len() < shoff {
        out.push(0);
    }
    let sections: [[u32; 10]; 3] = [
        [0; 10],
        [1, 7, 2, 0, strtab_off as u32, 0, 0, 0, 4, 0],
        [shstrtab_name, 3, 0, 0, strtab_off as u32, strtab.len() as u32, 0, 0, 1, 0],
    ];
    for section in sections {
        for word in section {
            out.extend_from_slice(&word.to_le_bytes());
        }
    }
    out
}

#[test]
fn accepted_summary_reports_entry_and_load_span() {
    let s = summary(
        0x2000_0101,
        &["", ".text", ".note.rp1"],
        vec![(PT_LOAD, 0x2000_0000, 0x100), (6, 0, 0xffff_ffff), (PT_LOAD, 0x2000_0200, 0x80)],
    );
    assert_eq!(
        check_elf_summary(&s),
        Ok(ElfCheck { entry: 0x2000_0101, load_start: 0x2000_0000, load_end: 0x2000_0280 })
    );
}

#[test]
fn each_refusal_has_its_error() {
    let load = vec![(PT_LOAD, 0x2000_0000, 0x100)];
    assert_eq!(check_elf_summary(&summary(0x2000_0000, &[".text"], load.clone())), Err(ElfCheckError::MissingNote));
    assert_eq!(
        check_elf_summary(&summary(0x1000, &[".note.rp1"], load.clone())),
        Err(ElfCheckError::EntryOutsideSram { entry: 0x1000 })
    );
    assert_eq!(
        check_elf_summary(&summary(0x2000_0000, &[".note.rp1"], vec![(PT_LOAD, u64::MAX, 2)])),
        Err(ElfCheckError::LoadAddressOverflow)
    );
    assert_eq!(
        check_elf_summary(&summary(0x2000_0000, &[".note.rp1"], vec![(PT_LOAD, 0x2000_ff00, 0x200)])),
        Err(ElfCheckError::LoadOutsideSram { start: 0x2000_ff00, end: 0x2001_0100 })
    );
    assert_eq!(
        check_elf_summary(&summary(0x2000_0000, &[".note.rp1"], vec![(6, 0, 0)])),
        Err(ElfCheckError::NoLoadSegments)
    );
    assert_eq!(
        check_elf_summary(&summary(0x2000_0000, &[".note.rp1"], vec![(PT_LOAD, 0x2000_0000, 0)])),
        Err(ElfCheckError::ImageLength { len: 0 })
    );
}

#[test]
fn bytes_that_are_not_elf_are_a_parse_error() {
    assert_eq!(check_bootloader_compatible(b"not an elf file"), Err(ElfCheckError::Parse));
    assert_eq!(check_bootloader_compatible(&[]), Err(ElfCheckError::Parse));
}

#[test]
fn parsed_image_is_checked_from_its_headers() {
    let good = tiny_elf(0x2000_0101, 0x2000_0000, 0x400, ".note.rp1");
    assert_eq!(
        check_bootloader_compatible(&good),
        Ok(ElfCheck { entry: 0x2000_0101, load_start: 0x2000_0000, load_end: 0x2000_0400 })
    );
    let unnamed = tiny_elf(0x2000_0101, 0x2000_0000, 0x400, ".note.xx1");
    assert_eq!(check_bootloader_compatible(&unnamed), Err(ElfCheckError::MissingNote));
    let outside = tiny_elf(0x2000_0101, 0x1000_0000, 0x400, ".note.rp1");
    assert_eq!(
        check_bootloader_compatible(&outside),
        Err(ElfCheckError::LoadOutsideSram { start: 0x1000_0000, end: 0x1000_0400 })
    );
}

#[test]
fn layout_feature_must_match_the_configuration() {
    let features = vec!["debug-mailbox-layout-v1".to_string(), "scmi-clock".to_string()];
    assert!(has_feature(&features, &"scmi-clock".to_string()));
    assert!(!has_feature(&features, &"debug-stub".to_string()));
    let with_layout = config_from_parts(&Vec::new(), true, true).unwrap();
    let without_layout = config_from_parts(&Vec::new(), true, false).unwrap();
    assert_eq!(validate_config_features(&with_layout, &features), Ok(()));
    assert_eq!(
        validate_config_features(&without_layout, &features),
        Err(BuildError::MailboxLayoutFeatureMismatch)
    );
    assert_eq!(validate_config_features(&without_layout, &Vec::new()), Ok(()));
}
