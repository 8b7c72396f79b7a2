//! Checks that a linked firmware ELF can be loaded by the RP1 boot loader:
//! it carries the `.note.rp1` section, its entry lies in SRAM and every
//! loadable segment fits in SRAM.

use vstd::prelude::*;
use crate::config::{validate_mailbox_layout_v1_feature, BuildError, Rp1BuildConfig};

verus! {

pub const RP1_SRAM_BASE: u64 = 0x2000_0000;
pub const RP1_SRAM_LIMIT: u64 = 0x2001_0000;
pub const RP1_MAX_IMAGE_LEN: u64 = 0x1_0000;
/// `PT_LOAD`.
pub const PT_LOAD: u32 = 1;

/// What the check reads of a parsed ELF: the entry point, the name of each
/// section header (`None` where the string table has no name at its
/// offset) and, per program header, its type, physical address and memory
/// size.
pub struct ElfSummary {
    pub entry: u64,
    pub section_names: Vec<Option<String>>,
    pub segments: Vec<(u32, u64, u64)>,
}

pub open spec fn name_view(n: Option<String>) -> Option<Seq<char>> {
    match n {
        Some(s) => Some(s@),
        None => None,
    }
}

impl ElfSummary {
    pub open spec fn names(&self) -> Seq<Option<Seq<char>>> {
        self.section_names@.map_values(|n: Option<String>| name_view(n))
    }
}

/// What `goblin::elf::Elf::parse` makes of the bytes of a file, as the
/// summary above: `None` where it fails.
pub uninterp spec fn parsed_elf(bytes: Seq<u8>) -> Option<(u64, Seq<Option<Seq<char>>>, Seq<(u32, u64, u64)>)>;

/// Parses `bytes` with `goblin::elf::Elf::parse` and lists the entry point,
/// the section names (`Strtab::get_at` of each `sh_name`) and the type,
/// physical address and memory size of each program header, in order.
/// A parse error becomes `None`; the library does not read goblin's error.
/// Trusted: the result is `parsed_elf` of the bytes, which depends on them
/// alone.
#[verifier::external_body]
fn parse_elf(bytes: &[u8]) -> (r: Option<ElfSummary>)
    ensures
        match r {
            Some(s) => parsed_elf(bytes@) == Some((s.entry, s.names(), s.segments@)),
            None => parsed_elf(bytes@) is None,
        },
{
    let elf = goblin::elf::Elf::parse(bytes).ok()?;
    let section_names = elf.section_headers.iter().map(
        |h| elf.shdr_strtab.get_at(h.sh_name).map(|n| n.to_string()),
    ).collect();
    let segments = elf.program_headers.iter().map(|ph| (ph.p_type, ph.p_paddr, ph.p_memsz)).collect();
    Some(ElfSummary { entry: elf.entry, section_names, segments })
}

/// The entry point and the span of the loadable segments of an accepted
/// image.
#[derive(Clone, Copy, Debug, PartialEq, Eq, Structural)]
pub struct ElfCheck {
    pub entry: u64,
    pub load_start: u64,
    pub load_end: u64,
}

#[derive(Clone, Copy, Debug, PartialEq, Eq, Structural)]
pub enum ElfCheckError {
    /// The bytes are not an ELF file that goblin can parse.
    Parse,
    /// No section is named `.note.rp1`.
    MissingNote,
    /// The entry point lies outside SRAM.
    EntryOutsideSram { entry: u64 },
    /// A loadable segment's address plus size overflows.
    LoadAddressOverflow,
    /// A loadable segment lies partly outside SRAM.
    LoadOutsideSram { start: u64, end: u64 },
    /// No loadable segment.
    NoLoadSegments,
    /// The image is empty or larger than SRAM.
    ImageLength { len: u64 },
}

pub open spec fn is_note_name(n: Option<Seq<char>>) -> bool {
    n == Some(".note.rp1"@)
}

pub open spec fn has_note(names: Seq<Option<Seq<char>>>) -> bool {
    exists|i: int| 0 <= i < names.len() && is_note_name(#[trigger] names[i])
}

/// One program header folded into the running (start, end, count) of the
/// loadable segments.
pub open spec fn load_step(acc: (u64, u64, nat), seg: (u32, u64, u64)) -> Result<
    (u64, u64, nat),
    ElfCheckError,
> {
    if seg.0 != PT_LOAD {
        Ok(acc)
    } else if seg.1 + seg.2 > u64::MAX {
        Err(ElfCheckError::LoadAddressOverflow)
    } else if seg.1 < RP1_SRAM_BASE || seg.1 + seg.2 > RP1_SRAM_LIMIT {
        Err(ElfCheckError::LoadOutsideSram { start: seg.1, end: (seg.1 + seg.2) as u64 })
    } else {
        Ok(
            (
                if seg.1 < acc.0 { seg.1 } else { acc.0 },
                if seg.1 + seg.2 > acc.1 { (seg.1 + seg.2) as u64 } else { acc.1 },
                acc.2 + 1,
            ),
        )
    }
}

/// The loadable segments of `segs` scanned in order; the first bad one
/// decides the error.
pub open spec fn scan_loads(segs: Seq<(u32, u64, u64)>) -> Result<(u64, u64, nat), ElfCheckError>
    decreases segs.len(),
{
    if segs.len() == 0 {
        Ok((u64::MAX, RP1_SRAM_BASE, 0))
    } else {
        match scan_loads(segs.drop_last()) {
            Err(e) => Err(e),
            Ok(acc) => load_step(acc, segs.last()),
        }
    }
}

/// The verdict on an image with the given entry, section names and program
/// headers.
pub open spec fn elf_verdict(
    entry: u64,
    names: Seq<Option<Seq<char>>>,
    segs: Seq<(u32, u64, u64)>,
) -> Result<ElfCheck, ElfCheckError> {
    if !has_note(names) {
        Err(ElfCheckError::MissingNote)
    } else if entry < RP1_SRAM_BASE || entry >= RP1_SRAM_LIMIT {
        Err(ElfCheckError::EntryOutsideSram { entry })
    } else {
        match scan_loads(segs) {
            Err(e) => Err(e),
            Ok((start, end, count)) => {
                if count == 0 {
                    Err(ElfCheckError::NoLoadSegments)
                } else if end - RP1_SRAM_BASE == 0 || end - RP1_SRAM_BASE > RP1_MAX_IMAGE_LEN {
                    Err(ElfCheckError::ImageLength { len: (end - RP1_SRAM_BASE) as u64 })
                } else {
                    Ok(ElfCheck { entry, load_start: start, load_end: end })
                }
            },
        }
    }
}

/// A scan that succeeds reports the least start and the greatest end of the
/// loadable segments (the end never below the SRAM base), and every
/// loadable segment lies inside SRAM between the two; with no loadable
/// segment the start is `u64::MAX` and the end the SRAM base.
pub proof fn lemma_scan_loads_bounds(segs: Seq<(u32, u64, u64)>)
    ensures
        scan_loads(segs) matches Ok((start, end, count)) ==> {
            &&& forall|i: int|
                0 <= i < segs.len() && (#[trigger] segs[i]).0 == PT_LOAD ==> RP1_SRAM_BASE
                    <= segs[i].1 && segs[i].1 + segs[i].2 <= RP1_SRAM_LIMIT && start <= segs[i].1
                    && segs[i].1 + segs[i].2 <= end
            &&& count == 0 ==> start == u64::MAX && end == RP1_SRAM_BASE
            &&& count > 0 ==> exists|i: int|
                0 <= i < segs.len() && (#[trigger] segs[i]).0 == PT_LOAD && segs[i].1 == start
            &&& end == RP1_SRAM_BASE || exists|i: int|
                0 <= i < segs.len() && (#[trigger] segs[i]).0 == PT_LOAD && segs[i].1 + segs[i].2
                    == end
        },
    decreases segs.len(),
{
    if segs.len() > 0 {
        let front = segs.drop_last();
        lemma_scan_loads_bounds(front);
        if let Ok((start, end, count)) = scan_loads(segs) {
            let last = segs.last();
            assert(scan_loads(front) is Ok);
            let (s0, e0, c0) = scan_loads(front)->Ok_0;
            assert forall|i: int| 0 <= i < segs.len() && (#[trigger] segs[i]).0 == PT_LOAD implies RP1_SRAM_BASE
                <= segs[i].1 && segs[i].1 + segs[i].2 <= RP1_SRAM_LIMIT && start <= segs[i].1
                && segs[i].1 + segs[i].2 <= end by {
                if i < front.len() {
                    assert(front[i] == segs[i]);
                }
            }
            if count > 0 {
                if last.0 == PT_LOAD && last.1 == start {
                    assert(segs[segs.len() - 1] == last);
                } else {
                    let j = choose|j: int| 0 <= j < front.len() && (#[trigger] front[j]).0 == PT_LOAD && front[j].1 == s0;
                    assert(segs[j] == front[j]);
                }
            }
            if end != RP1_SRAM_BASE {
                if last.0 == PT_LOAD && last.1 + last.2 == end {
                    assert(segs[segs.len() - 1] == last);
                } else {
                    let j = choose|j: int| 0 <= j < front.len() && (#[trigger] front[j]).0 == PT_LOAD && front[j].1 + front[j].2 == e0;
                    assert(segs[j] == front[j]);
                }
            }
        }
    }
}

proof fn lemma_scan_end_at_least_base(segs: Seq<(u32, u64, u64)>)
    ensures
        scan_loads(segs) matches Ok(acc) ==> acc.1 >= RP1_SRAM_BASE,
    decreases segs.len(),
{
    if segs.len() > 0 {
        lemma_scan_end_at_least_base(segs.drop_last());
    }
}

/// Once a prefix of the program headers is refused, the whole list is
/// refused with the same error.
proof fn lemma_scan_error_persists(segs: Seq<(u32, u64, u64)>, k: int)
    requires
        0 <= k <= segs.len(),
        scan_loads(segs.take(k)) is Err,
    ensures
        scan_loads(segs) == scan_loads(segs.take(k)),
    decreases segs.len() - k,
{
    if k == segs.len() {
        assert(segs.take(k) =~= segs);
    } else {
        let shorter = segs.drop_last();
        assert(shorter.take(k) =~= segs.take(k));
        lemma_scan_error_persists(shorter, k);
    }
}

fn names_have_note(names: &Vec<Option<String>>, Ghost(view): Ghost<Seq<Option<Seq<char>>>>) -> (r: bool)
    requires
        view == names@.map_values(|n: Option<String>| name_view(n)),
    ensures
        r == has_note(view),
{
    let note = ".note.rp1".to_owned();
    let mut i: usize = 0;
    while i < names.len()
        invariant
            i <= names@.len(),
            view == names@.map_values(|n: Option<String>| name_view(n)),
            note@ == ".note.rp1"@,
            forall|j: int| 0 <= j < i ==> !is_note_name(#[trigger] view[j]),
        decreases names@.len() - i,
    {
        match &names[i] {
            Some(name) => {
                if *name == note {
                    assert(is_note_name(view[i as int]));
                    return true;
                }
            },
            None => {},
        }
        assert(!is_note_name(view[i as int]));
        i += 1;
    }
    false
}

/// An image is accepted only with a `.note.rp1` section, its entry inside
/// SRAM, at least one loadable segment, every loadable segment inside SRAM,
/// and a load image of 1 to 64 KiB from the SRAM base; the check reports
/// that entry and a span covering every loadable segment. With the note
/// present, an entry outside SRAM is refused as such whatever the segments;
/// without it the image is refused for the missing note.
pub proof fn lemma_accepted_image_fits_sram(
    entry: u64,
    names: Seq<Option<Seq<char>>>,
    segs: Seq<(u32, u64, u64)>,
)
    ensures
        elf_verdict(entry, names, segs) matches Ok(c) ==> {
            &&& has_note(names)
            &&& c.entry == entry && RP1_SRAM_BASE <= entry < RP1_SRAM_LIMIT
            &&& exists|i: int| 0 <= i < segs.len() && (#[trigger] segs[i]).0 == PT_LOAD
            &&& forall|i: int|
                0 <= i < segs.len() && (#[trigger] segs[i]).0 == PT_LOAD ==> RP1_SRAM_BASE
                    <= segs[i].1 && segs[i].1 + segs[i].2 <= RP1_SRAM_LIMIT && c.load_start
                    <= segs[i].1 && segs[i].1 + segs[i].2 <= c.load_end
            &&& RP1_SRAM_BASE < c.load_end <= RP1_SRAM_BASE + RP1_MAX_IMAGE_LEN
        },
        has_note(names) && (entry < RP1_SRAM_BASE || entry >= RP1_SRAM_LIMIT) ==> elf_verdict(
            entry,
            names,
            segs,
        ) == Err::<ElfCheck, ElfCheckError>(ElfCheckError::EntryOutsideSram { entry }),
        !has_note(names) ==> elf_verdict(entry, names, segs) == Err::<ElfCheck, ElfCheckError>(
            ElfCheckError::MissingNote,
        ),
{
    lemma_scan_loads_bounds(segs);
    lemma_scan_end_at_least_base(segs);
}

/// Checks the summary of a parsed ELF: a `.note.rp1` section, an entry in
/// SRAM, and at least one loadable segment, each inside SRAM, spanning an
/// image of 1 to 64 KiB from the SRAM base.
pub fn check_elf_summary(summary: &ElfSummary) -> (r: Result<ElfCheck, ElfCheckError>)
    ensures
        r == elf_verdict(summary.entry, summary.names(), summary.segments@),
{
    if !names_have_note(&summary.section_names, Ghost(summary.names())) {
        return Err(ElfCheckError::MissingNote);
    }
    let entry = summary.entry;
    if entry < RP1_SRAM_BASE || entry >= RP1_SRAM_LIMIT {
        return Err(ElfCheckError::EntryOutsideSram { entry });
    }
    let segs = &summary.segments;
    let mut load_start: u64 = u64::MAX;
    let mut load_end: u64 = RP1_SRAM_BASE;
    let mut count: usize = 0;
    let mut i: usize = 0;
    while i < segs.len()
        invariant
            i <= segs@.len(),
            count <= i,
            segs@ == summary.segments@,
            has_note(summary.names()),
            RP1_SRAM_BASE <= entry < RP1_SRAM_LIMIT,
            entry == summary.entry,
            scan_loads(segs@.take(i as int)) == Ok::<(u64, u64, nat), ElfCheckError>(
                (load_start, load_end, count as nat),
            ),
        decreases segs@.len() - i,
    {
        let ghost prefix = segs@.take(i + 1);
        assert(prefix.drop_last() =~= segs@.take(i as int));
        assert(prefix.last() == segs@[i as int]);
        let (p_type, p_paddr, p_memsz) = segs[i];
        if p_type == PT_LOAD {
            let end = match p_paddr.checked_add(p_memsz) {
                Some(e) => e,
                None => {
                    proof {
                        lemma_scan_error_persists(segs@, i + 1);
                    }
                    return Err(ElfCheckError::LoadAddressOverflow);
                },
            };
            if p_paddr < RP1_SRAM_BASE || end > RP1_SRAM_LIMIT {
                proof {
                    lemma_scan_error_persists(segs@, i + 1);
                }
                return Err(ElfCheckError::LoadOutsideSram { start: p_paddr, end });
            }
            if p_paddr < load_start {
                load_start = p_paddr;
            }
            if end > load_end {
                load_end = end;
            }
            count += 1;
        }
        i += 1;
    }
    assert(segs@.take(i as int) =~= segs@);
    proof {
        lemma_scan_end_at_least_base(segs@);
    }
    if count == 0 {
        return Err(ElfCheckError::NoLoadSegments);
    }
    let image_len = load_end - RP1_SRAM_BASE;
    if image_len == 0 || image_len > RP1_MAX_IMAGE_LEN {
        return Err(ElfCheckError::ImageLength { len: image_len });
    }
    Ok(ElfCheck { entry, load_start, load_end })
}

/// Parses the bytes of a linked image and checks that the boot loader can
/// load it.
pub fn check_bootloader_compatible(bytes: &[u8]) -> (r: Result<ElfCheck, ElfCheckError>)
    ensures
        r == (match parsed_elf(bytes@) {
            None => Err(ElfCheckError::Parse),
            Some((entry, names, segs)) => elf_verdict(entry, names, segs),
        }),
{
    match parse_elf(bytes) {
        Some(summary) => check_elf_summary(&summary),
        None => Err(ElfCheckError::Parse),
    }
}

/// Whether `features` lists `name`.
pub fn has_feature(features: &Vec<String>, name: &String) -> (r: bool)
    ensures
        r == exists|i: int| 0 <= i < features@.len() && (#[trigger] features@[i])@ == name@,
{
    let mut i: usize = 0;
    while i < features.len()
        invariant
            i <= features@.len(),
            forall|j: int| 0 <= j < i ==> (#[trigger] features@[j])@ != name@,
        decreases features@.len() - i,
    {
        if features[i] == *name {
            return true;
        }
        i += 1;
    }
    false
}

/// Refuses a configuration whose private mailbox layout flag disagrees with
/// whether the `debug-mailbox-layout-v1` feature is among `features`.
pub fn validate_config_features(config: &Rp1BuildConfig, features: &Vec<String>) -> (r: Result<
    (),
    BuildError,
>)
    ensures
        r == crate::config::layout_feature_result(
            *config,
            exists|i: int|
                0 <= i < features@.len() && (#[trigger] features@[i])@
                    == "debug-mailbox-layout-v1"@,
        ),
{
    let v1 = has_feature(features, &"debug-mailbox-layout-v1".to_owned());
    validate_mailbox_layout_v1_feature(config, v1)
}

} // verus!
