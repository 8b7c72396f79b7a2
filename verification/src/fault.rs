//! Evidence checks for the expected-fault probes and the interrupt route
//! snapshots that the runtime records.

use vstd::prelude::*;

verus! {

pub const EXPECTED_FAULT_KIND_UDF: u32 = 1;
pub const EXPECTED_FAULT_KIND_DATA_READ: u32 = 2;
pub const EXPECTED_FAULT_KIND_DATA_WRITE: u32 = 3;
/// `"RECV"` read as a little-endian word.
pub const EXPECTED_FAULT_RECOVERED: u32 = 0x5643_4552;

/// A precise bus fault on a data access at `target_address`: taken as a
/// HardFault (forced) or BusFault, precise error with a valid BFAR equal to
/// the target, no stacking or imprecise flags, no other fault class.
pub open spec fn is_precise_bus_data_fault(
    exception: u32,
    cfsr: u32,
    hfsr: u32,
    bfar: u32,
    target_address: u32,
) -> bool {
    (exception == 3 || exception == 5) && cfsr & 0x200 != 0 && cfsr & 0x1c00 == 0 && cfsr & 0x8000
        != 0 && cfsr & 0xff == 0 && cfsr & 0xffff_0000 == 0 && bfar == target_address && (exception
        != 3 || hfsr & 0x4000_0000 != 0) && hfsr & 2 == 0
}

/// A MemManage data access violation exactly: exception 4, CFSR holding
/// only DACCVIOL and MMARVALID, no HardFault status, MMFAR at the target.
pub open spec fn is_precise_memmanage_data_fault(
    exception: u32,
    cfsr: u32,
    hfsr: u32,
    mmfar: u32,
    target_address: u32,
) -> bool {
    exception == 4 && cfsr == 0x82 && hfsr == 0 && mmfar == target_address
}

/// A data-fault verdict names the probed target: a precise bus data fault
/// is reported only for a BusFault, or a HardFault forced from one, with
/// the precise-error and address-valid bits set, no vector-table HardFault,
/// and BFAR equal to the target; a MemManage data fault only with MMFAR
/// equal to the target. A fault at any other address is never either.
pub proof fn lemma_data_fault_verdicts_name_the_target(
    exception: u32,
    cfsr: u32,
    hfsr: u32,
    fault_address: u32,
    target_address: u32,
)
    ensures
        is_precise_bus_data_fault(exception, cfsr, hfsr, fault_address, target_address) ==> {
            &&& fault_address == target_address
            &&& exception == 3 || exception == 5
            &&& cfsr & 0x200 != 0 && cfsr & 0x8000 != 0
            &&& hfsr & 2 == 0
        },
        is_precise_memmanage_data_fault(exception, cfsr, hfsr, fault_address, target_address) ==> {
            &&& fault_address == target_address
            &&& exception == 4
        },
        fault_address != target_address ==> !is_precise_bus_data_fault(
            exception,
            cfsr,
            hfsr,
            fault_address,
            target_address,
        ) && !is_precise_memmanage_data_fault(exception, cfsr, hfsr, fault_address, target_address),
{
}

pub fn precise_bus_data_fault(exception: u32, cfsr: u32, hfsr: u32, bfar: u32, target_address: u32) -> (r:
    bool)
    ensures
        r == is_precise_bus_data_fault(exception, cfsr, hfsr, bfar, target_address),
{
    (exception == 3 || exception == 5) && cfsr & 0x200 != 0 && cfsr & 0x1c00 == 0 && cfsr & 0x8000
        != 0 && cfsr & 0xff == 0 && cfsr & 0xffff_0000 == 0 && bfar == target_address && (exception
        != 3 || hfsr & 0x4000_0000 != 0) && hfsr & 2 == 0
}

pub fn precise_memmanage_data_fault(
    exception: u32,
    cfsr: u32,
    hfsr: u32,
    mmfar: u32,
    target_address: u32,
) -> (r: bool)
    ensures
        r == is_precise_memmanage_data_fault(exception, cfsr, hfsr, mmfar, target_address),
{
    exception == 4 && cfsr == 0x82 && hfsr == 0 && mmfar == target_address
}

/// The record that the expected-fault handler leaves behind.
#[derive(Clone, Copy, Debug, PartialEq, Eq, Structural)]
pub struct ExpectedFaultSnapshot {
    pub active: u32,
    pub sequence: u32,
    pub kind: u32,
    pub probe_pc: u32,
    pub resume_pc: u32,
    pub exception: u32,
    pub exc_return: u32,
    pub stacked_pc: u32,
    pub stacked_lr: u32,
    pub stacked_xpsr: u32,
    pub cfsr: u32,
    pub hfsr: u32,
    pub bfar: u32,
    pub mmfar: u32,
    pub completion: u32,
    pub handler_count: u32,
    pub target_address: u32,
    pub access_result: u32,
    pub faulted: u32,
}

/// One finished probe whose handler ran once and resumed past the probe.
pub open spec fn probe_recovered(s: ExpectedFaultSnapshot, kind: u32) -> bool {
    s.active == 0 && s.sequence == 1 && s.kind == kind && s.probe_pc == s.stacked_pc && s.probe_pc
        != s.resume_pc && s.completion == EXPECTED_FAULT_RECOVERED && s.handler_count == 1
}

pub open spec fn udf_recovered(s: ExpectedFaultSnapshot) -> bool {
    probe_recovered(s, EXPECTED_FAULT_KIND_UDF) && (s.exception == 3 || s.exception == 6) && s.cfsr
        & 0x1_0000 != 0 && s.cfsr & 0x400 == 0 && (s.exception != 3 || s.hfsr & 0x4000_0000 != 0)
}

pub open spec fn access_succeeded(s: ExpectedFaultSnapshot, kind: u32) -> bool {
    s.active == 0 && s.sequence == 1 && s.kind == kind && s.exception == 0 && s.cfsr == 0 && s.hfsr
        == 0 && s.completion == 0 && s.handler_count == 0 && s.faulted == 0
}

pub open spec fn access_fault_recovered(s: ExpectedFaultSnapshot, kind: u32, address: u32) -> bool {
    (is_precise_bus_data_fault(s.exception, s.cfsr, s.hfsr, s.bfar, address)
        || is_precise_memmanage_data_fault(s.exception, s.cfsr, s.hfsr, s.mmfar, address))
        && probe_recovered(s, kind) && s.target_address == address && s.faulted == 1
}

impl ExpectedFaultSnapshot {
    /// An undefined-instruction probe recovered through UsageFault (or a
    /// forced HardFault).
    pub fn recovered(self) -> (r: bool)
        ensures
            r == udf_recovered(self),
    {
        let expected_exception = self.exception == 3 || self.exception == 6;
        let expected_status = self.cfsr & 0x1_0000 != 0 && self.cfsr & 0x400 == 0 && (self.exception
            != 3 || self.hfsr & 0x4000_0000 != 0);
        self.active == 0 && self.sequence == 1 && self.kind == EXPECTED_FAULT_KIND_UDF
            && expected_exception && expected_status && self.probe_pc == self.stacked_pc
            && self.probe_pc != self.resume_pc && self.completion == EXPECTED_FAULT_RECOVERED
            && self.handler_count == 1
    }

    /// A data access probe of `expected_kind` that completed without a fault.
    pub fn data_access_succeeded(self, expected_kind: u32) -> (r: bool)
        ensures
            r == access_succeeded(self, expected_kind),
    {
        self.active == 0 && self.sequence == 1 && self.kind == expected_kind && self.exception == 0
            && self.cfsr == 0 && self.hfsr == 0 && self.completion == 0 && self.handler_count == 0
            && self.faulted == 0
    }

    pub fn data_read_succeeded(self) -> (r: bool)
        ensures
            r == access_succeeded(self, EXPECTED_FAULT_KIND_DATA_READ),
    {
        self.data_access_succeeded(EXPECTED_FAULT_KIND_DATA_READ)
    }

    pub fn data_write_succeeded(self) -> (r: bool)
        ensures
            r == access_succeeded(self, EXPECTED_FAULT_KIND_DATA_WRITE),
    {
        self.data_access_succeeded(EXPECTED_FAULT_KIND_DATA_WRITE)
    }

    /// A data access probe that faulted precisely at `expected_address` and
    /// recovered.
    pub fn recovered_data_access_fault(self, expected_kind: u32, expected_address: u32) -> (r: bool)
        ensures
            r == access_fault_recovered(self, expected_kind, expected_address),
    {
        let expected_status = precise_bus_data_fault(
            self.exception,
            self.cfsr,
            self.hfsr,
            self.bfar,
            expected_address,
        ) || precise_memmanage_data_fault(
            self.exception,
            self.cfsr,
            self.hfsr,
            self.mmfar,
            expected_address,
        );
        self.active == 0 && self.sequence == 1 && self.kind == expected_kind && expected_status
            && self.target_address == expected_address && self.probe_pc == self.stacked_pc
            && self.probe_pc != self.resume_pc && self.completion == EXPECTED_FAULT_RECOVERED
            && self.handler_count == 1 && self.faulted == 1
    }

    pub fn recovered_data_read_fault(self, expected_address: u32) -> (r: bool)
        ensures
            r == access_fault_recovered(self, EXPECTED_FAULT_KIND_DATA_READ, expected_address),
    {
        self.recovered_data_access_fault(EXPECTED_FAULT_KIND_DATA_READ, expected_address)
    }

    pub fn recovered_data_write_fault(self, expected_address: u32) -> (r: bool)
        ensures
            r == access_fault_recovered(self, EXPECTED_FAULT_KIND_DATA_WRITE, expected_address),
    {
        self.recovered_data_access_fault(EXPECTED_FAULT_KIND_DATA_WRITE, expected_address)
    }

    /// A data read probe that recovered from exactly a MemManage violation.
    pub fn recovered_memmanage_data_read_fault(self, expected_address: u32) -> (r: bool)
        ensures
            r == (is_precise_memmanage_data_fault(
                self.exception,
                self.cfsr,
                self.hfsr,
                self.mmfar,
                expected_address,
            ) && access_fault_recovered(self, EXPECTED_FAULT_KIND_DATA_READ, expected_address)),
    {
        precise_memmanage_data_fault(
            self.exception,
            self.cfsr,
            self.hfsr,
            self.mmfar,
            expected_address,
        ) && self.recovered_data_read_fault(expected_address)
    }
}

/// `"EFR1"` read as a little-endian word: a probe is armed.
pub const EXPECTED_FAULT_ACTIVE_MAGIC: u32 = 0x3152_4645;

/// What the handler of an expected fault found.
#[derive(Clone, Copy, Debug, PartialEq, Eq, Structural)]
pub struct ExpectedFaultEvidence {
    /// The exception frame's address.
    pub frame_address: u32,
    pub active: u32,
    pub sequence: u32,
    pub kind: u32,
    pub exception: u32,
    pub cfsr: u32,
    pub hfsr: u32,
    pub bfar: u32,
    pub mmfar: u32,
    pub target_address: u32,
    pub stacked_pc: u32,
    pub probe_pc: u32,
    pub resume_pc: u32,
}

/// An undefined-instruction probe faulted as expected: a HardFault or
/// UsageFault with UNDEFINSTR and no MemManage or BusFault flag.
pub open spec fn is_udf_fault(e: ExpectedFaultEvidence) -> bool {
    e.kind == EXPECTED_FAULT_KIND_UDF && (e.exception == 3 || e.exception == 6) && e.cfsr & 0x1_0000
        != 0 && e.cfsr & 0xffff == 0
}

/// A data probe faulted precisely on its target.
pub open spec fn is_data_fault(e: ExpectedFaultEvidence) -> bool {
    (e.kind == EXPECTED_FAULT_KIND_DATA_READ || e.kind == EXPECTED_FAULT_KIND_DATA_WRITE) && (
    is_precise_bus_data_fault(e.exception, e.cfsr, e.hfsr, e.bfar, e.target_address)
        || is_precise_memmanage_data_fault(e.exception, e.cfsr, e.hfsr, e.mmfar, e.target_address))
}

/// The handler resumes only an armed first probe whose fault is the one
/// expected, forced into a HardFault only by escalation (never a vector
/// table read), taken at the probe instruction, with a resume address in
/// SRAM other than the probe. It resumes at that address (Thumb bit
/// cleared); `None` stops.
pub open spec fn expected_fault_resume(e: ExpectedFaultEvidence) -> Option<u32> {
    if !(0x2000_0000 <= e.frame_address <= 0x2000_ffe0) || e.frame_address % 4 != 0 {
        None
    } else if e.active != EXPECTED_FAULT_ACTIVE_MAGIC || e.sequence != 1 || !(is_udf_fault(e)
        || is_data_fault(e)) || !(e.exception != 3 || e.hfsr & 0x4000_0000 != 0) || e.hfsr & 2
        != 0 || e.stacked_pc != e.probe_pc || !(0x2000_0000 <= e.resume_pc < 0x2001_0000)
        || e.resume_pc == e.probe_pc {
        None
    } else {
        Some(e.resume_pc & !1u32)
    }
}

pub fn expected_fault_verdict(e: ExpectedFaultEvidence) -> (r: Option<u32>)
    ensures
        r == expected_fault_resume(e),
{
    let frame = e.frame_address;
    assert(frame & 3 == 0 <==> frame % 4 == 0) by (bit_vector);
    if !(0x2000_0000 <= frame && frame <= 0x2000_ffe0) || frame & 3 != 0 {
        return None;
    }
    let udf_fault = e.kind == EXPECTED_FAULT_KIND_UDF && (e.exception == 3 || e.exception == 6)
        && e.cfsr & 0x1_0000 != 0 && e.cfsr & 0xffff == 0;
    let data_fault = (e.kind == EXPECTED_FAULT_KIND_DATA_READ || e.kind
        == EXPECTED_FAULT_KIND_DATA_WRITE) && (precise_bus_data_fault(
        e.exception,
        e.cfsr,
        e.hfsr,
        e.bfar,
        e.target_address,
    ) || precise_memmanage_data_fault(e.exception, e.cfsr, e.hfsr, e.mmfar, e.target_address));
    let expected_hfsr = e.exception != 3 || e.hfsr & 0x4000_0000 != 0;
    let safe_resume = 0x2000_0000 <= e.resume_pc && e.resume_pc < 0x2001_0000;
    if e.active != EXPECTED_FAULT_ACTIVE_MAGIC || e.sequence != 1 || !(udf_fault || data_fault)
        || !expected_hfsr || e.hfsr & 2 != 0 || e.stacked_pc != e.probe_pc || !safe_resume
        || e.resume_pc == e.probe_pc {
        return None;
    }
    Some(e.resume_pc & !1u32)
}

/// A resumed fault was an armed first probe that faulted at the probe
/// instruction, and execution never resumes at the probe itself.
pub proof fn lemma_resume_never_reenters_probe(e: ExpectedFaultEvidence)
    ensures
        expected_fault_resume(e) is Some ==> e.active == EXPECTED_FAULT_ACTIVE_MAGIC && e.sequence
            == 1 && e.stacked_pc == e.probe_pc && e.resume_pc != e.probe_pc && 0x2000_0000
            <= expected_fault_resume(e)->0 < 0x2001_0000,
{
    if expected_fault_resume(e) is Some {
        let pc = e.resume_pc;
        assert(0x2000_0000 <= pc < 0x2001_0000 ==> 0x2000_0000 <= (pc & !1u32) < 0x2001_0000)
            by (bit_vector);
    }
}

} // verus!
