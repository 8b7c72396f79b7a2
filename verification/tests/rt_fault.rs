use rp1::fault::{precise_bus_data_fault, precise_memmanage_data_fault};
use rp1::irq_route::{
    Timer0Alarm0Irq26CandidateRouteSnapshot, Uart0IrqRouteSnapshot, Uart1IrqRouteSnapshot,
    Uart1IrqSaved, TIMER0_ALARM0_IRQ26_CANDIDATE_BIT, UART0_IRQ_BIT, UART1_IRQ_BIT1,
    VECTOR_TABLE_BASE,
};

#[test]
fn accepts_exact_memmanage_data_violation() {
    assert!(precise_memmanage_data_fault(4, (1 << 1) | (1 << 7), 0, 0x2000_0100, 0x2000_0100));
}

#[test]
fn rejects_inexact_memmanage_faults() {
    let exact = (1 << 1) | (1 << 7);
    assert!(!precise_memmanage_data_fault(3, exact, 0, 0x2000_0100, 0x2000_0100));
    assert!(!precise_memmanage_data_fault(4, exact | (1 << 4), 0, 0x2000_0100, 0x2000_0100));
    assert!(!precise_memmanage_data_fault(4, exact, 0, 0x2000_0120, 0x2000_0100));
    assert!(!precise_memmanage_data_fault(4, exact, 1 << 30, 0x2000_0100, 0x2000_0100));
}

#[test]
fn preserves_precise_bus_fault_acceptance() {
    let cfsr = (1 << 9) | (1 << 15);
    assert!(precise_bus_data_fault(5, cfsr, 0, 0x4000_0000, 0x4000_0000));
    assert!(precise_bus_data_fault(3, cfsr, 1 << 30, 0x4000_0000, 0x4000_0000));
    assert!(!precise_bus_data_fault(3, cfsr, 0, 0x4000_0000, 0x4000_0000));
}

#[test]
fn bank0_route_must_be_the_image_table_with_no_other_enable() {
    let clear = Uart0IrqRouteSnapshot { vtor: VECTOR_TABLE_BASE, iser0: UART0_IRQ_BIT, iser1: 0, primask: 1 };
    assert!(clear.route_is_clear());
    assert!(!Uart0IrqRouteSnapshot { iser0: UART0_IRQ_BIT | 1, ..clear }.route_is_clear());
    assert!(!Uart0IrqRouteSnapshot { iser1: 1, ..clear }.route_is_clear());
    assert!(!Uart0IrqRouteSnapshot { vtor: 0, ..clear }.route_is_clear());
}

#[test]
fn bank1_preparation_saves_enable_and_primask() {
    let route = Uart1IrqRouteSnapshot {
        vtor: VECTOR_TABLE_BASE,
        iser0: 0,
        iser1: UART1_IRQ_BIT1,
        ispr0: 0,
        ispr1: 0,
        iabr0: 0,
        iabr1: 0,
        primask: 3,
    };
    let saved = route.saved().unwrap();
    assert_eq!(saved, Uart1IrqSaved { enabled: true, primask: 3 });
    assert_eq!(saved.restored_primask(), 1);
    assert_eq!(Uart1IrqRouteSnapshot { iser1: 0, ..route }.saved().map(|s| s.enabled), Some(false));
    assert_eq!(Uart1IrqRouteSnapshot { vtor: 0, ..route }.saved(), None);
}

#[test]
fn quiet_candidate_route_packs_to_vtor_bit_only() {
    let quiet = Timer0Alarm0Irq26CandidateRouteSnapshot {
        vtor: VECTOR_TABLE_BASE,
        iser0: 0,
        iser1: 0,
        ispr0: 0,
        iabr0: 0,
        primask: 0,
    };
    assert!(quiet.route_is_clear());
    assert_eq!(quiet.pack(), 0x10);
    assert!(quiet.is_quiet());
    let busy = Timer0Alarm0Irq26CandidateRouteSnapshot {
        iser0: TIMER0_ALARM0_IRQ26_CANDIDATE_BIT | 1,
        ispr0: TIMER0_ALARM0_IRQ26_CANDIDATE_BIT,
        iabr0: 2,
        iser1: 5,
        primask: 1,
        ..quiet
    };
    assert_eq!(busy.pack(), 0x1 | 0x2 | 0x8 | 0x10 | 0x100 | 0x200 | 0x800);
    assert!(!busy.route_is_clear());
    assert!(!busy.is_quiet());
}
