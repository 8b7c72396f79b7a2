use rp1::rtos::{
    deadline_remaining, managed_task, task_parameters, value, Error, Sample, Task,
    TOTAL_TASK_STACK_WORDS,
};

#[test]
fn wrapping_deadline() {
    assert_eq!(deadline_remaining(10, 20), Some(10));
    assert_eq!(deadline_remaining(20, 20), None);
    assert_eq!(deadline_remaining(21, 20), None);
    assert_eq!(deadline_remaining(0xffff_fff0, 0x10), Some(32));
    assert_eq!(deadline_remaining(0x10, 0xffff_fff0), None);
    assert_eq!(deadline_remaining(0, 0x8000_0000), None);
    assert_eq!(deadline_remaining(0, 0x7fff_ffff), Some(0x7fff_ffff));
}

#[test]
fn boundary_contract() {
    assert_eq!(TOTAL_TASK_STACK_WORDS, 2560);
    assert_eq!([512u32, 128, 128, 256, 256, 256, 256, 512].iter().sum::<u32>(), 2304);
    assert!(TOTAL_TASK_STACK_WORDS >= 2304);
    assert_eq!(task_parameters(0, b"worker", 1, 128), Ok(()));
    assert_eq!(task_parameters(7, b"123456789012345", 7, 512), Ok(()));
    let cases: [(u32, &[u8], u32, u32); 6] = [
        (8, b"x", 1, 128),
        (0, b"", 1, 128),
        (0, b"1234567890123456", 1, 128),
        (0, b"x", 8, 128),
        (0, b"x", 1, 127),
        (0, b"x", 1, 513),
    ];
    for (slot, name, priority, words) in cases {
        assert_eq!(task_parameters(slot, name, priority, words), Err(Error::InvalidArgument));
    }
    assert_eq!(value(-1), Err(Error::InvalidArgument));
    assert_eq!(value(-2), Err(Error::WrongState));
    assert_eq!(value(-3), Err(Error::SlotInUse));
    assert_eq!(value(-4), Err(Error::Unavailable));
    assert_eq!(value(-5), Err(Error::WrongContext));
    assert_eq!(value(0), Ok(0));
    assert_eq!(value(512), Ok(512));
    assert_eq!(core::mem::size_of::<Task>(), 4);
}

#[test]
fn only_configured_slots_are_managed_tasks() {
    assert_eq!(managed_task(0), None);
    assert_eq!(managed_task(1), Some(Task(1)));
    assert_eq!(managed_task(8).map(|t| t.id()), Some(8));
    assert_eq!(managed_task(u32::MAX), None);
    assert_eq!(value(i32::MIN), Err(Error::Unavailable));
}

#[test]
fn deadline_half_wrap_boundary() {
    // A pending deadline is the reported distance ahead, modulo the wrap.
    let now = 0xffff_ff00u32;
    let remaining = deadline_remaining(now, 0x100).unwrap();
    assert_eq!(now.wrapping_add(remaining), 0x100);
    assert_eq!(deadline_remaining(5, 5u32.wrapping_add(0x8000_0000)), None);
    let empty = Sample::default();
    assert_eq!(empty.count, 0);
}
