//! The checks and handles of the FreeRTOS bridge: status codes, task
//! parameters, handle identities and wrapping tick deadlines. The kernel
//! calls themselves belong to the firmware.

use vstd::prelude::*;

verus! {

pub const TASK_SLOTS: u32 = 8;
pub const MIN_STACK_WORDS: u32 = 128;
pub const MAX_STACK_WORDS: u32 = 512;
/// The fixed pool that requested task stacks (rounded to even words) share
/// at boot; the idle task has its own stack.
pub const TOTAL_TASK_STACK_WORDS: u32 = 2560;
pub const QUEUE_SLOTS: u32 = 4;
pub const MAX_QUEUE_WORDS: u32 = 16;
pub const SEMAPHORE_SLOTS: u32 = 4;
pub const PRIORITIES: u32 = 8;
pub const TICK_HZ: u32 = 1000;
pub const WAIT_FOREVER: u32 = u32::MAX;
pub const IDLE_TASK_ID: u32 = u32::MAX;

#[derive(Clone, Copy, Debug, Eq, PartialEq, Structural)]
pub enum Error {
    InvalidArgument,
    WrongState,
    SlotInUse,
    Unavailable,
    WrongContext,
}

/// The meaning of a bridge status: -1, -2, -3 and -5 name errors, any other
/// negative status is unavailability, and a non-negative one is the value.
pub open spec fn status_value(status: i32) -> Result<u32, Error> {
    if status == -1 {
        Err(Error::InvalidArgument)
    } else if status == -2 {
        Err(Error::WrongState)
    } else if status == -3 {
        Err(Error::SlotInUse)
    } else if status == -5 {
        Err(Error::WrongContext)
    } else if status < 0 {
        Err(Error::Unavailable)
    } else {
        Ok(status as u32)
    }
}

pub fn value(status: i32) -> (r: Result<u32, Error>)
    ensures
        r == status_value(status),
{
    if status == -1 {
        Err(Error::InvalidArgument)
    } else if status == -2 {
        Err(Error::WrongState)
    } else if status == -3 {
        Err(Error::SlotInUse)
    } else if status == -5 {
        Err(Error::WrongContext)
    } else if status < 0 {
        Err(Error::Unavailable)
    } else {
        Ok(status as u32)
    }
}

/// A task slot below 8, a name of 1 to 15 bytes (without its NUL), a
/// priority below 8 and 128 to 512 stack words.
pub open spec fn task_parameters_ok(slot: u32, name_len: nat, priority: u32, words: u32) -> bool {
    slot < TASK_SLOTS && 1 <= name_len < 16 && priority < PRIORITIES && MIN_STACK_WORDS <= words
        <= MAX_STACK_WORDS
}

/// Checks task parameters; `name` is the name's bytes without the NUL.
pub fn task_parameters(slot: u32, name: &[u8], priority: u32, words: u32) -> (r: Result<(), Error>)
    ensures
        r == (if task_parameters_ok(slot, name@.len(), priority, words) {
            Ok::<(), Error>(())
        } else {
            Err(Error::InvalidArgument)
        }),
{
    if slot >= TASK_SLOTS || name.len() == 0 || name.len() >= 16 || priority >= PRIORITIES
        || words < MIN_STACK_WORDS || words > MAX_STACK_WORDS {
        Err(Error::InvalidArgument)
    } else {
        Ok(())
    }
}

/// Units left before a wrapping 32-bit deadline, `None` once it is due or
/// when it lies half the wrap period or more ahead.
pub open spec fn remaining_before(now: u32, deadline: u32) -> Option<u32> {
    let remaining = deadline.wrapping_sub(now);
    if remaining != 0 && remaining < 0x8000_0000 {
        Some(remaining)
    } else {
        None
    }
}

pub fn deadline_remaining(now: u32, deadline: u32) -> (r: Option<u32>)
    ensures
        r == remaining_before(now, deadline),
{
    let remaining = deadline.wrapping_sub(now);
    if remaining != 0 && remaining < 0x8000_0000 {
        Some(remaining)
    } else {
        None
    }
}

/// One sample of task-side critical-section body time, in raw timer
/// microseconds. With no sample yet, `min_us` is `u32::MAX`.
#[derive(Clone, Copy, Debug, Default, Eq, PartialEq, Structural)]
pub struct Sample {
    pub count: u32,
    pub min_us: u32,
    pub max_us: u32,
    pub last_us: u32,
    pub max_nesting: u32,
    pub saturated: u32,
}

/// A permanent task identity: the configured slot plus one.
#[derive(Clone, Copy, Debug, Eq, PartialEq, Structural)]
pub struct Task(pub u32);

impl Task {
    pub fn id(self) -> (r: u32)
        ensures
            r == self.0,
    {
        self.0
    }
}

/// The task that a current-task query reported: managed tasks are 1..=8,
/// anything else is idle or unmanaged.
pub fn managed_task(id: u32) -> (r: Option<Task>)
    ensures
        r == (if 1 <= id <= TASK_SLOTS {
            Some(Task(id))
        } else {
            None
        }),
{
    if 1 <= id && id <= TASK_SLOTS {
        Some(Task(id))
    } else {
        None
    }
}

/// A queue of up to 16 words owned by the kernel.
#[derive(Clone, Copy, Debug, Eq, PartialEq, Structural)]
pub struct U32Queue(pub u32);

/// An initially empty binary semaphore owned by the kernel.
#[derive(Clone, Copy, Debug, Eq, PartialEq, Structural)]
pub struct BinarySemaphore(pub u32);

/// A priority-inheriting mutex owned by the kernel.
#[derive(Clone, Copy, Debug, Eq, PartialEq, Structural)]
pub struct Mutex(pub u32);

/// A pending deadline lies exactly the reported units ahead of now, modulo
/// the wrap, and less than half the wrap period away.
pub proof fn lemma_deadline_wraps(now: u32, deadline: u32)
    ensures
        remaining_before(now, deadline) matches Some(r) ==> 0 < r < 0x8000_0000 && (now + r)
            % 0x1_0000_0000 == deadline,
{
}

} // verus!
