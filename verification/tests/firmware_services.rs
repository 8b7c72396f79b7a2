use std::collections::HashMap;

use rp1::bus::{Bus, Mmio};
use rp1::debug::{DebugMailbox, STATE_FAULTED, STOP_REASON_EXCEPTION, STOP_REASON_PANIC};
use rp1::debug_stub::{fault, DebugStub};
use rp1::peripherals::{init, Peripherals};
use rp1::rpc::{
    stamp_checksum, valid_checksum, Opcode, Status, HEADER_WORDS, OWNER_EMPTY, OWNER_READY,
    OWNER_WORD, REQUEST_ADDR, REQUEST_MAGIC, RESPONSE_ADDR, RESPONSE_MAGIC, TELEMETRY_ADDR,
    TELEMETRY_MAGIC, TOTAL_WORDS, VERSION, WORD_HEADER_WORDS, WORD_MAGIC, WORD_OPCODE,
    WORD_SEQUENCE, WORD_STATUS, WORD_TOTAL_WORDS, WORD_VERSION,
};
use rp1::reset::{ResetController, ResetError, ResetState, RESET_CTRL};
use rp1::rpc_service::RpcService;
use rp1::scmi::{
    init_uart_clock_server, ALL_UART_VOTES, CLK_CTRL_ENABLE, CLK_UART_CTRL, PLL_PH_EN,
    PLL_SYS_PRIM, SCMI_DOORBELL_MASK, SYSCFG_PROC_EVENTS,
};

/// A bus backed by a map from address to word; unwritten words read zero.
#[derive(Default)]
struct Memory {
    words: HashMap<usize, u32>,
    writes: Vec<(usize, u32)>,
}

impl Mmio for Memory {
    fn read32(&mut self, addr: usize) -> u32 {
        *self.words.get(&addr).unwrap_or(&0)
    }
    fn write32(&mut self, addr: usize, value: u32) {
        self.words.insert(addr, value);
        self.writes.push((addr, value));
    }
}

impl Memory {
    fn word(&self, base: u32, index: usize) -> u32 {
        *self.words.get(&(base as usize + 4 * index)).unwrap_or(&0)
    }
    fn set(&mut self, base: u32, index: usize, value: u32) {
        self.words.insert(base as usize + 4 * index, value);
    }
}

#[test]
fn faults_and_panics_are_published_in_the_mailbox() {
    let mut m = DebugMailbox::new();
    let mut stub = DebugStub { last_seq: 9 };
    stub.init(&mut m);
    assert_eq!(stub.last_seq, 0);
    m.seq = 4;
    rp1::debug_stub::panic(&mut m);
    assert_eq!((m.state, m.stop_reason, m.seq), (STATE_FAULTED, STOP_REASON_PANIC, 4));
    fault(&mut m);
    assert_eq!((m.state, m.stop_reason), (STATE_FAULTED, STOP_REASON_EXCEPTION));
}

#[test]
fn peripherals_are_handed_out_once() {
    let mut taken = false;
    assert!(init(&mut taken).is_some());
    assert!(taken);
    assert!(init(&mut taken).is_none());
    assert!(Peripherals::take(&mut taken).is_none());
}

#[test]
fn rpc_endpoint_publishes_idle_slots_then_serves_once() {
    let mut bus = Bus::new(Memory::default());
    bus.io.set(REQUEST_ADDR, 3, 0x55);
    let mut service = RpcService::init(&mut bus);
    assert_eq!(service.last_sequence, None);
    assert_eq!(bus.io.word(RESPONSE_ADDR, 0), RESPONSE_MAGIC);
    assert_eq!(bus.io.word(REQUEST_ADDR, 3), 0);
    assert_eq!(bus.io.word(TELEMETRY_ADDR, 0), TELEMETRY_MAGIC);
    assert_eq!(bus.io.word(TELEMETRY_ADDR, 18), u32::MAX);
    assert_eq!(bus.io.writes.last(), Some(&(TELEMETRY_ADDR as usize, TELEMETRY_MAGIC)));
    assert!(!service.poll(&mut bus, 1));

    let mut request = [0u32; 32];
    request[WORD_MAGIC] = REQUEST_MAGIC;
    request[WORD_VERSION] = VERSION;
    request[WORD_HEADER_WORDS] = HEADER_WORDS;
    request[WORD_TOTAL_WORDS] = TOTAL_WORDS;
    request[WORD_SEQUENCE] = 12;
    request[WORD_OPCODE] = Opcode::Ping.code();
    stamp_checksum(&mut request);
    request[OWNER_WORD] = OWNER_READY;
    for (i, w) in request.iter().enumerate() {
        bus.io.set(REQUEST_ADDR, i, *w);
    }
    bus.io.set(RESPONSE_ADDR, OWNER_WORD, OWNER_EMPTY);
    assert!(service.poll(&mut bus, 99));
    assert_eq!(service.last_sequence, Some(12));
    assert_eq!(bus.io.word(RESPONSE_ADDR, WORD_STATUS), Status::Success.code());
    assert_eq!(bus.io.word(RESPONSE_ADDR, OWNER_WORD), OWNER_READY);
    assert_eq!(bus.io.word(REQUEST_ADDR, OWNER_WORD), OWNER_EMPTY);
    let mut response = [0u32; 32];
    for (i, w) in response.iter_mut().enumerate() {
        *w = bus.io.word(RESPONSE_ADDR, i);
    }
    assert!(valid_checksum(&response));
    assert_eq!(bus.io.word(TELEMETRY_ADDR, 18), 12);

    bus.io.set(REQUEST_ADDR, OWNER_WORD, OWNER_READY);
    bus.io.set(RESPONSE_ADDR, OWNER_WORD, OWNER_EMPTY);
    assert!(service.poll(&mut bus, 100));
    assert_eq!(bus.io.word(RESPONSE_ADDR, WORD_STATUS), Status::Replay.code());
    assert_eq!(service.last_sequence, Some(12));
}

#[test]
fn doorbell_serves_a_clock_request_and_hands_the_channel_back() {
    let shmem = 0x2000_e000usize;
    let mut bus = Bus::new(Memory::default());
    let mut server = init_uart_clock_server();
    server.firmware_votes = 0;
    bus.io.words.insert(SYSCFG_PROC_EVENTS, SCMI_DOORBELL_MASK);
    bus.io.words.insert(shmem + 0x10, 1);
    bus.io.words.insert(shmem + 0x14, 12);
    bus.io.words.insert(shmem + 0x18, (0x14 << 10) | 7);
    bus.io.words.insert(shmem + 0x1c, 0);
    bus.io.words.insert(shmem + 0x20, 1);
    server.handle_doorbell_irq(&mut bus, shmem);
    assert_eq!(server.irq_count, 1);
    assert_eq!(server.linux_votes, 1);
    assert_eq!(bus.io.words[&(shmem + 0x1c)], 0);
    assert_eq!(bus.io.words[&(shmem + 0x04)], 1);
    assert_eq!(bus.io.words[&CLK_UART_CTRL] & CLK_CTRL_ENABLE, CLK_CTRL_ENABLE);
    assert_eq!(bus.io.words[&PLL_SYS_PRIM] & PLL_PH_EN, 0);
    assert_eq!(server.host_event_count, 1);

    let mut quiet = Bus::new(Memory::default());
    let mut other = init_uart_clock_server();
    other.handle_doorbell_irq(&mut quiet, shmem);
    assert_eq!(other.irq_count, 1);
    assert_eq!(other.proc_event_count, 0);
    assert!(quiet.io.writes.is_empty());
    assert_eq!(other.firmware_votes, ALL_UART_VOTES);
}

#[test]
fn spi0_tx_empty_irq_is_unmasked_alone_and_cleaned_up() {
    let base = rp1::addr::SPI0_BASE;
    let mut bus = Bus::new(Memory::default());
    let snapshot = rp1::spi::spi0_unmask_tx_empty_irq(&mut bus);
    assert_eq!(snapshot.interrupt_mask, rp1::spi::IRQ_TXEI);
    assert_eq!(bus.io.writes[0], (base + rp1::spi::IMR, rp1::spi::IRQ_TXEI));
    bus.io.words.insert(base + rp1::spi::SSIENR, 1);
    rp1::spi::spi0_cleanup_tx_empty_irq(&mut bus);
    assert_eq!(bus.io.words[&(base + rp1::spi::IMR)], 0);
    assert_eq!(bus.io.words[&(base + rp1::spi::SSIENR)], 0);
}

#[test]
fn proc1_release_needs_it_held_in_reset_first() {
    let mut controller = ResetController { bus_owner: () };
    let mut bus = Bus::new(Memory::default());
    assert_eq!(
        controller.deassert_proc1_boot_tuple_ready(&mut bus, 4),
        Err(ResetError::PreconditionMismatch(ResetState { asserted: false, done: false }))
    );
    assert!(bus.io.writes.is_empty());
    // Held in reset, but this bus ignores the clear write.
    bus.io.words.insert(RESET_CTRL[0], 1 << 31);
    assert_eq!(
        controller.deassert_proc1_boot_tuple_ready(&mut bus, 4),
        Err(ResetError::WriteRejected(ResetState { asserted: true, done: false }))
    );
}
