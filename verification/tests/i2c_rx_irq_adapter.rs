use rp1::i2c_rx_irq_adapter::{
    Port as Traced,
    prime, rx_fifo_depth, service_irq, AdapterFault, I2c1Read1Snapshot, Read1Port,
};
use rp1::i2c_rx_state::{
    CleanupEvidence, Error, Rejected, RxState, State, OWNED_CAUSES, STOP_DET,
};

/// A controller whose RX FIFO holds `fifo`, whose commands are recorded,
/// and whose snapshot is computed from its state.
struct FakePort {
    enabled: bool,
    mask: u32,
    causes: u32,
    abort: u32,
    fifo: Vec<u32>,
    commands: Vec<u32>,
    acks: Vec<u32>,
    masked: bool,
    tx_level: u32,
    parameter: u32,
}

impl FakePort {
    fn new() -> FakePort {
        FakePort {
            enabled: true,
            mask: OWNED_CAUSES,
            causes: 0,
            abort: 0,
            fifo: Vec::new(),
            commands: Vec::new(),
            acks: Vec::new(),
            masked: false,
            tx_level: 0,
            parameter: (31 << 16) | (31 << 8),
        }
    }
}

impl Read1Port for FakePort {
    fn snapshot(&mut self) -> I2c1Read1Snapshot {
        I2c1Read1Snapshot {
            enable_status: u32::from(self.enabled),
            interrupt_mask: self.mask,
            raw_interrupt_status: self.causes,
            masked_interrupt_status: self.causes,
            abort_source: self.abort,
            rx_level: self.fifo.len() as u32,
            tx_level: self.tx_level,
            rx_threshold: 0,
        }
    }
    fn component_parameter(&mut self) -> u32 {
        self.parameter
    }
    fn issue_read_command(&mut self, word: u32) {
        self.commands.push(word);
    }
    fn pop_rx_one(&mut self, max_level: u32) -> Option<u32> {
        let level = self.fifo.len() as u32;
        if level == 0 || level > max_level {
            None
        } else {
            Some(self.fifo.remove(0))
        }
    }
    fn ack(&mut self, snapshot: I2c1Read1Snapshot) -> u32 {
        let causes = snapshot.raw_interrupt_status | snapshot.masked_interrupt_status;
        self.acks.push(causes);
        self.causes &= !causes;
        causes
    }
    fn mask_irq(&mut self) {
        self.masked = true;
    }
}

fn clean() -> CleanupEvidence {
    CleanupEvidence {
        enable_status: 0,
        interrupt_mask: 0,
        rx_level: 0,
        tx_level: 0,
        raw_status: 0,
        masked_status: 0,
        abort_source: 0,
        owned_irq_enabled: false,
        owned_irq_pending: false,
        owned_irq_active: false,
        irq_count_before: 0,
        irq_count_after: 0,
        quiet_conditions_held: true,
        quiet_elapsed_ticks: 4_000,
        quiet_required_ticks: 4_000,
    }
}

fn armed(length: usize) -> (RxState, u32) {
    let mut engine = RxState::new(32, 32).unwrap();
    engine.record_cleanup(0, clean()).unwrap();
    let g = engine.arm_read(length).unwrap();
    (engine, g)
}

#[test]
fn rx_depth_decodes_its_own_field() {
    assert_eq!(rx_fifo_depth(31 << 8), 32);
    assert_eq!(rx_fifo_depth(0), 1);
    assert_eq!(rx_fifo_depth(0xffff_ffff), 256);
}

#[test]
fn prime_queues_commands_and_never_pops() {
    let (mut engine, g) = armed(3);
    let mut port = Traced::new(FakePort::new());
    let evidence = prime(&mut port, &mut engine, g);
    assert_eq!(port.io.commands, vec![0x100, 0x100, 0x300]);
    assert_eq!(evidence.queued, 3);
    assert_eq!(evidence.pop_attempts, 0);
    assert_eq!(engine.counts(), (3, 3, 0));
    assert!(evidence.rejected.is_none() && evidence.fault.is_none());
    assert_eq!(port.io.acks, vec![0]);

    // Bytes that no command asked for are a geometry fault, not data.
    let (mut engine, g) = armed(3);
    let mut port = Traced::new(FakePort::new());
    port.io.fifo.push(0x99);
    let evidence = prime(&mut port, &mut engine, g);
    assert_eq!(evidence.fault, Some(AdapterFault::ObservedGeometry));
    assert_eq!(evidence.pop_attempts, 0);
    assert_eq!(port.io.fifo, vec![0x99]);
    assert!(port.io.commands.is_empty());
}

#[test]
fn service_pops_received_bytes_and_completes_on_stop() {
    let (mut engine, g) = armed(2);
    let mut port = Traced::new(FakePort::new());
    prime(&mut port, &mut engine, g);
    port.io.fifo = vec![0x1a5, 0x5a];
    port.io.causes = STOP_DET;
    let evidence = service_irq(&mut port, &mut engine, g);
    assert_eq!(evidence.pop_attempts, 2);
    assert_eq!(evidence.popped, 2);
    assert_eq!(evidence.last_word, Some(0x5a));
    assert_eq!(engine.bytes(), &[0xa5, 0x5a]);
    assert_eq!(engine.state(), State::Complete);
    assert!(evidence.first_stop.is_some());
    assert!(port.io.masked);
}

#[test]
fn stale_generation_changes_nothing_and_masks() {
    let (mut engine, g) = armed(1);
    let mut port = Traced::new(FakePort::new());
    let before = (engine.counts(), engine.state(), engine.generation());
    let evidence = service_irq(&mut port, &mut engine, g + 1);
    assert_eq!(evidence.rejected, Some(Rejected::StaleGeneration));
    assert_eq!((engine.counts(), engine.state(), engine.generation()), before);
    assert!(port.io.masked);
    assert!(port.io.commands.is_empty());
}

#[test]
fn control_fault_and_fatal_causes_end_the_request() {
    let (mut engine, g) = armed(1);
    let mut port = Traced::new(FakePort::new());
    port.io.enabled = false;
    let evidence = prime(&mut port, &mut engine, g);
    assert_eq!(evidence.fault, Some(AdapterFault::Control));
    assert_eq!(engine.state(), State::Failed(Error::Adapter));

    let (mut engine, g) = armed(1);
    let mut port = Traced::new(FakePort::new());
    port.io.abort = 0x10;
    let evidence = prime(&mut port, &mut engine, g);
    assert!(evidence.first_fatal.is_some());
    assert_eq!(engine.state(), State::Failed(Error::Fatal { causes: 0, abort_source: 0x10 }));
}

#[test]
fn impossible_rx_levels_fail_before_any_pop() {
    let (mut engine, g) = armed(1);
    let mut port = Traced::new(FakePort::new());
    prime(&mut port, &mut engine, g);
    port.io.fifo = vec![1, 2];
    let evidence = service_irq(&mut port, &mut engine, g);
    assert_eq!(evidence.rejected, Some(Rejected::RequestFailed(Error::InvalidRxLevel(2))));
    assert_eq!(evidence.pop_attempts, 0);
    assert_eq!(port.io.fifo.len(), 2);
    assert_eq!(engine.state(), State::Failed(Error::InvalidRxLevel(2)));

    let (mut engine, g) = armed(1);
    let mut port = Traced::new(FakePort::new());
    prime(&mut port, &mut engine, g);
    port.io.fifo = vec![0; 33];
    let evidence = service_irq(&mut port, &mut engine, g);
    assert_eq!(evidence.fault, Some(AdapterFault::ObservedGeometry));
    assert_eq!(evidence.pop_attempts, 0);
    assert_eq!(engine.state(), State::Failed(Error::Adapter));
}

#[test]
fn inactive_engine_rejects_the_current_generation_and_masks() {
    let (mut engine, g) = armed(1);
    engine.timeout(g).unwrap();
    let mut port = Traced::new(FakePort::new());
    port.io.fifo = vec![0x42];
    let before = (engine.counts(), engine.state(), engine.generation());
    let evidence = service_irq(&mut port, &mut engine, g);
    assert_eq!(evidence.rejected, Some(Rejected::Inactive));
    assert_eq!((evidence.queued, evidence.pop_attempts, evidence.acknowledged), (0, 0, 0));
    assert_eq!((engine.counts(), engine.state(), engine.generation()), before);
    assert!(port.io.masked);
    assert!(port.io.acks.is_empty());
    assert_eq!(port.io.fifo, vec![0x42]);
    let evidence = prime(&mut port, &mut engine, g);
    assert_eq!(evidence.rejected, Some(Rejected::Inactive));
    assert!(port.io.commands.is_empty());
}
