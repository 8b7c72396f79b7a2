use rp1::i2c_rx_state::{
    CleanupError, CleanupEvidence, Error, Mismatch, Pending, Rejected, RxState, State,
    FATAL_CAUSES, MAX_LEN, STOP_DET,
};

fn clean() -> CleanupEvidence {
    CleanupEvidence {
        enable_status: 0,
        interrupt_mask: 0,
        rx_level: 0,
        tx_level: 0,
        raw_status: 0,
        masked_status: 0,
        abort_source: 0,
        owned_irq_enabled: false,
        owned_irq_pending: false,
        owned_irq_active: false,
        irq_count_before: 7,
        irq_count_after: 7,
        quiet_conditions_held: true,
        quiet_elapsed_ticks: 4_000,
        quiet_required_ticks: 4_000,
    }
}
fn armed(expected: &[u8], rx: u16, tx: u16) -> (RxState, u32) {
    let mut s = RxState::new(rx, tx).unwrap();
    assert_eq!(s.record_cleanup(0, clean()), Ok(()));
    let g = s.arm(expected).unwrap();
    (s, g)
}
fn issue(s: &mut RxState, g: u32, tx_level: u32) -> u32 {
    let command = s.prepare_read(g, tx_level).unwrap().unwrap();
    let word = command.word();
    s.record_issued(command).unwrap(); // simulated successful hardware write
    word
}
fn pop(s: &mut RxState, g: u32, level: u32, byte: u8) {
    let permit = s.prepare_pop(g, level).unwrap().unwrap();
    s.record_pop(permit, Some(byte)).unwrap(); // simulated guarded physical pop
}

#[test]
fn unpredictable_payload_retains_geometry_stop_and_cleanup_contracts() {
    let mut s = RxState::new(2, 2).unwrap();
    assert_eq!(s.arm_read(1), Err(Rejected::NotClean));
    s.record_cleanup(0, clean()).unwrap();
    for length in [0, MAX_LEN+1, usize::MAX] {
        assert_eq!(s.arm_read(length), Err(Rejected::InvalidLength));
    }
    for length in [1, 2, 31, 32, 33] {
        let g = s.arm_read(length).unwrap();
        for n in 0..length {
            assert_eq!(issue(&mut s,g,0), 0x100 | if n+1==length {0x200} else {0});
            pop(&mut s,g,1,(n as u8).wrapping_mul(13)^0xa7);
        }
        assert_eq!(s.observe(g,0,0), Ok(State::Active));
        assert_eq!(s.observe(g,STOP_DET,0), Ok(State::Complete));
        assert_eq!(s.first_mismatch(),None);
        for (n,byte) in s.bytes().iter().enumerate() { assert_eq!(*byte,(n as u8).wrapping_mul(13)^0xa7); }
        s.record_cleanup(g,clean()).unwrap();
    }
    // Explicit expected-payload mode still rejects a mismatch after reuse.
    let g=s.arm(&[0]).unwrap();issue(&mut s,g,0);pop(&mut s,g,1,0xff);
    assert_eq!(s.observe(g,STOP_DET,0),Ok(State::Failed(Error::Mismatch)));
}

#[test]
fn boundary_lengths_credits_tx_capacity_stop_orders_and_rearm() {
    for rx in [1, 2, 31, 32] {
        for tx in [1, 2, 31, 32] {
            let mut s = RxState::new(rx, tx).unwrap();
            for len in [1, 2, 31, 32, 33] {
                for stop_first in [false, true] {
                    let expected: [u8; MAX_LEN] = core::array::from_fn(|i| {
                        (i as u8).wrapping_mul(7) ^ s.generation() as u8
                    });
                    assert_eq!(s.record_cleanup(s.generation(), clean()), Ok(()));
                    let previous = s.generation();
                    let g = s.arm(&expected[..len]).unwrap();
                    assert_eq!(g, previous + 1);
                    let mut command_count = 0;
                    let mut stop_commands = 0;
                    while s.drained < s.requested {
                        // Simulated TX accepts at most depth commands before
                        // the bus consumes that batch and produces RX bytes.
                        let mut tx_level = 0;
                        while let Some(command) = s.prepare_read(g, tx_level).unwrap() {
                            stop_commands += usize::from(command.word() == 0x300);
                            command_count += 1;
                            assert_eq!(command.word() == 0x300, command_count == len);
                            s.record_issued(command).unwrap();
                            tx_level += 1;
                            assert!(tx_level <= u32::from(tx));
                            assert!(u16::from(s.issued - s.drained) <= rx);
                        }
                        assert!(s.issued > s.drained);
                        let terminal_batch = s.issued == s.requested;
                        if stop_first && terminal_batch {
                            assert_eq!(s.observe(g, STOP_DET, 0), Ok(State::Active));
                        }
                        while s.drained < s.issued {
                            let byte = expected[usize::from(s.drained)];
                            let level = u32::from(s.issued - s.drained);
                            pop(&mut s, g, level, byte);
                            assert_eq!(s.state(), State::Active);
                        }
                        let stop = if terminal_batch && !stop_first {
                            STOP_DET
                        } else {
                            0
                        };
                        s.observe(g, stop, 0).unwrap();
                    }
                    assert_eq!(command_count, len);
                    assert_eq!(stop_commands, 1);
                    assert_eq!(s.counts(), (len as u8, len as u8, len as u8));
                    assert_eq!(s.state(), State::Complete);
                    assert_eq!(s.bytes(), &expected[..len]);
                    assert!(s.stop_seen());
                    assert_eq!(s.first_mismatch(), None);
                    assert_eq!(s.arm(&[1]), Err(Rejected::NotClean));
                }
            }
        }
    }
}

#[test]
fn validation_empty_pop_and_full_width_levels() {
    for (rx, tx) in [(0, 32), (32, 0), (257, 32), (32, 257)] {
        assert!(matches!(RxState::new(rx, tx), Err(Rejected::InvalidDepth)));
    }
    let mut s = RxState::new(32, 32).unwrap();
    assert_eq!(s.arm(&[1]), Err(Rejected::NotClean));
    assert_eq!(s.arm(&[]), Err(Rejected::InvalidLength));
    assert_eq!(s.arm(&[0; 34]), Err(Rejected::InvalidLength));
    s.record_cleanup(0, clean()).unwrap();
    let g = s.arm(&[1]).unwrap();
    assert!(s.prepare_pop(g, 0).unwrap().is_none());
    assert_eq!(s.drained, 0);
    assert!(s.prepare_read(g, 32).unwrap().is_none());
    issue(&mut s, g, 0);
    let permit = s.prepare_pop(g, 1).unwrap().unwrap();
    assert_eq!(
        s.record_pop(permit, None),
        Err(Rejected::RequestFailed(Error::EmptyPop))
    );
    assert!(s.bytes().is_empty());
    for bad in [2, 31, 32, 33, 256, u32::MAX] {
        let (mut s, g) = armed(&[1], 32, 32);
        issue(&mut s, g, 0);
        assert!(
            matches!(s.prepare_pop(g, bad), Err(Rejected::RequestFailed(Error::InvalidRxLevel(v))) if v == bad)
        );
        assert!(s.bytes().is_empty());
    }
    let (mut s, g) = armed(&[0; 33], 32, 32);
    for _ in 0..32 {
        issue(&mut s, g, 0);
    }
    assert!(matches!(
        s.prepare_pop(g, 33),
        Err(Rejected::RequestFailed(Error::InvalidRxLevel(33)))
    ));
    for bad in [33, 256, u32::MAX] {
        let (mut s, g) = armed(&[1], 32, 32);
        assert!(
            matches!(s.prepare_read(g, bad), Err(Rejected::RequestFailed(Error::InvalidTxLevel(v))) if v == bad)
        );
        assert_eq!(s.issued, 0);
    }
    let (mut s, g) = armed(&[1], 32, 32);
    assert!(matches!(
        s.prepare_pop(g, 1),
        Err(Rejected::RequestFailed(Error::InvalidRxLevel(1)))
    ));
}

#[test]
fn exact_completion_requires_stop_and_final_error_check() {
    let (mut s, g) = armed(&[0xa5], 32, 32);
    issue(&mut s, g, 0);
    pop(&mut s, g, 1, 0xa5);
    assert_eq!(s.observe(g, 4, 0), Ok(State::Active));
    assert_eq!(s.observe(g, STOP_DET, 0), Ok(State::Complete));
    let (mut s, g) = armed(&[1, 2], 32, 32);
    issue(&mut s, g, 0);
    assert_eq!(
        s.observe(g, STOP_DET, 0),
        Ok(State::Failed(Error::PrematureStop))
    );
    for fatal in [1, 2, 8, 64] {
        for mismatch in [false, true] {
            let (mut s, g) = armed(&[0xa5], 32, 32);
            issue(&mut s, g, 0);
            s.observe(g, STOP_DET, 0).unwrap();
            pop(&mut s, g, 1, if mismatch { 0x5a } else { 0xa5 });
            assert_eq!(
                s.observe(g, STOP_DET | fatal, 0),
                Ok(State::Failed(Error::Fatal {
                    causes: fatal,
                    abort_source: 0
                }))
            );
            assert_eq!(s.drained, 1);
        }
    }
    let (mut s, g) = armed(&[1], 32, 32);
    issue(&mut s, g, 0);
    assert_eq!(
        s.observe(g, STOP_DET, 0x1234),
        Ok(State::Failed(Error::Fatal {
            causes: 0,
            abort_source: 0x1234
        }))
    );
    assert!(s.bytes().is_empty());
    assert!(matches!(s.prepare_pop(g, 1), Err(Rejected::Inactive)));
}

#[test]
fn first_mismatch_and_payload_evidence_survive_failure_cleanup() {
    let (mut s, g) = armed(&[1, 2, 3], 32, 32);
    for _ in 0..3 {
        issue(&mut s, g, 0);
    }
    for (level, byte) in [(3, 1), (2, 8), (1, 9)] {
        pop(&mut s, g, level, byte);
    }
    let mismatch = Some(Mismatch {
        index: 1,
        expected: 2,
        actual: 8,
    });
    assert_eq!(s.first_mismatch(), mismatch);
    assert_eq!(
        s.observe(g, STOP_DET, 0),
        Ok(State::Failed(Error::Mismatch))
    );
    assert_eq!(s.bytes(), &[1, 8, 9]);
    s.record_cleanup(g, clean()).unwrap();
    assert_eq!(s.state(), State::Failed(Error::Mismatch));
    assert_eq!(s.first_mismatch(), mismatch);
}

#[test]
fn terminal_late_events_and_stale_generation_cannot_resurrect() {
    for terminal in [
        State::Complete,
        State::TimedOut,
        State::Failed(Error::Mismatch),
    ] {
        let (mut s, g) = armed(&[1], 32, 32);
        issue(&mut s, g, 0);
        if terminal == State::TimedOut {
            s.timeout(g).unwrap();
        } else {
            pop(
                &mut s,
                g,
                1,
                if terminal == State::Complete { 1 } else { 2 },
            );
            s.observe(g, STOP_DET, 0).unwrap();
        }
        let counts = s.counts();
        assert_eq!(
            s.observe(g, STOP_DET | FATAL_CAUSES, 1),
            Err(Rejected::Inactive)
        );
        assert_eq!(s.timeout(g), Err(Rejected::Inactive));
        assert!(matches!(s.prepare_read(g, 0), Err(Rejected::Inactive)));
        assert!(matches!(s.prepare_pop(g, 1), Err(Rejected::Inactive)));
        assert_eq!(s.state(), terminal);
        assert_eq!(s.counts(), counts);
        assert_eq!(s.arm(&[2]), Err(Rejected::NotClean));
        s.record_cleanup(g, clean()).unwrap();
        let next = s.arm(&[2]).unwrap();
        assert_eq!(next, g + 1);
        assert_eq!(s.observe(g, STOP_DET, 0), Err(Rejected::StaleGeneration));
        assert_eq!(s.timeout(g), Err(Rejected::StaleGeneration));
        assert!(matches!(
            s.prepare_read(g, 0),
            Err(Rejected::StaleGeneration)
        ));
        assert!(matches!(
            s.prepare_pop(g, 1),
            Err(Rejected::StaleGeneration)
        ));
        assert_eq!(s.record_cleanup(g, clean()), Err(Rejected::StaleGeneration));
        assert_eq!(s.state(), State::Active);
        assert_eq!(s.counts(), (1, 0, 0));
        assert!(!s.stop_seen());
        assert!(s.bytes().is_empty());
        assert_eq!(s.first_mismatch(), None);
    }
}

#[test]
fn failed_cleanup_blocks_rearm_without_overwriting_primary() {
    for field in 0..16 {
        let (mut s, g) = armed(&[1], 32, 32);
        s.timeout(g).unwrap();
        let mut e = clean();
        match field {
            0 => e.enable_status = 1,
            1 => e.interrupt_mask = 1,
            2 => e.rx_level = 1,
            3 => e.tx_level = 1,
            4 => e.raw_status = STOP_DET,
            5 => e.masked_status = 1,
            6 => e.abort_source = 1,
            7 => e.owned_irq_enabled = true,
            8 => e.owned_irq_pending = true,
            9 => e.owned_irq_active = true,
            10 => e.irq_count_after += 1,
            11 => e.quiet_conditions_held = false,
            12 => e.quiet_elapsed_ticks -= 1,
            13 => e.quiet_required_ticks = 0,
            14 => e.raw_status = 4,
            15 => e.raw_status = FATAL_CAUSES,
            _ => unreachable!(),
        }
        assert!(matches!(
            s.record_cleanup(g, e),
            Err(Rejected::CleanupFailed(_))
        ));
        let first_error = s.cleanup_error();
        assert!(first_error.is_some());
        assert_eq!(s.state(), State::TimedOut);
        assert_eq!(s.primary_error(), Some(Error::Timeout));
        assert_eq!(s.arm(&[2]), Err(Rejected::NotClean));
        s.record_cleanup(g, clean()).unwrap();
        assert_eq!(s.cleanup_error(), first_error);
        assert_eq!(s.state(), State::TimedOut);
        assert_eq!(s.arm(&[2]), Ok(g + 1));
        assert_eq!(s.cleanup_error(), None);
        assert_eq!(s.record_cleanup(g + 1, clean()), Err(Rejected::PendingIo));
    }
}

#[test]
fn operations_are_single_use_and_cannot_cross_timeout_or_generation() {
    let (mut s, g) = armed(&[1], 32, 32);
    let command = s.prepare_read(g, 0).unwrap().unwrap();
    assert_eq!(s.issued, 0);
    assert!(matches!(s.prepare_read(g, 0), Err(Rejected::PendingIo)));
    assert!(matches!(s.prepare_pop(g, 0), Err(Rejected::PendingIo)));
    s.timeout(g).unwrap();
    s.record_cleanup(g, clean()).unwrap();
    let next = s.arm(&[1]).unwrap();
    assert_eq!(s.record_issued(command), Err(Rejected::StaleGeneration));
    issue(&mut s, next, 0);
    let permit = s.prepare_pop(next, 1).unwrap().unwrap();
    assert!(matches!(s.prepare_pop(next, 1), Err(Rejected::PendingIo)));
    s.timeout(next).unwrap();
    assert_eq!(s.record_pop(permit, Some(1)), Err(Rejected::Inactive));
    assert!(s.bytes().is_empty());
    s.record_cleanup(next, clean()).unwrap();
    s.generation = u32::MAX; // exercise the production checked_add boundary
    assert_eq!(s.arm(&[1]), Err(Rejected::GenerationExhausted));
    assert_eq!(s.generation(), u32::MAX);
    assert_eq!(s.state(), State::TimedOut);
    assert!(s.is_clean());
}

#[test]
fn cleanup_failure_is_not_receive_success_or_a_primary_rewrite() {
    let (mut s, g) = armed(&[1], 32, 32);
    issue(&mut s, g, 0);
    pop(&mut s, g, 1, 1);
    assert_eq!(s.observe(g, STOP_DET, 0), Ok(State::Complete));
    let mut dirty = clean();
    dirty.rx_level = 1;
    assert_eq!(
        s.record_cleanup(g, dirty),
        Err(Rejected::CleanupFailed(CleanupError::FifoNotEmpty))
    );
    assert_eq!(s.state(), State::Complete); // protocol only, not clean/HW PASS
    assert_eq!(s.primary_error(), None);
    assert_eq!(s.cleanup_error(), Some(CleanupError::FifoNotEmpty));
    assert_eq!(s.arm(&[2]), Err(Rejected::NotClean));

    let (mut s, g) = armed(&[1], 32, 32);
    let uncommitted = s.prepare_read(g, 0).unwrap().unwrap();
    assert_eq!(s.observe(g, 0, 0), Ok(State::Failed(Error::UncommittedIo)));
    assert_eq!(s.record_issued(uncommitted), Err(Rejected::Inactive));
    assert_eq!(s.counts(), (1, 0, 0));
}

#[test]
fn adapter_fault_invalidates_pending_tokens_and_recovers_without_rewriting_failure() {
    for pending in [Pending::NoAccess, Pending::Read, Pending::Pop] {
        for reject_after_rearm in [false, true] {
            let (mut s, g) = armed(&[0xa5, 0x5a], 32, 32);
            issue(&mut s, g, 0);
            pop(&mut s, g, 1, 0xa5);
            let (command, permit) = match pending {
                Pending::NoAccess => (None, None),
                Pending::Read => (s.prepare_read(g, 0).unwrap(), None),
                Pending::Pop => {
                    issue(&mut s, g, 0);
                    s.observe(g, STOP_DET, 0).unwrap();
                    (None, s.prepare_pop(g, 1).unwrap())
                }
            };
            let before = (s.counts(), s.bytes, s.stop_seen(), s.first_mismatch());
            assert_eq!(s.fail_adapter(g), Ok(()));
            assert_eq!(s.state(), State::Failed(Error::Adapter));
            assert_eq!(s.primary_error(), Some(Error::Adapter));
            assert_eq!(s.pending, Pending::NoAccess);
            assert_eq!(
                (s.counts(), s.bytes, s.stop_seen(), s.first_mismatch()),
                before
            );
            assert_eq!(s.observe(g, STOP_DET, 0), Err(Rejected::Inactive));
            assert_eq!(s.timeout(g), Err(Rejected::Inactive));
            assert!(!s.is_clean());
            assert_eq!(s.arm(&[0x3c]), Err(Rejected::NotClean));

            let mut dirty = clean();
            dirty.enable_status = 1;
            assert_eq!(
                s.record_cleanup(g, dirty),
                Err(Rejected::CleanupFailed(CleanupError::NotDisabled))
            );
            assert_eq!(s.arm(&[0x3c]), Err(Rejected::NotClean));
            s.record_cleanup(g, clean()).unwrap();
            assert!(s.is_clean());
            assert_eq!(s.state(), State::Failed(Error::Adapter));
            assert_eq!(s.primary_error(), Some(Error::Adapter));
            assert_eq!(s.cleanup_error(), Some(CleanupError::NotDisabled));
            assert_eq!(s.bytes(), &[0xa5]);

            if reject_after_rearm {
                assert_eq!(s.arm(&[0x3c]), Ok(g + 1));
            }
            let rejection = if reject_after_rearm {
                Rejected::StaleGeneration
            } else {
                Rejected::Inactive
            };
            if let Some(command) = command {
                assert_eq!(s.record_issued(command), Err(rejection));
            }
            if let Some(permit) = permit {
                assert_eq!(s.record_pop(permit, Some(0x5a)), Err(rejection));
            }
            if !reject_after_rearm {
                assert_eq!(s.counts(), before.0);
                assert_eq!(s.bytes(), &[0xa5]);
                assert_eq!(s.arm(&[0x3c]), Ok(g + 1));
            }
            assert_eq!(s.counts(), (1, 0, 0));
            assert!(s.bytes().is_empty());
            assert!(!s.stop_seen());
            assert_eq!(s.first_mismatch(), None);
            assert_eq!(s.primary_error(), None);
            assert_eq!(s.cleanup_error(), None);
            assert_eq!(issue(&mut s, g + 1, 0), 0x300);
            pop(&mut s, g + 1, 1, 0x3c);
            assert_eq!(s.observe(g + 1, STOP_DET, 0), Ok(State::Complete));
            assert_eq!(s.bytes(), &[0x3c]);
            assert_eq!(s.counts(), (1, 1, 1));
        }
    }
}

#[test]
fn adapter_fault_rejects_wrong_generation_and_inactive_without_any_mutation() {
    // Every field, including pending tokens and hidden buffer tails.
    let snapshot = |s: &RxState| {
        (
            (
                s.rx_depth,
                s.tx_depth,
                s.generation,
                s.state,
                s.clean,
                s.cleanup_error,
            ),
            (
                s.requested,
                s.issued,
                s.drained,
                s.stop_seen,
                s.pending,
                s.expected,
                s.bytes,
                s.first_mismatch,
            ),
        )
    };
    for case in 0..9 {
        let mut s = RxState::new(32, 32).unwrap();
        s.record_cleanup(0, clean()).unwrap();
        if case != 0 {
            let g = s.arm(&[0xa5]).unwrap();
            match case {
                1 => {}
                2 => {
                    s.prepare_read(g, 0).unwrap().unwrap();
                }
                3 => {
                    issue(&mut s, g, 0);
                    s.prepare_pop(g, 1).unwrap().unwrap();
                }
                4 | 5 => {
                    issue(&mut s, g, 0);
                    pop(&mut s, g, 1, if case == 4 { 0xa5 } else { 0x5a });
                    s.observe(g, STOP_DET, 0).unwrap();
                }
                6 => s.timeout(g).unwrap(),
                7 => s.fail_adapter(g).unwrap(),
                8 => {
                    s.observe(g, STOP_DET | FATAL_CAUSES, 0x1234).unwrap();
                }
                _ => unreachable!(),
            }
            if s.state() != State::Active {
                let mut dirty = clean();
                dirty.interrupt_mask = 1;
                assert_eq!(
                    s.record_cleanup(g, dirty),
                    Err(Rejected::CleanupFailed(CleanupError::NotMasked))
                );
                s.record_cleanup(g, clean()).unwrap();
            }
        }
        let g = s.generation();
        let before = snapshot(&s);
        for wrong in [g.wrapping_sub(1), g + 1, u32::MAX] {
            assert_eq!(s.fail_adapter(wrong), Err(Rejected::StaleGeneration));
            assert_eq!(snapshot(&s), before);
        }
        if s.state() == State::Active {
            assert_eq!(s.fail_adapter(g), Ok(()));
            assert_eq!(s.state(), State::Failed(Error::Adapter));
            assert_eq!(s.pending, Pending::NoAccess);
        } else {
            assert_eq!(s.fail_adapter(g), Err(Rejected::Inactive));
            assert_eq!(snapshot(&s), before);
        }
    }
}

