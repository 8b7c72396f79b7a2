# rp1

Support library for firmware on the RP1 I/O controller's Cortex-M3
cores, with its behaviour stated as Verus contracts and proved.

- `src/` — the verified library:
  - wire formats: the `.note.rp1` boot note and build configuration
    (`note`, `config`), the debug mailbox and its snapshot responses
    (`debug`, `debug_stub`), the host RPC slots (`rpc`, `rpc_service`), the
    SCMI clock protocol and its shared-memory mailbox (`scmi_clock`,
    `scmi_mailbox`, `scmi`), and the boot loader's ELF requirements
    (`elf_check`, which parses with `goblin`);
  - register sequencing over the abstract bus of `bus` for clocks, resets,
    GPIO, PWM, the timer, UART0, I2C1 and SPI0;
  - the receive state machines of the interrupt-driven drivers and the
    decisions of their task sides (`i2c_rx_state`, `i2c_rx_irq_adapter`,
    `i2c1_driver`, `spi::receive`, `spi0_driver`, `uart0_rx`), the
    interrupt routes (`irq_route`), fault verdicts (`fault`) and the warm
    restart of `.data` (`warm_data`).
- `tests/` — tests of the library on concrete values.
- `app/` — the `cargo rp1` command (configuration file, ELF note
  attachment, loader check) and the firmware's hardware side: volatile
  register access, the kernel waits and the interrupt handlers that run
  the library's decisions.

Each module's doc comment says what it models; the laws that relate
several operations are the public proof functions named `lemma_*`.
