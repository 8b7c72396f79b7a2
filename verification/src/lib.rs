//! RP1 firmware support library: boot-note and debug/RPC wire formats,
//! peripheral register sequencing over an abstract register bus, and the
//! receive state machines used by the interrupt-driven drivers.

pub mod debug;
pub mod rpc;
pub mod note;
pub mod config;
pub mod elf_check;
pub mod i2c_rx_state;
pub mod addr;
pub mod spi;
pub mod scmi_clock;
pub mod scmi_mailbox;
pub mod scmi;
pub mod rpc_service;
pub mod bus;
pub mod clock_adopt;
pub mod reset;
pub mod timer;
pub mod gpio;
pub mod pwm;
pub mod i2c;
pub mod uart;
pub mod rtos;
pub mod uart0_rx;
pub mod fault;
pub mod irq_route;
pub mod warm_data;
pub mod mailbox;
pub mod spi0_driver;
pub mod i2c_rx_irq_adapter;
pub mod i2c1_driver;
pub mod peripherals;
pub mod debug_stub;
