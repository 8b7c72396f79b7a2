use rp1::scmi::{
    doorbell_decision, init_shmem, init_uart_clock_server, ALL_UART_VOTES, CLK_CTRL_ENABLE,
    FLAGS_WORD, HEADER_WORD, LENGTH_WORD, PLL_PH_EN, SCMI_CLOCK_COUNT, SCMI_CLOCK_UART,
    SCMI_CLOCK_UART_APB, SCMI_DOORBELL_MASK, SHMEM_CHANNEL_FREE, SHMEM_FLAG_INTR_ENABLED,
    STATUS_WORD, VOTE_UART, VOTE_UART_APB,
};

#[test]
fn exposes_uart_functional_and_apb_clocks() {
    assert_eq!(SCMI_CLOCK_COUNT, 2);
    assert_eq!(SCMI_CLOCK_UART, 0);
    assert_eq!(SCMI_CLOCK_UART_APB, 1);
    assert_eq!(VOTE_UART, 1);
    assert_eq!(VOTE_UART_APB, 2);
    assert_eq!(ALL_UART_VOTES, 3);
}

#[test]
fn firmware_votes_combine_with_linux_votes() {
    let mut server = init_uart_clock_server();
    assert_eq!(server.combined_votes(), ALL_UART_VOTES);
    server.set_firmware_uart_votes(true, false);
    assert_eq!(server.combined_votes(), VOTE_UART);
    server.set_firmware_uart_vote(false);
    assert_eq!(server.combined_votes(), 0);
    server.linux_votes = VOTE_UART_APB;
    assert_eq!(server.combined_votes(), VOTE_UART_APB);
    assert_eq!(server.apply_clock_votes(0xffff_ffff, 0), (0xffff_ffff & !CLK_CTRL_ENABLE, PLL_PH_EN));
}

#[test]
fn shared_memory_starts_free_with_interrupts_on() {
    let mut shmem = vec![0xdead_beefu32; 64];
    init_shmem(&mut shmem);
    assert_eq!(shmem[STATUS_WORD], SHMEM_CHANNEL_FREE);
    assert_eq!(shmem[FLAGS_WORD], SHMEM_FLAG_INTR_ENABLED);
    assert_eq!(shmem[LENGTH_WORD], 0);
    assert_eq!(shmem[HEADER_WORD], 0);
    assert_eq!(shmem[0], 0xdead_beef);
}

#[test]
fn doorbell_serves_only_a_busy_channel_that_rang() {
    assert_eq!(doorbell_decision(SCMI_DOORBELL_MASK, 0), (true, true));
    assert_eq!(doorbell_decision(SCMI_DOORBELL_MASK, SHMEM_CHANNEL_FREE), (true, false));
    assert_eq!(doorbell_decision(1, 0), (false, false));
}
