use rp1::addr::SPI0_BASE;
use rp1::spi::{
    BAUD_DIV_100KHZ_AT_200MHZ, CS_OVERRIDE, CTRLR0, CTRLR0_DFS_8BIT_TX_ONLY_MODE0, DR, IMR,
    IRQ_TXEI, ISR, RISR, SR, SR_BUSY, SR_TX_EMPTY, SR_TX_NOT_FULL, VERSION,
};

#[test]
fn register_map_matches_rp1_designware_spi0() {
    assert_eq!(SPI0_BASE, 0x4005_0000);
    assert_eq!(SPI0_BASE + CTRLR0, 0x4005_0000);
    assert_eq!(SPI0_BASE + SR, 0x4005_0028);
    assert_eq!(SPI0_BASE + IMR, 0x4005_002c);
    assert_eq!(SPI0_BASE + ISR, 0x4005_0030);
    assert_eq!(SPI0_BASE + RISR, 0x4005_0034);
    assert_eq!(SPI0_BASE + VERSION, 0x4005_005c);
    assert_eq!(SPI0_BASE + DR, 0x4005_0060);
    assert_eq!(SPI0_BASE + CS_OVERRIDE, 0x4005_00f4);
}

#[test]
fn mode0_transmit_only_control_uses_eight_bit_frames() {
    assert_eq!(CTRLR0_DFS_8BIT_TX_ONLY_MODE0, 0x0007_0100);
    assert_eq!(CTRLR0_DFS_8BIT_TX_ONLY_MODE0 & 0x300, 0x100);
    assert_eq!(CTRLR0_DFS_8BIT_TX_ONLY_MODE0 & 0xc0, 0);
}

#[test]
fn baud_divisor_is_even_and_targets_100khz_from_200mhz() {
    assert_eq!(BAUD_DIV_100KHZ_AT_200MHZ, 2_000);
    assert_eq!(BAUD_DIV_100KHZ_AT_200MHZ & 1, 0);
    assert_eq!(200_000_000 / BAUD_DIV_100KHZ_AT_200MHZ, 100_000);
}

#[test]
fn status_masks_match_designware_contract() {
    assert_eq!(SR_BUSY, 1);
    assert_eq!(SR_TX_NOT_FULL, 2);
    assert_eq!(SR_TX_EMPTY, 4);
}

#[test]
fn tx_empty_irq_uses_only_designware_bit0() {
    assert_eq!(IRQ_TXEI, 1);
}

#[test]
fn interrupt_source_offsets_are_adjacent_after_mask() {
    assert_eq!(ISR, IMR + 4);
    assert_eq!(RISR, ISR + 4);
}
