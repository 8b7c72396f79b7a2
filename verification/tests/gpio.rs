use rp1::gpio::{
    gpio_bit, gpio_ctrl_addr, gpio_pad_addr, PAD_IE, PAD_OD, PAD_PULL_MASK,
    PAD_PULL_UP, PAD_SCHMITT, SYS_RIO_IN,
};

#[test]
fn gpio_ctrl_addresses_match_golden_sequence() {
    assert_eq!(gpio_ctrl_addr(0), 0x400d_0004);
    assert_eq!(gpio_ctrl_addr(17), 0x400d_008c);
    assert_eq!(gpio_ctrl_addr(22), 0x400d_00b4);
}

#[test]
fn gpio_pad_addresses_match_golden_sequence() {
    assert_eq!(gpio_pad_addr(0), 0x400f_0004);
    assert_eq!(gpio_pad_addr(17), 0x400f_0048);
    assert_eq!(gpio_pad_addr(22), 0x400f_005c);
}

#[test]
fn gpio_bits_match_sys_rio_mask() {
    assert_eq!(gpio_bit(22), 0x0040_0000);
}

#[test]
fn input_pad_contract_uses_pull_up_without_enabling_output() {
    let value = PAD_SCHMITT | PAD_IE | PAD_OD | PAD_PULL_UP;
    assert_eq!(value & PAD_PULL_MASK, PAD_PULL_UP);
    assert_ne!(value & PAD_IE, 0);
    assert_ne!(value & PAD_OD, 0);
    assert_eq!(SYS_RIO_IN, 0x400e_0008);
}
