use rp1::addr::I2C1_BASE;
use rp1::i2c::{
    data_command, tx_fifo_depth, IC_COMP_TYPE, IC_CON, IC_CON_MASTER_STD_RESTART, IC_DATA_CMD,
    IC_DATA_CMD_STOP, IC_ENABLE, IC_SDA_HOLD_200MHZ, IC_SS_HCNT_200MHZ, IC_SS_LCNT_200MHZ,
};

#[test]
fn register_map_matches_rp1_designware_i2c1() {
    assert_eq!(I2C1_BASE, 0x4007_4000);
    assert_eq!(I2C1_BASE + IC_CON, 0x4007_4000);
    assert_eq!(I2C1_BASE + IC_DATA_CMD, 0x4007_4010);
    assert_eq!(I2C1_BASE + IC_ENABLE, 0x4007_406c);
    assert_eq!(I2C1_BASE + IC_COMP_TYPE, 0x4007_40fc);
}

#[test]
fn standard_master_configuration_matches_linux_contract() {
    assert_eq!(IC_CON_MASTER_STD_RESTART, 0x63);
    assert_eq!(IC_SS_HCNT_200MHZ, 781);
    assert_eq!(IC_SS_LCNT_200MHZ, 1_186);
    assert_eq!(IC_SDA_HOLD_200MHZ, 593);
}

#[test]
fn fifo_depth_decodes_component_parameter() {
    assert_eq!(tx_fifo_depth(31 << 16), 32);
    assert_eq!(tx_fifo_depth(1 << 16), 2);
}

#[test]
fn terminal_command_sets_stop_only() {
    assert_eq!(u32::from(0x5a_u8) | IC_DATA_CMD_STOP, 0x25a);
}

#[test]
fn data_command_adds_stop_to_the_last_byte() {
    assert_eq!(data_command(0x5a, true), 0x25a);
    assert_eq!(data_command(0x5a, false), 0x5a);
    assert_eq!(tx_fifo_depth(0xffff_ffff), 256);
    assert_eq!(tx_fifo_depth(0), 1);
}
