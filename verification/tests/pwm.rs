use rp1::pwm::{
    gpio12_ctrl_value, gpio12_pad_value, Pwm0Config, CLK_PWM0_CTRL, CLK_PWM0_DIV_FRAC,
    CLK_PWM0_DIV_INT, CLK_PWM0_SEL, CLK_SEL_AUX, GPIO_CTRL_FUNCSEL_MASK, GPIO_CTRL_OVERRIDE_MASK,
    GPIO_FUNCSEL_PWM0_CH0, PAD_INPUT_ENABLE, PAD_OUTPUT_DISABLE, PAD_PULL_MASK, PWM_CH0_CTRL,
    PWM_CH0_DUTY, PWM_CH0_RANGE, PWM_GLOBAL_CTRL, RESET_CLEAR1, RESET_PWM0,
};

#[test]
fn pwm0_register_contract_matches_official_map() {
    assert_eq!(CLK_PWM0_CTRL, 0x4001_8074);
    assert_eq!(CLK_PWM0_DIV_INT, 0x4001_8078);
    assert_eq!(CLK_PWM0_DIV_FRAC, 0x4001_807c);
    assert_eq!(CLK_PWM0_SEL, 0x4001_8080);
    assert_eq!(CLK_SEL_AUX, 1);
    assert_eq!(RESET_CLEAR1, 0x4001_7004);
    assert_eq!(RESET_PWM0, 1 << 4);
    assert_eq!(PWM_GLOBAL_CTRL, 0x4009_8000);
    assert_eq!(PWM_CH0_CTRL, 0x4009_8014);
    assert_eq!(PWM_CH0_RANGE, 0x4009_8018);
    assert_eq!(PWM_CH0_DUTY, 0x4009_8020);
}

#[test]
fn gpio12_pwm0_pinmux_preserves_unrelated_fields() {
    let original = 0xa5a4_0fff | GPIO_CTRL_OVERRIDE_MASK;
    let ctrl = gpio12_ctrl_value(original);
    assert_eq!(ctrl & GPIO_CTRL_FUNCSEL_MASK, GPIO_FUNCSEL_PWM0_CH0);
    assert_eq!(ctrl & GPIO_CTRL_OVERRIDE_MASK, 0);
    assert_eq!(
        ctrl & !(GPIO_CTRL_FUNCSEL_MASK | GPIO_CTRL_OVERRIDE_MASK),
        original & !(GPIO_CTRL_FUNCSEL_MASK | GPIO_CTRL_OVERRIDE_MASK)
    );

    let pad = gpio12_pad_value(0xffff_ffff);
    assert_eq!(pad & PAD_PULL_MASK, 0);
    assert_eq!(pad & PAD_OUTPUT_DISABLE, 0);
    assert_eq!(pad & PAD_INPUT_ENABLE, PAD_INPUT_ENABLE);
}

#[test]
fn proof_configs_are_valid_for_50mhz_clock() {
    let low = Pwm0Config::new(5_000_000, 1_250_000);
    let high = Pwm0Config::new(50_000, 37_500);
    assert!(low.valid());
    assert!(high.valid());
    assert_eq!(50_000_000 / low.range, 10);
    assert_eq!(low.duty * 100 / low.range, 25);
    assert_eq!(50_000_000 / high.range, 1_000);
    assert_eq!(high.duty * 100 / high.range, 75);
}

#[test]
fn zero_range_or_excess_duty_is_invalid() {
    assert!(!Pwm0Config::new(0, 0).valid());
    assert!(!Pwm0Config::new(10, 11).valid());
    assert!(Pwm0Config::new(10, 10).valid());
    assert_eq!(gpio12_pad_value(0), PAD_INPUT_ENABLE);
}

/// PWM0 and its neighbours as memory, except that GLOBAL takes an update
/// request at once and RESET_DONE1 and CLK_PWM0_SEL report ready.
struct PwmBus {
    words: std::collections::HashMap<usize, u32>,
    writes: Vec<(usize, u32)>,
}

impl rp1::bus::Mmio for PwmBus {
    fn read32(&mut self, addr: usize) -> u32 {
        *self.words.get(&addr).unwrap_or(&0)
    }
    fn write32(&mut self, addr: usize, value: u32) {
        self.writes.push((addr, value));
        let stored = if addr == PWM_GLOBAL_CTRL { value & !(1 << 31) } else { value };
        self.words.insert(addr, stored);
    }
}

fn pwm_bus() -> rp1::bus::Bus<PwmBus> {
    let mut words = std::collections::HashMap::new();
    words.insert(rp1::pwm::RESET_DONE1, RESET_PWM0);
    words.insert(CLK_PWM0_SEL, CLK_SEL_AUX);
    rp1::bus::Bus::new(PwmBus { words, writes: vec![] })
}

#[test]
fn start_configures_channel_zero_and_reports_its_snapshot() {
    let mut pwm = rp1::pwm::Pwm0 { private: () };
    let mut bus = pwm_bus();
    let channel = pwm.start_gpio12(&mut bus, Pwm0Config { range: 1000, duty: 250 }).ok().unwrap();
    let snapshot = channel.snapshot(&mut bus);
    assert_eq!((snapshot.channel_ctrl, snapshot.range, snapshot.duty), (0x101, 1000, 250));
    assert_ne!(snapshot.global_ctrl & 1, 0);
    assert!(bus.io.writes.contains(&(PWM_CH0_DUTY, 250)));
    assert!(bus.io.writes.contains(&(PWM_CH0_RANGE, 1000)));
    assert!(bus.io.writes.contains(&(PWM_CH0_CTRL, 0x101)));
}

#[test]
fn invalid_configuration_touches_no_register() {
    let mut pwm = rp1::pwm::Pwm0 { private: () };
    let mut bus = pwm_bus();
    assert!(matches!(
        pwm.start_gpio12(&mut bus, Pwm0Config { range: 10, duty: 11 }),
        Err(rp1::pwm::Pwm0Error::InvalidConfig)
    ));
    assert!(pwm.start_gpio12(&mut bus, Pwm0Config { range: 0, duty: 0 }).is_err());
    assert!(bus.io.writes.is_empty());
}
