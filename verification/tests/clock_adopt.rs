use rp1::clock_adopt::{SysPllSnapshot, UartClockSnapshot};
use rp1::scmi_clock::{clock_profile, Error, PhysicalState};

#[test]
fn xosc_selector_is_not_auxsrc_number() {
    let mut s = UartClockSnapshot { ctrl: 0x1000_0840, div_int: 1, sel: 1 };
    assert!(s.matches(50_000_000));
    assert!(!s.matches(48_000_000));
    s.sel = 4;
    assert!(!s.matches(50_000_000));
    s.sel = 1;
    s.ctrl &= !(1 << 11);
    assert!(!s.matches(50_000_000));
    s.ctrl = 0x840;
    assert!(!s.matches(50_000_000));
}

#[test]
fn apb_includes_phase_fixed_divider_and_exact_tuple() {
    let mut s = SysPllSnapshot { cs: 0x8000_0001, pwr: 4, fb_int: 20, fb_frac: 0, prim: 0x51010 };
    assert_eq!(s.known_apb(), Ok(PhysicalState { rate_hz: 100_000_000, enabled: true }));
    s.prim &= !0x10;
    assert!(!s.known_apb().unwrap().enabled);
    s.fb_frac = 1;
    assert_eq!(s.known_apb(), Err(Error::Hardware));
}

#[test]
fn generated_policy_matches_admitted_readonly_backends() {
    for c in clock_profile() {
        if c.scmi_id.is_some() {
            assert_eq!(c.rp1_id, 6);
            let s =
                SysPllSnapshot { cs: 0x8000_0001, pwr: 4, fb_int: 20, fb_frac: 0, prim: 0x51010 };
            assert_eq!(s.known_apb().unwrap().rate_hz, u64::from(c.rate_hz));
        }
        if c.name == "uart" {
            assert!(UartClockSnapshot { ctrl: 0x1000_0840, div_int: 1, sel: 1 }.matches(c.rate_hz));
        }
    }
}
