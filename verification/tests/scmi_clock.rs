use rp1::scmi_clock::{
    admit_state, clock_profile, Backend, ClockHardware, ClockPolicy, Error, PhysicalState, Response, Server,
};

struct Hw {
    state: PhysicalState,
    writes: u32,
    fail: bool,
}

impl ClockHardware for Hw {
    fn read(&mut self, _: u32) -> Result<PhysicalState, Error> {
        Ok(self.state)
    }
    fn enable(&mut self, _: u32, en: bool) -> Result<(), Error> {
        self.writes += 1;
        if self.fail {
            return Err(Error::Hardware);
        }
        self.state.enabled = en;
        Ok(())
    }
}

fn hw() -> Backend<Hw> {
    Backend::new(Hw { state: PhysicalState { rate_hz: 100_000_000, enabled: true }, writes: 0, fail: false })
}

fn req(s: &mut Server, h: &mut Backend<Hw>, proto: u32, id: u32, args: &[u32]) -> Response {
    s.request((17 << 18) | (proto << 10) | id, args, h)
}

#[test]
fn discovery_and_rate() {
    let clocks = clock_profile();
    let (mut s, mut h) = (Server::new(&clocks, false).unwrap(), hw());
    for id in [0, 1, 3, 4, 5] {
        assert_eq!(req(&mut s, &mut h, 0x10, id, &[]).words[0], 0);
    }
    assert_eq!(req(&mut s, &mut h, 0x10, 6, &[0]).words[..3], [0, 1, 0x14]);
    assert_eq!(req(&mut s, &mut h, 0x10, 7, &[0xffff_ffff]).words[..2], [0, 1]);
    assert_eq!(req(&mut s, &mut h, 0x14, 1, &[]).words[..2], [0, 1]);
    assert_eq!(req(&mut s, &mut h, 0x14, 4, &[0, 0]).words[..4], [0, 1, 100_000_000, 0]);
    assert_eq!(req(&mut s, &mut h, 0x14, 6, &[0]).words[..3], [0, 100_000_000, 0]);
    assert_eq!(h.hw.writes, 0);
}

#[test]
fn readonly_and_unknown_fail_closed() {
    let clocks = clock_profile();
    let (mut s, mut h) = (Server::new(&clocks, false).unwrap(), hw());
    assert_eq!(req(&mut s, &mut h, 0x14, 7, &[0, 0]).words[0] as i32, -3);
    assert_eq!(req(&mut s, &mut h, 0x14, 6, &[99]).words[0] as i32, -4);
    assert_eq!(req(&mut s, &mut h, 0x14, 2, &[0x106]).words[0] as i32, -1);
    assert_eq!(req(&mut s, &mut h, 0x16, 0, &[]).words[0] as i32, -1);
    assert_eq!(req(&mut s, &mut h, 0x14, 6, &[0, 0]).words[0] as i32, -2);
    assert_eq!(h.hw.writes, 0);
}

#[test]
fn linux_disable_cannot_remove_firmware_vote() {
    let clocks = clock_profile();
    let (mut s, mut h) = (Server::new(&clocks, true).unwrap(), hw());
    for en in [1, 0] {
        assert_eq!(req(&mut s, &mut h, 0x14, 7, &[0, en]).words[0], 0);
        assert_eq!(s.linux_votes(), en);
        assert!(h.hw.state.enabled);
    }
    assert_eq!(h.hw.writes, 0);
    assert_eq!(s.config_requests, 2);
}

#[test]
fn wrong_physical_rate_is_not_reported_as_profile_rate() {
    let clocks = clock_profile();
    let (mut s, mut h) = (Server::new(&clocks, true).unwrap(), hw());
    h.hw.state.rate_hz = 99_000_000;
    assert_eq!(req(&mut s, &mut h, 0x14, 6, &[0]).words[0] as i32, -9);
    assert_eq!(req(&mut s, &mut h, 0x14, 7, &[0, 1]).words[0] as i32, -9);
    assert_eq!(s.linux_votes(), 0);
}

#[test]
fn locked_rate_and_flags() {
    let clocks = clock_profile();
    let (mut s, mut h) = (Server::new(&clocks, true).unwrap(), hw());
    assert_eq!(req(&mut s, &mut h, 0x14, 5, &[0, 0, 100_000_000, 0]).words[0], 0);
    assert_eq!(req(&mut s, &mut h, 0x14, 5, &[8, 0, 100_000_000, 0]).words[0], 0);
    assert_eq!(req(&mut s, &mut h, 0x14, 5, &[4, 0, 100_000_000, 0]).words[0], 0);
    assert_eq!(req(&mut s, &mut h, 0x14, 5, &[0, 0, 50_000_000, 0]).words[0] as i32, -3);
    assert_eq!(req(&mut s, &mut h, 0x14, 5, &[1, 0, 100_000_000, 0]).words[0] as i32, -2);
    assert_eq!(req(&mut s, &mut h, 0x14, 7, &[0, 0x100]).words[0] as i32, -2);
    assert_eq!(h.hw.writes, 0);
}

#[test]
fn backend_error_keeps_logical_vote() {
    let mut policy = *clock_profile().iter().find(|c| c.scmi_id == Some(0)).unwrap();
    policy.boot_required = false;
    policy.rp1_required = false;
    let table = [policy];
    let (mut s, mut h) = (Server::new(&table, true).unwrap(), hw());
    h.hw.fail = true;
    assert_eq!(req(&mut s, &mut h, 0x14, 7, &[0, 0]).words[0] as i32, -9);
    assert_eq!(s.config_requests, 0);
    assert!(h.hw.state.enabled);
}

#[test]
fn clock_name_and_error_codes() {
    let clocks = clock_profile();
    let (mut s, mut h) = (Server::new(&clocks, false).unwrap(), hw());
    let name = req(&mut s, &mut h, 0x14, 3, &[0]);
    assert_eq!(name.words[0], 0);
    assert_eq!(name.words[1], 1);
    assert_eq!(name.words[2], u32::from_le_bytes(*b"pll_"));
    let vendor = req(&mut s, &mut h, 0x10, 3, &[]);
    assert_eq!(vendor.words[1], u32::from_le_bytes(*b"RP1-"));
    assert_eq!(req(&mut s, &mut h, 0x10, 7, &[2]).words[0] as i32, Error::NotFound.code());
    assert_eq!(Error::NotFound.code(), -4);
    assert_eq!(Error::Protocol.code(), -10);
    assert_eq!(s.request(0x300, &[], &mut h).words[0] as i32, -10);
}

#[test]
fn backend_reading_is_admitted_only_at_profile_rate() {
    let policy = ClockPolicy {
        name: "uart",
        scmi_id: Some(0),
        rp1_id: 6,
        rate_hz: 100_000_000,
        boot_required: true,
        rp1_required: false,
    };
    let good = PhysicalState { rate_hz: 100_000_000, enabled: true };
    assert_eq!(admit_state(&policy, Ok(good)), Ok(good));
    assert_eq!(
        admit_state(&policy, Ok(PhysicalState { rate_hz: 100_000_000, enabled: false })),
        Err(Error::Hardware)
    );
    assert_eq!(
        admit_state(&policy, Ok(PhysicalState { rate_hz: 50_000_000, enabled: true })),
        Err(Error::Hardware)
    );
    assert_eq!(admit_state(&policy, Err(Error::NotFound)), Err(Error::NotFound));
}

#[test]
fn linux_vote_switches_a_clock_that_firmware_does_not_need() {
    let mut policy = *clock_profile().iter().find(|c| c.scmi_id == Some(0)).unwrap();
    policy.boot_required = false;
    policy.rp1_required = false;
    let table = [policy];
    let (mut s, mut h) = (Server::new(&table, true).unwrap(), hw());
    assert_eq!(req(&mut s, &mut h, 0x14, 7, &[0, 0]).words[0], 0);
    assert_eq!((h.hw.writes, h.hw.state.enabled), (1, false));
    assert_eq!(req(&mut s, &mut h, 0x14, 7, &[0, 0]).words[0], 0);
    assert_eq!(h.hw.writes, 1);
    assert_eq!(req(&mut s, &mut h, 0x14, 7, &[0, 1]).words[0], 0);
    assert_eq!((h.hw.writes, h.hw.state.enabled), (2, true));
    assert_eq!(s.linux_votes(), 1);
}

fn policy(scmi_id: Option<u32>, rate_hz: u32) -> ClockPolicy {
    ClockPolicy { name: "c", scmi_id, rp1_id: 1, rate_hz, boot_required: false, rp1_required: false }
}

#[test]
fn new_accepts_only_dense_distinct_ids_with_rates() {
    assert!(Server::new(&[], false).is_ok());
    assert!(Server::new(&[policy(None, 0)], false).is_ok());
    assert!(Server::new(&[policy(Some(1), 5), policy(None, 0), policy(Some(0), 7)], false).is_ok());
    let refused = [
        vec![policy(Some(0), 5), policy(Some(0), 5)],
        vec![policy(Some(0), 5), policy(Some(2), 5)],
        vec![policy(Some(1), 5)],
        vec![policy(Some(32), 5)],
        vec![policy(Some(0), 0)],
    ];
    for clocks in refused.iter() {
        assert!(matches!(Server::new(clocks, false), Err(Error::InvalidParameters)));
    }
    let full: Vec<ClockPolicy> = (0..32).map(|id| policy(Some(id), 1)).collect();
    assert!(Server::new(&full, true).is_ok());
}
