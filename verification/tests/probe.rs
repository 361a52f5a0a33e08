use tracecore::error::Error;
use tracecore::probe::{
    Hook, KernelProbe, Probe, ProbeKind, Symbol, UserAddress, UserTarget, PROBE_VARIANTS,
};
use tracecore::user::UsdtProbe;

fn func(name: &str) -> Symbol {
    Symbol::Func(name.to_string())
}

fn event(name: &str) -> Symbol {
    Symbol::Event(name.to_string())
}

fn marker() -> UsdtProbe {
    UsdtProbe {
        provider: "main".to_string(),
        name: "run_start".to_string(),
        ksym: 0x20,
        path: "/usr/sbin/ovs-vswitchd".to_string(),
        pid: 4242,
    }
}

fn address() -> UserAddress {
    UserAddress { addr: 0x1000, path: "/usr/bin/cat".to_string(), pid: 7 }
}

#[test]
fn kprobe_takes_functions_only() {
    assert_eq!(
        Probe::kprobe(func("kfree_skb")),
        Ok(Probe::Kprobe(KernelProbe { symbol: func("kfree_skb") }))
    );
    assert_eq!(Probe::kprobe(event("skb:kfree_skb")), Err(Error::TargetKindMismatch));
}

#[test]
fn raw_tracepoint_takes_events_only() {
    assert_eq!(
        Probe::raw_tracepoint(event("skb:kfree_skb")),
        Ok(Probe::RawTracepoint(KernelProbe { symbol: event("skb:kfree_skb") }))
    );
    assert_eq!(Probe::raw_tracepoint(func("kfree_skb")), Err(Error::TargetKindMismatch));
}

#[test]
fn uprobe_takes_addresses_only() {
    assert_eq!(Probe::uprobe(UserTarget::Address(address())), Ok(Probe::Uprobe(address())));
    assert_eq!(Probe::uprobe(UserTarget::Marker(marker())), Err(Error::TargetKindMismatch));
}

#[test]
fn usdt_takes_markers_only() {
    assert_eq!(Probe::usdt(UserTarget::Marker(marker())), Ok(Probe::Usdt(marker())));
    assert_eq!(Probe::usdt(UserTarget::Address(address())), Err(Error::TargetKindMismatch));
}

fn one_of_each() -> Vec<Probe> {
    vec![
        Probe::kprobe(func("kfree_skb")).unwrap(),
        Probe::raw_tracepoint(event("skb:kfree_skb")).unwrap(),
        Probe::uprobe(UserTarget::Address(address())).unwrap(),
        Probe::usdt(UserTarget::Marker(marker())).unwrap(),
    ]
}

#[test]
fn keys_are_the_places_of_the_table() {
    let probes = one_of_each();
    assert_eq!(probes.len(), PROBE_VARIANTS);
    assert_eq!(PROBE_VARIANTS, 4);
    for (place, probe) in probes.iter().enumerate() {
        assert_eq!(probe.as_key(), place);
        assert_eq!(probe.kind().index(), place);
        assert_eq!(ProbeKind::from_index(place), Some(probe.kind()));
    }
    assert_eq!(ProbeKind::from_index(PROBE_VARIANTS), None);
    assert_eq!(ProbeKind::from_index(usize::MAX), None);
}

#[test]
fn keys_of_different_kinds_differ() {
    let probes = one_of_each();
    for a in probes.iter() {
        for b in probes.iter() {
            assert_eq!(a.as_key() == b.as_key(), a.kind() == b.kind());
        }
    }
    // The key goes by the kind alone.
    assert_eq!(
        Probe::kprobe(func("a")).unwrap().as_key(),
        Probe::kprobe(func("b")).unwrap().as_key()
    );
}

#[test]
fn probes_are_shown_by_the_name_of_their_kind() {
    let names: Vec<String> = one_of_each().iter().map(|p| p.to_string()).collect();
    assert_eq!(names, vec!["kprobe", "raw tracepoint", "uprobe", "usdt"]);
    assert_eq!(ProbeKind::RawTracepoint.name(), "raw tracepoint");
}

#[test]
fn constructed_probes_are_valid() {
    for probe in one_of_each() {
        assert!(probe.is_valid());
        assert_eq!(probe.clone(), probe);
    }
    assert!(!Probe::Kprobe(KernelProbe::new(event("skb:kfree_skb"))).is_valid());
    assert!(!Probe::RawTracepoint(KernelProbe::new(func("kfree_skb"))).is_valid());
}

#[test]
fn symbols_have_names() {
    assert_eq!(func("kfree_skb").name(), "kfree_skb");
    assert_eq!(event("skb:kfree_skb").name(), "skb:kfree_skb");
    assert_eq!(func("kfree_skb").clone(), func("kfree_skb"));
}

#[test]
fn hook_reuses_a_map_name_once() {
    let mut hook = Hook::from(b"program");
    assert!(hook.map_fds().is_empty());
    assert!(hook.reuse_map("m", 11).is_ok());
    assert_eq!(hook.reuse_map("m", 12).err(), Some(Error::NameConflict));
    assert_eq!(hook.map_fds(), vec![("m".to_string(), 11)]);
    assert_eq!(hook.bpf_prog(), b"program");
}

#[test]
fn hook_keeps_its_maps_in_order() -> Result<(), Error> {
    let mut hook = Hook::from(b"program");
    hook.reuse_map("events", 3)?.reuse_map("config", 4)?.reuse_map("stack", 3)?;
    assert_eq!(
        hook.map_fds(),
        vec![("events".to_string(), 3), ("config".to_string(), 4), ("stack".to_string(), 3)]
    );
    assert_eq!(hook.reuse_map("config", 9).err(), Some(Error::NameConflict));
    let copy = hook.clone();
    assert_eq!(copy.map_fds(), hook.map_fds());
    assert_eq!(copy.bpf_prog(), hook.bpf_prog());
    Ok(())
}
