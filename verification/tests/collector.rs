use std::cell::RefCell;
use std::rc::Rc;

use tracecore::collector::{Collector, CollectorsCollection, Diagnostic, Severity};
use tracecore::error::Error;
use tracecore::events::BpfEvents;
use tracecore::manager::ProbeManager;
use tracecore::ovs::OvsCollector;
use tracecore::user::{Process, UsdtInfo, UsdtNote};

struct DummyCollectorA;
struct DummyCollectorB;

impl DummyCollectorA {
    fn new() -> Result<DummyCollectorA, Error> {
        Ok(DummyCollectorA)
    }
}

impl Collector for DummyCollectorA {
    fn name(&self) -> &'static str {
        "dummy-a"
    }
    fn init(&mut self, _: &mut ProbeManager, _: &mut BpfEvents) -> Result<(), Error> {
        Ok(())
    }
    fn start(&mut self) -> Result<(), Error> {
        Ok(())
    }
}

impl DummyCollectorB {
    fn new() -> Result<DummyCollectorB, Error> {
        Ok(DummyCollectorB)
    }
}

impl Collector for DummyCollectorB {
    fn name(&self) -> &'static str {
        "dummy-b"
    }
    fn init(&mut self, _: &mut ProbeManager, _: &mut BpfEvents) -> Result<(), Error> {
        Err(Error::UnderlyingFailure)
    }
    fn start(&mut self) -> Result<(), Error> {
        Err(Error::UnderlyingFailure)
    }
}

/// A collector with a name of one's choice, which fails where it is told to
/// and counts how often it was started.
struct Scripted {
    name: &'static str,
    init: Result<(), Error>,
    start: Result<(), Error>,
}

impl Collector for Scripted {
    fn name(&self) -> &'static str {
        self.name
    }
    fn init(&mut self, _: &mut ProbeManager, _: &mut BpfEvents) -> Result<(), Error> {
        self.init
    }
    fn start(&mut self) -> Result<(), Error> {
        self.start
    }
}

fn scripted(
    name: &'static str,
    init: Result<(), Error>,
    start: Result<(), Error>,
) -> Box<dyn Collector> {
    Box::new(Scripted { name, init, start })
}

#[test]
fn register_collectors() -> Result<(), Error> {
    let mut collection: CollectorsCollection = CollectorsCollection::new();
    assert!(collection.register(Box::new(DummyCollectorA::new()?)).is_ok());
    assert!(collection.register(Box::new(DummyCollectorB::new()?)).is_ok());
    Ok(())
}

#[test]
fn register_uniqueness() -> Result<(), Error> {
    let mut collection: CollectorsCollection = CollectorsCollection::new();
    assert!(collection.register(Box::new(DummyCollectorA::new()?)).is_ok());
    assert!(collection.register(Box::new(DummyCollectorA::new()?)).is_err());
    Ok(())
}

#[test]
fn get_collectors() {
    assert!(tracecore::collector::get_collectors().is_ok());
}

#[test]
fn init_collectors() -> Result<(), Error> {
    let mut probes = ProbeManager::new();
    let mut events = BpfEvents::new();
    let mut collection: CollectorsCollection = CollectorsCollection::new();
    let mut dummy_a = Box::new(DummyCollectorA::new()?);
    let mut dummy_b = Box::new(DummyCollectorB::new()?);

    collection.register(Box::new(DummyCollectorA::new()?))?;
    collection.register(Box::new(DummyCollectorB::new()?))?;

    assert!(dummy_a.init(&mut probes, &mut events).is_ok());
    assert!(dummy_b.init(&mut probes, &mut events).is_err());
    assert!(collection.init(&mut probes, &mut events).is_ok());
    Ok(())
}

#[test]
fn start_collectors() -> Result<(), Error> {
    let mut collection: CollectorsCollection = CollectorsCollection::new();
    let mut dummy_a = Box::new(DummyCollectorA::new()?);
    let mut dummy_b = Box::new(DummyCollectorB::new()?);

    collection.register(Box::new(DummyCollectorA::new()?))?;
    collection.register(Box::new(DummyCollectorB::new()?))?;

    assert!(dummy_a.start().is_ok());
    assert!(dummy_b.start().is_err());
    assert!(collection.start().is_ok());
    Ok(())
}

#[test]
fn second_registration_of_a_name_changes_nothing() {
    let mut collection: CollectorsCollection = CollectorsCollection::new();
    assert!(collection.register(scripted("a", Ok(()), Ok(()))).is_ok());
    assert!(collection.register(scripted("b", Ok(()), Ok(()))).is_ok());
    assert_eq!(
        collection.register(scripted("a", Ok(()), Ok(()))).err(),
        Some(Error::NameConflict)
    );
    assert_eq!(collection.len(), 2);
    assert!(collection.contains("a"));
    assert!(collection.contains("b"));
    assert!(!collection.contains("c"));
    assert!(collection.take_diagnostics().is_empty());
}

#[test]
fn registration_chains() -> Result<(), Error> {
    let mut collection: CollectorsCollection = CollectorsCollection::new();
    collection
        .register(scripted("first", Ok(()), Ok(())))?
        .register(scripted("second", Ok(()), Ok(())))?
        .register(scripted("third", Ok(()), Ok(())))?;
    assert_eq!(collection.len(), 3);
    Ok(())
}

#[test]
fn init_drops_the_collectors_that_fail() {
    let mut probes = ProbeManager::new();
    let mut events = BpfEvents::new();
    let mut collection: CollectorsCollection = CollectorsCollection::new();
    assert!(collection.register(Box::new(DummyCollectorA)).is_ok());
    assert!(collection.register(Box::new(DummyCollectorB)).is_ok());
    assert!(collection
        .register(scripted("late", Err(Error::MissingCapability), Ok(())))
        .is_ok());
    assert!(collection.register(scripted("last", Ok(()), Ok(()))).is_ok());

    assert_eq!(collection.init(&mut probes, &mut events), Ok(()));

    assert!(collection.contains("dummy-a"));
    assert!(!collection.contains("dummy-b"));
    assert!(!collection.contains("late"));
    assert!(collection.contains("last"));
    assert_eq!(collection.len(), 2);
    assert_eq!(
        collection.take_diagnostics(),
        vec![
            Diagnostic {
                severity: Severity::Error,
                collector: "dummy-b".to_string(),
                reason: Error::UnderlyingFailure,
            },
            Diagnostic {
                severity: Severity::Error,
                collector: "late".to_string(),
                reason: Error::MissingCapability,
            },
        ]
    );
    assert!(collection.take_diagnostics().is_empty());
}

#[test]
fn collectors_stay_in_the_order_of_registration() {
    let mut probes = ProbeManager::new();
    let mut events = BpfEvents::new();
    let mut collection: CollectorsCollection = CollectorsCollection::new();
    for name in ["zeta", "alpha", "mid", "beta"] {
        let init = if name == "mid" { Err(Error::NotFound) } else { Ok(()) };
        assert!(collection.register(scripted(name, init, Err(Error::UnderlyingFailure))).is_ok());
    }
    assert_eq!(collection.collector_names(), vec!["zeta", "alpha", "mid", "beta"]);
    assert_eq!(collection.init(&mut probes, &mut events), Ok(()));
    assert_eq!(collection.collector_names(), vec!["zeta", "alpha", "beta"]);
    assert_eq!(collection.start(), Ok(()));
    assert_eq!(collection.collector_names(), vec!["zeta", "alpha", "beta"]);
    let noted: Vec<(Severity, String)> =
        collection.take_diagnostics().into_iter().map(|d| (d.severity, d.collector)).collect();
    assert_eq!(
        noted,
        vec![
            (Severity::Error, "mid".to_string()),
            (Severity::Warning, "zeta".to_string()),
            (Severity::Warning, "alpha".to_string()),
            (Severity::Warning, "beta".to_string()),
        ]
    );
}

#[test]
fn init_of_an_empty_collection_succeeds() {
    let mut probes = ProbeManager::new();
    let mut events = BpfEvents::new();
    let mut collection: CollectorsCollection = CollectorsCollection::new();
    assert_eq!(collection.init(&mut probes, &mut events), Ok(()));
    assert_eq!(collection.start(), Ok(()));
    assert_eq!(collection.len(), 0);
}

#[test]
fn start_keeps_the_collectors_that_fail() {
    let mut collection: CollectorsCollection = CollectorsCollection::new();
    assert!(collection.register(Box::new(DummyCollectorA)).is_ok());
    assert!(collection.register(Box::new(DummyCollectorB)).is_ok());

    assert_eq!(collection.start(), Ok(()));

    assert!(collection.contains("dummy-a"));
    assert!(collection.contains("dummy-b"));
    assert_eq!(collection.len(), 2);
    assert_eq!(
        collection.take_diagnostics(),
        vec![Diagnostic {
            severity: Severity::Warning,
            collector: "dummy-b".to_string(),
            reason: Error::UnderlyingFailure,
        }]
    );
}

#[test]
fn a_dropped_name_can_be_registered_again() {
    let mut probes = ProbeManager::new();
    let mut events = BpfEvents::new();
    let mut collection: CollectorsCollection = CollectorsCollection::new();
    assert!(collection.register(Box::new(DummyCollectorB)).is_ok());
    assert_eq!(collection.init(&mut probes, &mut events), Ok(()));
    assert_eq!(collection.len(), 0);
    assert!(collection.register(Box::new(DummyCollectorB)).is_ok());
    assert_eq!(collection.len(), 1);
}

#[test]
fn unregister_failed_goes_by_place() {
    let mut collection: CollectorsCollection = CollectorsCollection::new();
    for name in ["a", "b", "c", "d"] {
        assert!(collection.register(scripted(name, Ok(()), Ok(()))).is_ok());
    }
    // Too few outcomes: the collectors without one stay.
    collection.unregister_failed(&vec![Some(Error::NotFound), None, Some(Error::SizeMismatch)]);
    assert!(!collection.contains("a"));
    assert!(collection.contains("b"));
    assert!(!collection.contains("c"));
    assert!(collection.contains("d"));
    let notes = collection.take_diagnostics();
    assert_eq!(notes.len(), 2);
    assert_eq!(notes[0].collector, "a");
    assert_eq!(notes[0].reason, Error::NotFound);
    assert_eq!(notes[1].collector, "c");
    assert_eq!(notes[1].reason, Error::SizeMismatch);
}

#[test]
fn report_failed_only_takes_note() {
    let mut collection: CollectorsCollection = CollectorsCollection::new();
    for name in ["a", "b"] {
        assert!(collection.register(scripted(name, Ok(()), Ok(()))).is_ok());
    }
    collection.report_failed(&vec![None, Some(Error::UnderlyingFailure), Some(Error::NotFound)]);
    assert_eq!(collection.len(), 2);
    assert_eq!(
        collection.take_diagnostics(),
        vec![Diagnostic {
            severity: Severity::Warning,
            collector: "b".to_string(),
            reason: Error::UnderlyingFailure,
        }]
    );
}

fn ovs_process(usdt_info: Option<UsdtInfo>) -> Process {
    Process { pid: 4242, path: "/usr/sbin/ovs-vswitchd".to_string(), usdt_info }
}

fn note(provider: &str, name: &str, addr: u64) -> UsdtNote {
    UsdtNote { provider: provider.to_string(), name: name.to_string(), addr }
}

#[test]
fn collector_without_marker_table_is_dropped() {
    let mut probes = ProbeManager::new();
    let mut events = BpfEvents::new();

    let mut alone = OvsCollector::with_process(ovs_process(None), b"hook");
    assert_eq!(alone.init(&mut probes, &mut events), Err(Error::MissingCapability));

    let mut collection: CollectorsCollection = CollectorsCollection::new();
    assert!(collection
        .register(Box::new(OvsCollector::with_process(ovs_process(None), b"hook")))
        .is_ok());
    assert!(collection.register(Box::new(DummyCollectorA)).is_ok());
    assert_eq!(collection.init(&mut probes, &mut events), Ok(()));
    assert!(!collection.contains("ovs"));
    assert!(collection.contains("dummy-a"));
    assert_eq!(
        collection.take_diagnostics(),
        vec![Diagnostic {
            severity: Severity::Error,
            collector: "ovs".to_string(),
            reason: Error::MissingCapability,
        }]
    );

    assert_eq!(collection.start(), Ok(()));
    assert!(!collection.contains("ovs"));
    assert_eq!(collection.len(), 1);
    assert!(collection.take_diagnostics().is_empty());

    // Nothing was registered with the probe manager.
    let attacher = probes.attach();
    assert_eq!(attacher.request(), None);
    assert_eq!(attacher.result(), Some(Ok(())));
}

#[test]
fn ovs_collector_needs_its_daemon_and_its_marker() {
    let mut probes = ProbeManager::new();
    let mut events = BpfEvents::new();

    let mut unknown = OvsCollector::new().unwrap();
    assert_eq!(unknown.name(), "ovs");
    assert_eq!(unknown.init(&mut probes, &mut events), Err(Error::NotFound));

    let table = UsdtInfo { notes: vec![note("main", "poll_block", 0x10)] };
    let mut unmarked = OvsCollector::with_process(ovs_process(Some(table)), b"hook");
    assert_eq!(unmarked.init(&mut probes, &mut events), Err(Error::NotFound));

    let table = UsdtInfo {
        notes: vec![note("main", "poll_block", 0x10), note("main", "run_start", 0x20)],
    };
    let mut ready = OvsCollector::with_process(ovs_process(Some(table)), b"hook");
    assert_eq!(ready.init(&mut probes, &mut events), Ok(()));
    assert_eq!(ready.start(), Ok(()));
}

#[test]
fn the_collection_that_comes_with_the_crate_holds_ovs() {
    let mut probes = ProbeManager::new();
    let mut events = BpfEvents::new();
    let mut collection = tracecore::collector::get_collectors().unwrap();
    assert_eq!(collection.len(), 1);
    assert!(collection.contains("ovs"));
    // No daemon is known to it, so it cannot be initialized.
    assert_eq!(collection.init(&mut probes, &mut events), Ok(()));
    assert_eq!(collection.len(), 0);
}

/// A collector that writes down, in a log it shares with the test, each call
/// it gets, and how many maps the probe manager shared at the time.
struct Logged {
    name: &'static str,
    init: Result<(), Error>,
    log: Rc<RefCell<Vec<String>>>,
    calls: usize,
}

impl Collector for Logged {
    fn name(&self) -> &'static str {
        self.log.borrow_mut().push(format!("name {}", self.name));
        self.name
    }
    fn init(&mut self, probes: &mut ProbeManager, _: &mut BpfEvents) -> Result<(), Error> {
        self.calls += 1;
        let shared = probes.reuse_map(self.name, 1).is_ok();
        self.log.borrow_mut().push(format!("init {} {} {}", self.name, self.calls, shared));
        self.init
    }
    fn start(&mut self) -> Result<(), Error> {
        self.calls += 1;
        self.log.borrow_mut().push(format!("start {} {}", self.name, self.calls));
        Ok(())
    }
}

#[test]
fn each_collector_is_asked_once_and_keeps_its_state() {
    let log = Rc::new(RefCell::new(Vec::new()));
    let logged = |name: &'static str, init: Result<(), Error>| -> Box<dyn Collector> {
        Box::new(Logged { name, init, log: log.clone(), calls: 0 })
    };
    let mut probes = ProbeManager::new();
    let mut events = BpfEvents::new();
    let mut collection: CollectorsCollection = CollectorsCollection::new();
    assert!(collection.register(logged("a", Ok(()))).is_ok());
    assert!(collection.register(logged("b", Err(Error::NotFound))).is_ok());
    assert!(collection.register(logged("c", Ok(()))).is_ok());
    // A second collector that calls itself "a" is asked for its name and
    // then refused; the first one stays where it is.
    assert!(collection.register(logged("a", Err(Error::NotFound))).is_err());
    assert_eq!(*log.borrow(), vec!["name a", "name b", "name c", "name a"]);
    log.borrow_mut().clear();

    assert_eq!(collection.init(&mut probes, &mut events), Ok(()));
    // Each collector was handed the probe manager as the one before left
    // it: every name could be shared once.
    assert_eq!(*log.borrow(), vec!["init a 1 true", "init b 1 true", "init c 1 true"]);
    assert_eq!(probes.reuse_map("a", 2), Err(Error::NameConflict));
    assert_eq!(probes.reuse_map("b", 2), Err(Error::NameConflict));
    assert_eq!(probes.reuse_map("c", 2), Err(Error::NameConflict));
    log.borrow_mut().clear();

    assert_eq!(collection.start(), Ok(()));
    // The collectors that stayed are the ones that were initialized: their
    // second call is the start.
    assert_eq!(*log.borrow(), vec!["start a 2", "start c 2"]);
    assert_eq!(collection.collector_names(), vec!["a", "c"]);
}
