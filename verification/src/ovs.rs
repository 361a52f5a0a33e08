//! The collector of Open vSwitch events.

use crate::collector::Collector;
use crate::error::Error;
use crate::events::BpfEvents;
use crate::manager::ProbeManager;
use crate::probe::{Hook, HookView, Probe};
use crate::user::{first_note, no_note, Process, UsdtProbe};
use vstd::prelude::*;

verus! {

/// The marker that Open vSwitch hits at the start of each run of its main
/// loop.
pub open spec fn main_loop_target() -> Seq<char> {
    "main::run_start"@
}

/// Collects events from the Open vSwitch daemon.
pub struct OvsCollector {
    /// The daemon, if it was found running.
    pub process: Option<Process>,
    /// The compiled hook for the daemon's main loop.
    pub main_hook: &'static [u8],
}

impl OvsCollector {
    /// A collector that knows of no daemon yet.
    pub fn new() -> (r: Result<OvsCollector, Error>)
        ensures
            r is Ok,
            r->Ok_0.process is None,
            r->Ok_0.main_hook@ == Seq::<u8>::empty(),
    {
        Ok(OvsCollector { process: None, main_hook: &[] })
    }

    /// A collector for the daemon that was found running as `process`, with
    /// the compiled hook for its main loop.
    pub fn with_process(process: Process, main_hook: &'static [u8]) -> (collector: OvsCollector)
        ensures
            collector.process == Some(process),
            collector.main_hook == main_hook,
    {
        OvsCollector { process: Some(process), main_hook }
    }

    /// Why the collector cannot be initialized, if it cannot: the daemon is
    /// not running, its binary has no marker table, or the table lacks the
    /// marker of the main loop.
    pub open spec fn obstacle(&self) -> Option<Error> {
        match self.process {
            None => Some(Error::NotFound),
            Some(process) => match process.usdt_info {
                None => Some(Error::MissingCapability),
                Some(info) => if no_note(info.notes@, main_loop_target()) {
                    Some(Error::NotFound)
                } else {
                    None
                },
            },
        }
    }
}

impl Collector for OvsCollector {
    fn name(&self) -> (name: &'static str)
        ensures
            name@ == "ovs"@,
    {
        "ovs"
    }

    /// Registers the hook of the daemon's main loop on the marker of that
    /// loop.
    ///
    /// Fails with [`Error::NotFound`] if the daemon is not running, with
    /// [`Error::MissingCapability`] if its binary has no marker table, and
    /// with [`Error::NotFound`] if the table lacks the marker. Nothing is
    /// registered in these cases.
    fn init(&mut self, probes: &mut ProbeManager, events: &mut BpfEvents) -> (r: Result<(), Error>)
        ensures
            *final(self) == *old(self),
            final(events)@ == old(events)@,
            match old(self).obstacle() {
                Some(e) => r == Err::<(), Error>(e) && final(probes)@ == old(probes)@,
                None => {
                    let process = old(self).process->Some_0;
                    let notes = process.usdt_info->Some_0.notes@;
                    r is Ok && exists|i: int|
                        #[trigger] first_note(notes, main_loop_target(), i) && final(probes)@
                            == old(probes)@.register(
                            HookView { prog: old(self).main_hook@, maps: Seq::empty() },
                            Probe::Usdt(UsdtProbe::resolved(&process, notes[i])),
                        )
                },
            },
    {
        let process = match &self.process {
            Some(process) => process,
            None => { return Err(Error::NotFound); },
        };
        match process.usdt_info() {
            None => { return Err(Error::MissingCapability); },
            Some(info) => {
                if !info.is_usdt("main::run_start") {
                    return Err(Error::NotFound);
                }
            },
        }
        let marker = match UsdtProbe::new(process, "main::run_start") {
            Ok(marker) => marker,
            Err(e) => { return Err(e); },
        };
        probes.register_hook_to(Hook::from(self.main_hook), Probe::Usdt(marker))
    }

    fn start(&mut self) -> (r: Result<(), Error>)
        ensures
            r is Ok,
            *final(self) == *old(self),
    {
        Ok(())
    }
}

} // verus!
