//! Probes and hooks: what can be instrumented, and with what.

use crate::error::Error;
use crate::maps::{map_names, MapSet};
use crate::user::UsdtProbe;
use vstd::prelude::*;

verus! {

/// A kernel symbol and what kind of thing it names.
#[derive(Debug, PartialEq)]
pub enum Symbol {
    /// A function of the kernel.
    Func(String),
    /// A static event point of the kernel.
    Event(String),
}

impl Symbol {
    /// The symbol's name.
    pub fn name(&self) -> (name: &String)
        ensures
            match *self {
                Symbol::Func(n) => *name == n,
                Symbol::Event(n) => *name == n,
            },
    {
        match self {
            Symbol::Func(n) => n,
            Symbol::Event(n) => n,
        }
    }
}

impl Clone for Symbol {
    fn clone(&self) -> (r: Symbol)
        ensures
            r == *self,
    {
        match self {
            Symbol::Func(n) => Symbol::Func(n.clone()),
            Symbol::Event(n) => Symbol::Event(n.clone()),
        }
    }
}

/// A target in the kernel.
#[derive(Debug, PartialEq)]
pub struct KernelProbe {
    pub symbol: Symbol,
}

impl KernelProbe {
    /// The target that `symbol` names.
    pub fn new(symbol: Symbol) -> (probe: KernelProbe)
        ensures
            probe.symbol == symbol,
    {
        KernelProbe { symbol }
    }
}

impl Clone for KernelProbe {
    fn clone(&self) -> (r: KernelProbe)
        ensures
            r == *self,
    {
        KernelProbe { symbol: self.symbol.clone() }
    }
}

/// An address in the code of a process.
#[derive(Debug, PartialEq)]
pub struct UserAddress {
    /// The address.
    pub addr: u64,
    /// The path of the target's binary.
    pub path: String,
    /// The target's pid.
    pub pid: i32,
}

impl Clone for UserAddress {
    fn clone(&self) -> (r: UserAddress)
        ensures
            r == *self,
    {
        UserAddress { addr: self.addr, path: self.path.clone(), pid: self.pid }
    }
}

/// A target in a process and what kind of thing it is.
#[derive(Debug, PartialEq)]
pub enum UserTarget {
    /// An address in the process's code.
    Address(UserAddress),
    /// A static marker of the process's binary.
    Marker(UsdtProbe),
}

/// The kinds of probes.
#[derive(Clone, Copy, Debug, PartialEq, Eq, Structural)]
pub enum ProbeKind {
    Kprobe,
    RawTracepoint,
    Uprobe,
    Usdt,
}

/// The number of kinds of probes.
pub const PROBE_VARIANTS: usize = 4;

impl ProbeKind {
    /// The place of the kind in a table with one slot for each kind.
    pub open spec fn index_spec(self) -> usize {
        match self {
            ProbeKind::Kprobe => 0,
            ProbeKind::RawTracepoint => 1,
            ProbeKind::Uprobe => 2,
            ProbeKind::Usdt => 3,
        }
    }

    /// The place of the kind in a table with one slot for each kind.
    #[verifier::when_used_as_spec(index_spec)]
    pub fn index(self) -> (i: usize)
        ensures
            i == self.index_spec(),
            i < PROBE_VARIANTS,
    {
        match self {
            ProbeKind::Kprobe => 0,
            ProbeKind::RawTracepoint => 1,
            ProbeKind::Uprobe => 2,
            ProbeKind::Usdt => 3,
        }
    }

    /// The kind whose place is `i`, if `i` is a place of the table.
    pub fn from_index(i: usize) -> (r: Option<ProbeKind>)
        ensures
            i < PROBE_VARIANTS ==> r is Some && r->Some_0.index_spec() == i,
            i >= PROBE_VARIANTS ==> r is None,
    {
        if i == 0 {
            Some(ProbeKind::Kprobe)
        } else if i == 1 {
            Some(ProbeKind::RawTracepoint)
        } else if i == 2 {
            Some(ProbeKind::Uprobe)
        } else if i == 3 {
            Some(ProbeKind::Usdt)
        } else {
            None
        }
    }

    /// What [`ProbeKind::name`] returns.
    pub open spec fn name_spec(self) -> Seq<char> {
        match self {
            ProbeKind::Kprobe => "kprobe"@,
            ProbeKind::RawTracepoint => "raw tracepoint"@,
            ProbeKind::Uprobe => "uprobe"@,
            ProbeKind::Usdt => "usdt"@,
        }
    }

    /// The kind's name, for messages.
    pub fn name(self) -> (name: &'static str)
        ensures
            name@ == self.name_spec(),
    {
        match self {
            ProbeKind::Kprobe => "kprobe",
            ProbeKind::RawTracepoint => "raw tracepoint",
            ProbeKind::Uprobe => "uprobe",
            ProbeKind::Usdt => "usdt",
        }
    }
}

/// A probe: everything needed to target a point of a running system.
#[derive(Debug, PartialEq)]
pub enum Probe {
    /// The entry of a kernel function.
    Kprobe(KernelProbe),
    /// A static event point of the kernel.
    RawTracepoint(KernelProbe),
    /// An address in the code of a process.
    Uprobe(UserAddress),
    /// A static marker of a process.
    Usdt(UsdtProbe),
}

impl Probe {
    /// The probe's kind.
    pub open spec fn kind_spec(&self) -> ProbeKind {
        match *self {
            Probe::Kprobe(_) => ProbeKind::Kprobe,
            Probe::RawTracepoint(_) => ProbeKind::RawTracepoint,
            Probe::Uprobe(_) => ProbeKind::Uprobe,
            Probe::Usdt(_) => ProbeKind::Usdt,
        }
    }

    /// The probe's kind.
    #[verifier::when_used_as_spec(kind_spec)]
    pub fn kind(&self) -> (kind: ProbeKind)
        ensures
            kind == self.kind_spec(),
    {
        match self {
            Probe::Kprobe(_) => ProbeKind::Kprobe,
            Probe::RawTracepoint(_) => ProbeKind::RawTracepoint,
            Probe::Uprobe(_) => ProbeKind::Uprobe,
            Probe::Usdt(_) => ProbeKind::Usdt,
        }
    }

    /// Whether the probe's target is of the kind that the probe asks for: a
    /// function for a kprobe, an event for a raw tracepoint. The constructors
    /// make such probes only.
    pub open spec fn is_valid_spec(&self) -> bool {
        match *self {
            Probe::Kprobe(p) => p.symbol is Func,
            Probe::RawTracepoint(p) => p.symbol is Event,
            Probe::Uprobe(_) => true,
            Probe::Usdt(_) => true,
        }
    }

    /// Whether the probe's target is of the kind that the probe asks for.
    #[verifier::when_used_as_spec(is_valid_spec)]
    pub fn is_valid(&self) -> (b: bool)
        ensures
            b == self.is_valid_spec(),
    {
        match self {
            Probe::Kprobe(p) => match p.symbol {
                Symbol::Func(_) => true,
                Symbol::Event(_) => false,
            },
            Probe::RawTracepoint(p) => match p.symbol {
                Symbol::Func(_) => false,
                Symbol::Event(_) => true,
            },
            Probe::Uprobe(_) => true,
            Probe::Usdt(_) => true,
        }
    }

    /// What [`Probe::kprobe`] returns.
    pub open spec fn kprobe_spec(symbol: Symbol) -> Result<Probe, Error> {
        match symbol {
            Symbol::Func(_) => Ok(Probe::Kprobe(KernelProbe { symbol })),
            Symbol::Event(_) => Err(Error::TargetKindMismatch),
        }
    }

    /// A probe on the entry of the kernel function `symbol`.
    ///
    /// Fails with [`Error::TargetKindMismatch`] if `symbol` names an event.
    pub fn kprobe(symbol: Symbol) -> (r: Result<Probe, Error>)
        ensures
            r == Probe::kprobe_spec(symbol),
    {
        match symbol {
            Symbol::Func(_) => Ok(Probe::Kprobe(KernelProbe::new(symbol))),
            Symbol::Event(_) => Err(Error::TargetKindMismatch),
        }
    }

    /// What [`Probe::raw_tracepoint`] returns.
    pub open spec fn raw_tracepoint_spec(symbol: Symbol) -> Result<Probe, Error> {
        match symbol {
            Symbol::Event(_) => Ok(Probe::RawTracepoint(KernelProbe { symbol })),
            Symbol::Func(_) => Err(Error::TargetKindMismatch),
        }
    }

    /// A probe on the kernel's static event point `symbol`.
    ///
    /// Fails with [`Error::TargetKindMismatch`] if `symbol` names a function.
    pub fn raw_tracepoint(symbol: Symbol) -> (r: Result<Probe, Error>)
        ensures
            r == Probe::raw_tracepoint_spec(symbol),
    {
        match symbol {
            Symbol::Event(_) => Ok(Probe::RawTracepoint(KernelProbe::new(symbol))),
            Symbol::Func(_) => Err(Error::TargetKindMismatch),
        }
    }

    /// What [`Probe::uprobe`] returns.
    pub open spec fn uprobe_spec(target: UserTarget) -> Result<Probe, Error> {
        match target {
            UserTarget::Address(address) => Ok(Probe::Uprobe(address)),
            UserTarget::Marker(_) => Err(Error::TargetKindMismatch),
        }
    }

    /// A probe on an address in the code of a process.
    ///
    /// Fails with [`Error::TargetKindMismatch`] if `target` is a marker.
    pub fn uprobe(target: UserTarget) -> (r: Result<Probe, Error>)
        ensures
            r == Probe::uprobe_spec(target),
    {
        match target {
            UserTarget::Address(address) => Ok(Probe::Uprobe(address)),
            UserTarget::Marker(_) => Err(Error::TargetKindMismatch),
        }
    }

    /// What [`Probe::usdt`] returns.
    pub open spec fn usdt_spec(target: UserTarget) -> Result<Probe, Error> {
        match target {
            UserTarget::Marker(marker) => Ok(Probe::Usdt(marker)),
            UserTarget::Address(_) => Err(Error::TargetKindMismatch),
        }
    }

    /// A probe on a static marker of a process.
    ///
    /// Fails with [`Error::TargetKindMismatch`] if `target` is an address.
    pub fn usdt(target: UserTarget) -> (r: Result<Probe, Error>)
        ensures
            r == Probe::usdt_spec(target),
    {
        match target {
            UserTarget::Marker(marker) => Ok(Probe::Usdt(marker)),
            UserTarget::Address(_) => Err(Error::TargetKindMismatch),
        }
    }

    /// What [`Probe::as_key`] returns.
    pub open spec fn as_key_spec(&self) -> usize {
        self.kind_spec().index_spec()
    }

    /// The place of the probe's kind in a table with one slot for each kind.
    #[verifier::when_used_as_spec(as_key_spec)]
    pub fn as_key(&self) -> (key: usize)
        ensures
            key == self.as_key_spec(),
            key < PROBE_VARIANTS,
    {
        match self {
            Probe::Kprobe(_) => 0,
            Probe::RawTracepoint(_) => 1,
            Probe::Uprobe(_) => 2,
            Probe::Usdt(_) => 3,
        }
    }

    /// The name of the probe's kind, as messages show it.
    pub fn to_string(&self) -> (r: String)
        ensures
            r@ == self.kind_spec().name_spec(),
    {
        self.kind().name().to_owned()
    }
}

impl Clone for Probe {
    fn clone(&self) -> (r: Probe)
        ensures
            r == *self,
    {
        match self {
            Probe::Kprobe(p) => Probe::Kprobe(p.clone()),
            Probe::RawTracepoint(p) => Probe::RawTracepoint(p.clone()),
            Probe::Uprobe(p) => Probe::Uprobe(p.clone()),
            Probe::Usdt(p) => Probe::Usdt(p.clone()),
        }
    }
}

/// The two constructors of kernel probes mirror each other: a function
/// symbol makes a kprobe and no raw tracepoint, an event symbol makes a raw
/// tracepoint and no kprobe, and what is refused is refused with
/// [`Error::TargetKindMismatch`].
pub proof fn lemma_kernel_probes_mirror(symbol: Symbol)
    ensures
        Probe::kprobe_spec(symbol) is Ok <==> symbol is Func,
        Probe::raw_tracepoint_spec(symbol) is Ok <==> symbol is Event,
        Probe::kprobe_spec(symbol) is Ok <==> Probe::raw_tracepoint_spec(symbol) is Err,
        Probe::kprobe_spec(symbol) is Err ==> Probe::kprobe_spec(symbol)->Err_0
            == Error::TargetKindMismatch,
        Probe::raw_tracepoint_spec(symbol) is Err ==> Probe::raw_tracepoint_spec(symbol)->Err_0
            == Error::TargetKindMismatch,
{
}

/// The two constructors of user probes mirror each other in the same way.
pub proof fn lemma_user_probes_mirror(target: UserTarget)
    ensures
        Probe::uprobe_spec(target) is Ok <==> target is Address,
        Probe::usdt_spec(target) is Ok <==> target is Marker,
        Probe::uprobe_spec(target) is Ok <==> Probe::usdt_spec(target) is Err,
{
}

/// Whatever a constructor makes is valid, of the kind the constructor is
/// for, and holds the target it was given.
pub proof fn lemma_constructed_probes_are_valid(symbol: Symbol, target: UserTarget)
    ensures
        Probe::kprobe_spec(symbol) matches Ok(p) ==> p.is_valid_spec() && p.kind_spec()
            == ProbeKind::Kprobe && p->Kprobe_0.symbol == symbol,
        Probe::raw_tracepoint_spec(symbol) matches Ok(p) ==> p.is_valid_spec() && p.kind_spec()
            == ProbeKind::RawTracepoint && p->RawTracepoint_0.symbol == symbol,
        Probe::uprobe_spec(target) matches Ok(p) ==> p.is_valid_spec() && p.kind_spec()
            == ProbeKind::Uprobe,
        Probe::usdt_spec(target) matches Ok(p) ==> p.is_valid_spec() && p.kind_spec()
            == ProbeKind::Usdt,
{
}

/// Probes of different kinds have different keys, and probes of one kind have
/// one key.
pub proof fn lemma_as_key_injective(a: Probe, b: Probe)
    ensures
        a.as_key_spec() == b.as_key_spec() <==> a.kind_spec() == b.kind_spec(),
{
}

/// Every key is a place of a table of [`PROBE_VARIANTS`] slots.
pub proof fn lemma_as_key_in_range(p: Probe)
    ensures
        p.as_key_spec() < PROBE_VARIANTS,
{
}

/// Every place of a table of [`PROBE_VARIANTS`] slots is the place of one
/// kind, and of no other.
pub proof fn lemma_index_onto(i: usize)
    requires
        i < PROBE_VARIANTS,
    ensures
        exists|k: ProbeKind| #[trigger] k.index_spec() == i,
        forall|a: ProbeKind, b: ProbeKind|
            #[trigger] a.index_spec() == i && #[trigger] b.index_spec() == i ==> a == b,
{
    assert(ProbeKind::Kprobe.index_spec() == 0);
    assert(ProbeKind::RawTracepoint.index_spec() == 1);
    assert(ProbeKind::Uprobe.index_spec() == 2);
    assert(ProbeKind::Usdt.index_spec() == 3);
}

/// An auxiliary program that is chained into the program of a probe, with the
/// maps it asks to share.
pub struct Hook {
    bpf_prog: &'static [u8],
    maps: MapSet,
}

/// What a hook is: its compiled program and the maps it asks to reuse.
pub struct HookView {
    pub prog: Seq<u8>,
    pub maps: Seq<(Seq<char>, i32)>,
}

impl View for Hook {
    type V = HookView;

    open spec fn view(&self) -> HookView {
        HookView { prog: self.prog(), maps: self.maps() }
    }
}

/// What a list of hooks is, in order.
pub open spec fn hooks_view(hooks: Seq<Hook>) -> Seq<HookView> {
    hooks.map_values(|h: Hook| h@)
}

impl Hook {
    /// The hook's compiled program.
    pub closed spec fn prog(&self) -> Seq<u8> {
        self.bpf_prog@
    }

    /// The maps the hook asks to reuse, in the order of the requests.
    pub closed spec fn maps(&self) -> Seq<(Seq<char>, i32)> {
        self.maps@
    }

    /// A hook made of a compiled program, which reuses no map yet.
    pub fn from(bpf_prog: &'static [u8]) -> (hook: Hook)
        ensures
            hook.prog() == bpf_prog@,
            hook.maps() == Seq::<(Seq<char>, i32)>::empty(),
    {
        Hook { bpf_prog, maps: MapSet::new() }
    }

    /// Requests that the hook reuse the map behind `fd` under `name`. This is
    /// for maps of this hook alone; maps that every program shares are asked
    /// of the probe manager.
    ///
    /// Fails with [`Error::NameConflict`] if the hook already reuses a map
    /// under that name; the hook is then left as it was.
    pub fn reuse_map(&mut self, name: &str, fd: i32) -> (r: Result<&mut Self, Error>)
        ensures
            r is Err <==> map_names(old(self).maps()).contains(name@),
            match r {
                Ok(hook) => {
                    &&& hook.prog() == old(self).prog()
                    &&& hook.maps() == old(self).maps().push((name@, fd))
                    &&& *final(self) == *final(hook)
                },
                Err(e) => e == Error::NameConflict && *final(self) == *old(self),
            },
    {
        match self.maps.insert(name, fd) {
            Ok(()) => Ok(self),
            Err(e) => Err(e),
        }
    }

    /// The hook's compiled program.
    pub fn bpf_prog(&self) -> (prog: &'static [u8])
        ensures
            prog@ == self.prog(),
    {
        self.bpf_prog
    }

    /// The maps the hook asks to reuse, in the order of the requests. No name
    /// occurs twice among them.
    pub fn map_fds(&self) -> (maps: Vec<(String, i32)>)
        ensures
            crate::maps::maps_view(maps@) == self.maps(),
            map_names(self.maps()).no_duplicates(),
    {
        self.maps.to_vec()
    }
}

impl Clone for Hook {
    fn clone(&self) -> (r: Hook)
        ensures
            r@ == self@,
    {
        Hook { bpf_prog: self.bpf_prog, maps: self.maps.clone() }
    }
}

} // verus!
