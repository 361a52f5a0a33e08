//! The probe manager: what collectors ask for, and how it is attached.
//!
//! Work with the manager has two phases. While collectors initialize, they
//! register hooks on probes and ask for maps to be shared; the manager only
//! takes note. Then the manager turns into an attacher, which gives each
//! kind of probe its builder, initialized once with everything that was
//! accumulated, and attaches the probes one after the other. Nothing can be
//! registered any more at that point, so no builder ever sees a hook arrive
//! after its first attach.

use crate::builder::{
    Attachment, AttachmentView, BuilderView, LinkHandle, LoaderReply, LoaderRequest,
    ProbeBuilder,
};
use crate::error::Error;
use crate::maps::{map_names, MapSet};
use crate::probe::{hooks_view, Hook, HookView, Probe, ProbeKind, PROBE_VARIANTS};
use vstd::prelude::*;

verus! {

/// What was registered for one kind of probe: the hooks, and the probes to
/// attach, both in the order of registration. The builder that a slot holds
/// is no part of this: until the manager turns into an attacher it is as it
/// was created, with no map, no hook and no link.
pub struct SlotView {
    pub hooks: Seq<HookView>,
    pub targets: Seq<Probe>,
}

/// The probes registered in a slot; none in a slot that was never used.
pub open spec fn slot_targets(slot: Option<SlotView>) -> Seq<Probe> {
    match slot {
        Some(s) => s.targets,
        None => Seq::empty(),
    }
}

/// The probes registered in the first `upto` slots, slot by slot.
pub open spec fn queued(slots: Seq<Option<SlotView>>, upto: int) -> Seq<Probe>
    decreases upto,
{
    if upto <= 0 {
        Seq::empty()
    } else {
        queued(slots, upto - 1) + slot_targets(slots[upto - 1])
    }
}

/// The builder of a slot, initialized with the shared maps and the slot's
/// hooks; none for a slot that was never used.
pub open spec fn slot_builder(maps: Seq<(Seq<char>, i32)>, slot: Option<SlotView>, kind: ProbeKind) -> Option<BuilderView> {
    match slot {
        Some(s) => Some(BuilderView { kind, map_fds: maps, hooks: s.hooks, links: Seq::empty() }),
        None => None,
    }
}

/// The kind whose place in the table is `k`.
pub open spec fn kind_at(k: int) -> ProbeKind {
    if k == 0 {
        ProbeKind::Kprobe
    } else if k == 1 {
        ProbeKind::RawTracepoint
    } else if k == 2 {
        ProbeKind::Uprobe
    } else {
        ProbeKind::Usdt
    }
}

/// What the manager holds: the maps that all programs share, and one slot
/// for each kind of probe.
pub struct ManagerView {
    pub maps: Seq<(Seq<char>, i32)>,
    pub slots: Seq<Option<SlotView>>,
}

impl ManagerView {
    /// What holds of every manager: it has a slot for each kind, no map name
    /// occurs twice, and a slot holds only valid probes of its kind.
    pub open spec fn wf(self) -> bool {
        &&& self.slots.len() == PROBE_VARIANTS
        &&& map_names(self.maps).no_duplicates()
        &&& forall|k: int, i: int|
            #![trigger self.slots[k]->Some_0.targets[i]]
            0 <= k < self.slots.len() && self.slots[k] is Some && 0 <= i
                < self.slots[k]->Some_0.targets.len() ==> {
                let p = self.slots[k]->Some_0.targets[i];
                p.is_valid_spec() && p.as_key_spec() == k
            }
    }

    /// The manager after `hook` was registered on `probe`: both are added to
    /// the slot of the probe's kind, which comes into use if it was not.
    pub open spec fn register(self, hook: HookView, probe: Probe) -> ManagerView {
        let k = probe.as_key_spec() as int;
        let slot = match self.slots[k] {
            Some(s) => s,
            None => SlotView { hooks: Seq::empty(), targets: Seq::empty() },
        };
        ManagerView {
            slots: self.slots.update(
                k,
                Some(SlotView { hooks: slot.hooks.push(hook), targets: slot.targets.push(probe) }),
            ),
            ..self
        }
    }

    /// The attacher that the manager turns into: a builder for each slot in
    /// use, initialized with the shared maps and the slot's hooks, and all
    /// registered probes queued, kind by kind in the order of the table,
    /// with the attach of the first one begun.
    pub open spec fn start(self) -> AttacherView {
        let builders = Seq::new(
            self.slots.len(),
            |k: int| slot_builder(self.maps, self.slots[k], kind_at(k)),
        );
        let queue = queued(self.slots, self.slots.len() as int);
        AttacherView {
            builders,
            queue,
            next: 0,
            current: AttacherView::begin(builders, queue, 0),
            failure: None,
        }
    }
}

/// The state of the attacher.
pub struct AttacherView {
    /// The builder of each kind; none for a kind without probes.
    pub builders: Seq<Option<BuilderView>>,
    /// The probes to attach, in order.
    pub queue: Seq<Probe>,
    /// How many probes of the queue are attached.
    pub next: int,
    /// The attach that is going on, of the probe at `next`.
    pub current: Option<AttachmentView>,
    /// Why attaching stopped, if an attach failed.
    pub failure: Option<Error>,
}

impl AttacherView {
    /// The attach of the probe at `next`, as its builder begins it; none
    /// past the end of the queue.
    pub open spec fn begin(builders: Seq<Option<BuilderView>>, queue: Seq<Probe>, next: int) -> Option<AttachmentView> {
        if 0 <= next < queue.len() {
            Some(builders[queue[next].as_key_spec() as int]->Some_0.begin(queue[next]))
        } else {
            None
        }
    }

    /// What holds of every attacher.
    pub open spec fn wf(self) -> bool {
        &&& self.builders.len() == PROBE_VARIANTS
        &&& 0 <= self.next <= self.queue.len()
        &&& forall|k: int|
            0 <= k < self.builders.len() && self.builders[k] is Some ==> (
            #[trigger] self.builders[k])->Some_0.kind == kind_at(k)
        &&& forall|i: int|
            0 <= i < self.queue.len() ==> self.builders[(#[trigger] self.queue[i]).as_key_spec() as int] is Some
        &&& match self.current {
            Some(attachment) => {
                &&& self.failure is None
                &&& self.next < self.queue.len()
                &&& attachment.wf()
                &&& !attachment.finished()
                &&& attachment.probe == self.queue[self.next]
            },
            None => self.failure is Some || self.next == self.queue.len(),
        }
    }

    /// The request that the loader is to carry out next; none once attaching
    /// has come to its end.
    pub open spec fn request(self) -> Option<crate::builder::RequestView> {
        match self.current {
            Some(attachment) => attachment.request(),
            None => None,
        }
    }

    /// How attaching ended: well once every probe of the queue is attached,
    /// and with the failure of the first attach that failed; none while it
    /// goes on.
    pub open spec fn result(self) -> Option<Result<(), Error>> {
        match self.failure {
            Some(e) => Some(Err(e)),
            None => if self.current is None {
                Some(Ok(()))
            } else {
                None
            },
        }
    }

    /// The attacher after the loader's reply to its request.
    ///
    /// The reply goes to the attach that is going on. If that attaches the
    /// probe, its builder takes over the links and the attach of the next
    /// probe begins. If it fails, attaching stops with its failure, handed
    /// on as it is; probes that were attached before stay attached.
    pub open spec fn step(self, reply: LoaderReply) -> AttacherView {
        match self.current {
            None => self,
            Some(attachment) => {
                let after = attachment.step(reply);
                match after.result() {
                    None => AttacherView { current: Some(after), ..self },
                    Some(Err(e)) => AttacherView { current: None, failure: Some(e), ..self },
                    Some(Ok(())) => {
                        let k = after.probe.as_key_spec() as int;
                        let builder = self.builders[k]->Some_0;
                        let builders = self.builders.update(
                            k,
                            Some(BuilderView { links: builder.links + after.links, ..builder }),
                        );
                        AttacherView {
                            builders,
                            next: self.next + 1,
                            current: AttacherView::begin(builders, self.queue, self.next + 1),
                            ..self
                        }
                    },
                }
            },
        }
    }
}

/// Every probe that was registered is queued for attachment, and nothing
/// else: the queue holds the probes of each slot, in the order of
/// registration.
pub proof fn lemma_queued_holds_slot(slots: Seq<Option<SlotView>>, upto: int, k: int, i: int)
    requires
        0 <= k < upto <= slots.len(),
        slots[k] is Some,
        0 <= i < slots[k]->Some_0.targets.len(),
    ensures
        queued(slots, upto).contains(slots[k]->Some_0.targets[i]),
    decreases upto,
{
    let last = slot_targets(slots[upto - 1]);
    let before = queued(slots, upto - 1);
    if k == upto - 1 {
        assert((before + last)[before.len() + i] == last[i]);
    } else {
        lemma_queued_holds_slot(slots, upto - 1, k, i);
        let j = choose|j: int| 0 <= j < before.len() && before[j] == slots[k]->Some_0.targets[i];
        assert((before + last)[j] == before[j]);
    }
}

/// A queued probe comes from a slot: it is valid, and the slot of its kind
/// is in use.
pub proof fn lemma_queued_from_slot(m: ManagerView, upto: int, i: int)
    requires
        m.wf(),
        0 <= upto <= m.slots.len(),
        0 <= i < queued(m.slots, upto).len(),
    ensures
        queued(m.slots, upto)[i].is_valid_spec(),
        m.slots[queued(m.slots, upto)[i].as_key_spec() as int] is Some,
    decreases upto,
{
    if upto > 0 {
        let before = queued(m.slots, upto - 1);
        if i < before.len() {
            lemma_queued_from_slot(m, upto - 1, i);
        } else {
            let j = i - before.len();
            assert(m.slots[upto - 1] is Some);
            assert(queued(m.slots, upto)[i] == m.slots[upto - 1]->Some_0.targets[j]);
        }
    }
}

/// Builders are initialized before anything is attached, and once: when the
/// manager turns into an attacher, the builder of every kind in use holds
/// the maps and the hooks that were accumulated for it, and no link yet.
pub proof fn lemma_start(m: ManagerView)
    requires
        m.wf(),
    ensures
        m.start().wf(),
        m.start().next == 0,
        forall|k: int|
            0 <= k < PROBE_VARIANTS ==> #[trigger] m.start().builders[k] == slot_builder(
                m.maps,
                m.slots[k],
                kind_at(k),
            ),
{
    let s = m.start();
    assert forall|i: int| 0 <= i < s.queue.len() implies s.builders[(#[trigger] s.queue[
        i
    ]).as_key_spec() as int] is Some by {
        lemma_queued_from_slot(m, m.slots.len() as int, i);
    }
    if s.queue.len() > 0 {
        lemma_queued_from_slot(m, m.slots.len() as int, 0);
        let probe = s.queue[0];
        assert(s.builders[probe.as_key_spec() as int] is Some);
        assert(kind_at(probe.as_key_spec() as int) == probe.kind_spec());
    }
}

/// A step keeps an attacher well-formed.
pub proof fn lemma_attacher_step_wf(s: AttacherView, reply: LoaderReply)
    requires
        s.wf(),
    ensures
        s.step(reply).wf(),
{
    if let Some(attachment) = s.current {
        crate::builder::lemma_step_wf(attachment, reply);
        let after = attachment.step(reply);
        if after.result() == Some(Ok::<(), Error>(())) {
            let next = s.step(reply);
            assert(after.probe == attachment.probe);
            let k = after.probe.as_key_spec() as int;
            assert(s.builders[s.queue[s.next].as_key_spec() as int] is Some);
            assert forall|i: int| 0 <= i < next.queue.len() implies next.builders[(
            #[trigger] next.queue[i]).as_key_spec() as int] is Some by {
                assert(s.builders[s.queue[i].as_key_spec() as int] is Some);
            }
            if next.next < next.queue.len() {
                let probe = next.queue[next.next];
                let kp = probe.as_key_spec() as int;
                assert(next.builders[kp] is Some);
                assert(next.builders[kp]->Some_0.kind == kind_at(kp));
                assert(kind_at(kp) == probe.kind_spec());
            }
        }
    }
}

/// The failure of an attach is handed on as it is, and stops attaching: no
/// further request is made.
pub proof fn lemma_failure_propagates(s: AttacherView, reply: LoaderReply, e: Error)
    requires
        s.wf(),
        s.current is Some,
        s.current->Some_0.step(reply).result() == Some(Err::<(), Error>(e)),
    ensures
        s.step(reply).result() == Some(Err::<(), Error>(e)),
        s.step(reply).request() is None,
        s.step(reply).builders == s.builders,
{
}

/// Builders take links over by whole attaches only. A reply changes the
/// links of no builder, unless it completes the attach of a probe; then the
/// builder of that probe's kind, and no other, gets the links of the attach
/// added after those it had: one for each of its hooks, in order, and one
/// for the primary program.
pub proof fn lemma_links_by_whole_attaches(s: AttacherView, reply: LoaderReply, k: int)
    requires
        s.wf(),
        0 <= k < PROBE_VARIANTS,
    ensures
        s.step(reply).builders[k] is Some <==> s.builders[k] is Some,
        s.builders[k] is Some ==> {
            let before = s.builders[k]->Some_0;
            let after = s.step(reply).builders[k]->Some_0;
            let completes = s.current is Some && s.current->Some_0.step(reply).phase
                == crate::builder::Phase::Attached && s.queue[s.next].as_key_spec() == k;
            &&& after.kind == before.kind
            &&& after.map_fds == before.map_fds
            &&& after.hooks == before.hooks
            &&& !completes ==> after.links == before.links
            &&& completes ==> after.links == before.links + s.current->Some_0.step(reply).links
                && s.current->Some_0.step(reply).links.len() == s.current->Some_0.hooks.len() + 1
        },
{
    if let Some(attachment) = s.current {
        crate::builder::lemma_step_wf(attachment, reply);
        let after = attachment.step(reply);
        assert(after.probe == attachment.probe);
        assert(s.builders[s.queue[s.next].as_key_spec() as int] is Some);
    }
}

/// Once attaching has come to its end, replies change nothing.
pub proof fn lemma_finished_is_final(s: AttacherView, reply: LoaderReply)
    requires
        s.result() is Some,
        s.wf(),
    ensures
        s.step(reply) == s,
{
}

/// What was registered for one kind of probe, with the builder that will
/// attach it.
struct Slot {
    builder: ProbeBuilder,
    hooks: Vec<Hook>,
    targets: Vec<Probe>,
}

/// What a slot is.
spec fn slot_view(slot: Option<Slot>) -> Option<SlotView> {
    match slot {
        Some(s) => Some(SlotView { hooks: hooks_view(s.hooks@), targets: s.targets@ }),
        None => None,
    }
}

/// A table of slots read as a table with a slot for each kind: kinds that
/// the table does not reach yet have no slot.
spec fn table_view(slots: Seq<Option<Slot>>) -> Seq<Option<SlotView>> {
    Seq::new(
        PROBE_VARIANTS as nat,
        |k: int|
            if k < slots.len() {
                slot_view(slots[k])
            } else {
                None
            },
    )
}

/// The builder of a kind as it is created, before it is initialized.
spec fn fresh_builder(kind: ProbeKind) -> BuilderView {
    BuilderView { kind, map_fds: Seq::empty(), hooks: Seq::empty(), links: Seq::empty() }
}

/// Takes note of what collectors want instrumented.
///
/// The table of slots grows as kinds come into use: a kind gets its slot,
/// and with it its builder, the first time a hook is registered on a probe
/// of that kind.
pub struct ProbeManager {
    maps: MapSet,
    slots: Vec<Option<Slot>>,
}

impl View for ProbeManager {
    type V = ManagerView;

    closed spec fn view(&self) -> ManagerView {
        ManagerView { maps: self.maps@, slots: table_view(self.slots@) }
    }
}

impl ProbeManager {
    #[verifier::type_invariant]
    spec fn well_formed(&self) -> bool {
        &&& self.slots@.len() <= PROBE_VARIANTS
        &&& self@.wf()
        &&& forall|k: int|
            0 <= k < self.slots@.len() && self.slots@[k] is Some ==> (#[trigger] self.slots@[k])->Some_0.builder@
                == fresh_builder(kind_at(k))
    }

    /// A manager with nothing registered.
    pub fn new() -> (manager: ProbeManager)
        ensures
            manager@.maps == Seq::<(Seq<char>, i32)>::empty(),
            manager@.slots == Seq::new(PROBE_VARIANTS as nat, |k: int| None::<SlotView>),
            manager@.wf(),
    {
        let manager = ProbeManager { maps: MapSet::new(), slots: Vec::new() };
        assert(manager@.slots =~= Seq::new(PROBE_VARIANTS as nat, |k: int| None::<SlotView>));
        manager
    }

    /// Requests that every program reuse the map behind `fd` under `name`.
    /// Builders get these maps when they are initialized.
    ///
    /// Fails with [`Error::NameConflict`] if a map is already reused under
    /// that name; the manager is then left as it was.
    pub fn reuse_map(&mut self, name: &str, fd: i32) -> (r: Result<(), Error>)
        ensures
            final(self)@.wf(),
            r is Err <==> map_names(old(self)@.maps).contains(name@),
            r is Err ==> r == Err::<(), Error>(Error::NameConflict) && final(self)@ == old(self)@,
            r is Ok ==> final(self)@ == (ManagerView {
                maps: old(self)@.maps.push((name@, fd)),
                ..old(self)@
            }),
    {
        proof {
            use_type_invariant(&*self);
        }
        let mut maps = MapSet::new();
        std::mem::swap(&mut maps, &mut self.maps);
        let r = maps.insert(name, fd);
        self.maps = maps;
        proof {
            assert(self@.slots =~= old(self)@.slots);
        }
        r
    }

    /// Registers `hook` on `probe`: the hook joins the hooks of the probe's
    /// kind, and the probe joins the probes to attach.
    ///
    /// Fails with [`Error::TargetKindMismatch`], and changes nothing, if the
    /// probe's target is not of the kind the probe asks for. Such a probe is
    /// stopped here, so that none is ever met while attaching.
    pub fn register_hook_to(&mut self, hook: Hook, probe: Probe) -> (r: Result<(), Error>)
        ensures
            final(self)@.wf(),
            r is Err <==> !probe.is_valid_spec(),
            r is Err ==> r == Err::<(), Error>(Error::TargetKindMismatch) && final(self)@ == old(
                self,
            )@,
            r is Ok ==> final(self)@ == old(self)@.register(hook@, probe),
    {
        proof {
            use_type_invariant(&*self);
        }
        if !probe.is_valid() {
            return Err(Error::TargetKindMismatch);
        }
        let k = probe.as_key();
        let mut slots: Vec<Option<Slot>> = Vec::new();
        std::mem::swap(&mut slots, &mut self.slots);
        while slots.len() <= k
            invariant
                k < PROBE_VARIANTS,
                old(self).slots@.len() <= slots@.len() <= PROBE_VARIANTS,
                forall|j: int| 0 <= j < old(self).slots@.len() ==> slots@[j] == old(self).slots@[j],
                forall|j: int| old(self).slots@.len() <= j < slots@.len() ==> slots@[j] is None,
            decreases PROBE_VARIANTS - slots@.len(),
        {
            slots.push(None);
        }
        let ghost padded = slots@;
        proof {
            assert(table_view(padded) =~= old(self)@.slots);
        }
        let mut slot = match slots.remove(k) {
            Some(slot) => slot,
            None => Slot {
                builder: ProbeBuilder::new(probe.kind()),
                hooks: Vec::new(),
                targets: Vec::new(),
            },
        };
        let ghost before = slot_view(Some(slot))->Some_0;
        let ghost added = hook@;
        proof {
            assert(table_view(padded)[k as int] == slot_view(padded[k as int]));
            assert(before == match old(self)@.slots[k as int] {
                Some(s) => s,
                None => SlotView { hooks: Seq::empty(), targets: Seq::empty() },
            }) by {
                if padded[k as int] is None {
                    assert(before.hooks =~= Seq::empty());
                    assert(before.targets =~= Seq::empty());
                }
            }
        }
        slot.hooks.push(hook);
        slot.targets.push(probe);
        proof {
            assert(hooks_view(slot.hooks@) =~= before.hooks.push(added));
            assert(kind_at(k as int) == probe.kind_spec());
        }
        slots.insert(k, Some(slot));
        proof {
            let after = old(self)@.register(added, probe);
            assert(slots@ =~= padded.update(k as int, Some(slot)));
            assert forall|j: int| 0 <= j < PROBE_VARIANTS implies table_view(slots@)[j]
                == after.slots[j] by {
                if j != k {
                    assert(table_view(padded)[j] == old(self)@.slots[j]);
                }
            }
            assert(table_view(slots@) =~= after.slots);
            assert forall|j: int, i: int|
                #![trigger after.slots[j]->Some_0.targets[i]]
                0 <= j < after.slots.len() && after.slots[j] is Some && 0 <= i
                    < after.slots[j]->Some_0.targets.len() implies {
                let p = after.slots[j]->Some_0.targets[i];
                p.is_valid_spec() && p.as_key_spec() == j
            } by {
                if j == k {
                    if i < before.targets.len() {
                        assert(old(self)@.slots[j]->Some_0.targets[i] == before.targets[i]);
                    }
                } else {
                    assert(old(self)@.slots[j]->Some_0.targets[i] == after.slots[j]->Some_0.targets[i]);
                }
            }
            assert(after.wf());
        }
        self.slots = slots;
        Ok(())
    }

    /// Ends the registration and turns the manager into the attacher of
    /// everything that was registered.
    ///
    /// Each kind in use gets its builder initialized, once, with the shared
    /// maps and the hooks registered for the kind. The probes are queued
    /// kind by kind, and the attach of the first one is begun.
    pub fn attach(self) -> (attacher: ProbeAttacher)
        ensures
            attacher@ == self@.start(),
            attacher@.wf(),
    {
        proof {
            use_type_invariant(&self);
            lemma_start(self@);
        }
        let ghost table = self@.slots;
        let ProbeManager { maps, slots } = self;
        let mut slots = slots;
        while slots.len() < PROBE_VARIANTS
            invariant
                slots@.len() <= PROBE_VARIANTS,
                table_view(slots@) == table,
                forall|j: int|
                    0 <= j < slots@.len() && slots@[j] is Some ==> (#[trigger] slots@[j])->Some_0.builder@
                        == fresh_builder(kind_at(j)),
            decreases PROBE_VARIANTS - slots@.len(),
        {
            let ghost shorter = slots@;
            slots.push(None);
            assert(table_view(slots@) =~= table_view(shorter));
        }
        let ghost padded = slots@;
        let mut builders: Vec<Option<ProbeBuilder>> = Vec::new();
        let mut queue: Vec<Probe> = Vec::new();
        let mut k: usize = 0;
        while k < PROBE_VARIANTS
            invariant
                k <= PROBE_VARIANTS,
                padded.len() == PROBE_VARIANTS,
                table.len() == PROBE_VARIANTS,
                table_view(padded) == table,
                slots@ == padded.skip(k as int),
                forall|j: int|
                    0 <= j < padded.len() && padded[j] is Some ==> (#[trigger] padded[j])->Some_0.builder@
                        == fresh_builder(kind_at(j)),
                builders@.len() == k,
                forall|j: int|
                    0 <= j < k ==> builder_view(#[trigger] builders@[j]) == slot_builder(
                        maps@,
                        table[j],
                        kind_at(j),
                    ),
                queue@ == queued(table, k as int),
            decreases PROBE_VARIANTS - k,
        {
            assert(slots@[0] == padded[k as int]);
            assert(table[k as int] == slot_view(padded[k as int]));
            let slot = slots.remove(0);
            assert(slots@ =~= padded.skip(k + 1));
            match slot {
                Some(slot) => {
                    let Slot { builder, hooks, targets } = slot;
                    let mut builder = builder;
                    let mut targets = targets;
                    let _ = builder.init(maps.to_vec(), hooks);
                    builders.push(Some(builder));
                    queue.append(&mut targets);
                },
                None => {
                    builders.push(None);
                    assert(queue@ =~= queue@ + Seq::<Probe>::empty());
                },
            }
            k += 1;
        }
        proof {
            assert(builders_view(builders@) =~= self@.start().builders);
            assert forall|j: int|
                0 <= j < builders@.len() && builders@[j] is Some implies (#[trigger] builders@[j])->Some_0@.kind
                == kind_at(j) by {
                assert(builder_view(builders@[j]) == self@.start().builders[j]);
            }
            assert forall|i: int| 0 <= i < queue@.len() implies builders@[(#[trigger] queue@[
                i
            ]).as_key_spec() as int] is Some by {
                let key = queue@[i].as_key_spec() as int;
                assert(self@.start().builders[key] is Some);
                assert(builder_view(builders@[key]) == self@.start().builders[key]);
            }
        }
        let current = begin(&builders, &queue, 0);
        ProbeAttacher { builders, queue, next: 0, current, failure: None }
    }
}

/// What a builder of the table is.
spec fn builder_view(builder: Option<ProbeBuilder>) -> Option<BuilderView> {
    match builder {
        Some(b) => Some(b@),
        None => None,
    }
}

/// What the table of builders is.
spec fn builders_view(builders: Seq<Option<ProbeBuilder>>) -> Seq<Option<BuilderView>> {
    builders.map_values(|b: Option<ProbeBuilder>| builder_view(b))
}

/// What the attach that is going on is.
spec fn current_view(current: Option<Attachment>) -> Option<AttachmentView> {
    match current {
        Some(a) => Some(a@),
        None => None,
    }
}

/// Begins the attach of the probe at `next`, if there is one.
fn begin(builders: &Vec<Option<ProbeBuilder>>, queue: &Vec<Probe>, next: usize) -> (current: Option<
    Attachment,
>)
    requires
        builders@.len() == PROBE_VARIANTS,
        forall|k: int|
            0 <= k < builders@.len() && builders@[k] is Some ==> (#[trigger] builders@[k])->Some_0@.kind
                == kind_at(k),
        forall|i: int|
            0 <= i < queue@.len() ==> builders@[(#[trigger] queue@[i]).as_key_spec() as int] is Some,
    ensures
        current_view(current) == AttacherView::begin(builders_view(builders@), queue@, next as int),
{
    if next >= queue.len() {
        return None;
    }
    let probe = &queue[next];
    let key = probe.as_key();
    assert(builders@[queue@[next as int].as_key_spec() as int] is Some);
    assert(kind_at(key as int) == probe.kind_spec());
    match &builders[key] {
        Some(builder) => match builder.attach(probe) {
            Ok(attachment) => Some(attachment),
            Err(_) => None,
        },
        None => None,
    }
}

/// Attaches everything that was registered with a manager, one probe after
/// the other.
pub struct ProbeAttacher {
    builders: Vec<Option<ProbeBuilder>>,
    queue: Vec<Probe>,
    next: usize,
    current: Option<Attachment>,
    failure: Option<Error>,
}

impl View for ProbeAttacher {
    type V = AttacherView;

    closed spec fn view(&self) -> AttacherView {
        AttacherView {
            builders: builders_view(self.builders@),
            queue: self.queue@,
            next: self.next as int,
            current: current_view(self.current),
            failure: self.failure,
        }
    }
}

impl ProbeAttacher {
    #[verifier::type_invariant]
    spec fn well_formed(&self) -> bool {
        self@.wf()
    }

    /// The request that the loader is to carry out next; none once attaching
    /// has come to its end.
    pub fn request(&self) -> (r: Option<LoaderRequest>)
        ensures
            self@.wf(),
            match r {
                Some(request) => self@.request() == Some(request@),
                None => self@.request() is None,
            },
    {
        proof {
            use_type_invariant(self);
        }
        match &self.current {
            Some(attachment) => attachment.request(),
            None => None,
        }
    }

    /// How attaching ended; none while it goes on.
    pub fn result(&self) -> (r: Option<Result<(), Error>>)
        ensures
            self@.wf(),
            r == self@.result(),
    {
        proof {
            use_type_invariant(self);
        }
        match self.failure {
            Some(e) => Some(Err(e)),
            None => if self.current.is_none() {
                Some(Ok(()))
            } else {
                None
            },
        }
    }

    /// The attacher after the loader's reply to its request.
    pub fn resume(self, reply: LoaderReply) -> (next: ProbeAttacher)
        ensures
            next@ == self@.step(reply),
    {
        proof {
            use_type_invariant(&self);
            lemma_attacher_step_wf(self@, reply);
        }
        let ghost before = self@;
        let ProbeAttacher { builders, queue, next, current, failure } = self;
        let mut builders = builders;
        match current {
            None => ProbeAttacher { builders, queue, next, current: None, failure },
            Some(attachment) => {
                let after = attachment.resume(reply);
                match after.result() {
                    None => ProbeAttacher { builders, queue, next, current: Some(after), failure },
                    Some(Err(e)) => ProbeAttacher {
                        builders,
                        queue,
                        next,
                        current: None,
                        failure: Some(e),
                    },
                    Some(Ok(())) => {
                        let queued = queue.len();
                        assert(next < queued) by {
                            assert(before.next < before.queue.len());
                        }
                        let key = queue[next].as_key();
                        assert(before.builders[key as int] is Some);
                        let ghost table = builders@;
                        let builder = match builders.remove(key) {
                            Some(builder) => {
                                let mut builder = builder;
                                builder.adopt(after.links());
                                Some(builder)
                            },
                            None => None,
                        };
                        builders.insert(key, builder);
                        proof {
                            assert(builders@ =~= table.update(key as int, builder));
                            assert(builders_view(builders@) =~= before.step(reply).builders);
                            let expected = before.step(reply);
                            assert forall|k: int|
                                0 <= k < builders@.len() && builders@[k] is Some implies (
                            #[trigger] builders@[k])->Some_0@.kind == kind_at(k) by {
                                assert(builder_view(builders@[k]) == expected.builders[k]);
                            }
                            assert forall|i: int| 0 <= i < queue@.len() implies builders@[(
                            #[trigger] queue@[i]).as_key_spec() as int] is Some by {
                                let at = queue@[i].as_key_spec() as int;
                                assert(expected.builders[at] is Some);
                                assert(builder_view(builders@[at]) == expected.builders[at]);
                            }
                        }
                        let current = begin(&builders, &queue, next + 1);
                        ProbeAttacher { builders, queue, next: next + 1, current, failure }
                    },
                }
            },
        }
    }

    /// The builder of `kind` with the live links of the probes of that kind
    /// that are attached; none for a kind without probes.
    pub fn builder(&self, kind: ProbeKind) -> (r: Option<&ProbeBuilder>)
        ensures
            self@.wf(),
            match r {
                Some(builder) => self@.builders[kind.index_spec() as int] == Some(builder@),
                None => self@.builders[kind.index_spec() as int] is None,
            },
    {
        proof {
            use_type_invariant(self);
        }
        let k = kind.index();
        assert(builders_view(self.builders@)[k as int] == builder_view(self.builders@[k as int]));
        self.builders[k].as_ref()
    }

    /// The live links of the probes of `kind` that are attached, in the
    /// order in which they were created.
    pub fn links(&self, kind: ProbeKind) -> (links: Vec<LinkHandle>)
        ensures
            links@ == match self@.builders[kind.index_spec() as int] {
                Some(builder) => builder.links,
                None => Seq::empty(),
            },
    {
        match self.builder(kind) {
            Some(builder) => builder.links(),
            None => Vec::new(),
        }
    }
}

} // verus!
