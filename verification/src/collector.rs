//! Collectors and the collection that drives them.
//!
//! A collector gathers one sort of information. Depending on what the
//! running system offers, a collector may be unable to set itself up; that
//! is expected, and it must not keep the others from working. So the
//! collection initializes and starts its collectors one by one, drops those
//! that cannot be initialized, and keeps a note of each failure.

use crate::error::Error;
use crate::events::BpfEvents;
use crate::manager::ProbeManager;
use crate::ovs::OvsCollector;
use vstd::prelude::*;

verus! {

/// A unit that gathers information. Everything the collection does with a
/// collector, it does through this trait.
///
/// Collectors come from outside the crate and may consult the running
/// system, so nothing is promised here about what their operations return:
/// the collection is proved for whatever a collector does.
pub trait Collector {
    /// The name of the collector. It has to be unique among the collectors
    /// of a collection.
    fn name(&self) -> &'static str;

    /// Initializes the collector: it checks that what it cannot do without
    /// is there, registers its hooks with the probe manager and its
    /// unmarshalers with the registry of events.
    fn init(&mut self, probes: &mut ProbeManager, events: &mut BpfEvents) -> Result<(), Error>;

    /// Starts the collection of events.
    fn start(&mut self) -> Result<(), Error>;
}

/// A boxed collector is the collector in the box: each operation is that of
/// the collector, on the collector, with the arguments as they are.
impl<T: Collector + ?Sized> Collector for Box<T> {
    /// The name that the collector in the box gives itself.
    fn name(&self) -> (name: &'static str)
        ensures
            call_ensures(T::name, (&**self,), name),
    {
        (**self).name()
    }

    /// Initializes the collector in the box. What it returns, what becomes
    /// of the collector and what becomes of the probe manager and of the
    /// registry of events is what the collector's own `init` makes of them.
    fn init(&mut self, probes: &mut ProbeManager, events: &mut BpfEvents) -> (r: Result<(), Error>)
        ensures
            exists|inner: &mut T, manager: &mut ProbeManager, registry: &mut BpfEvents|
                {
                    &&& &*inner == &**old(self)
                    &&& &*final(inner) == &**final(self)
                    &&& *manager == *old(probes)
                    &&& *final(manager) == *final(probes)
                    &&& *registry == *old(events)
                    &&& *final(registry) == *final(events)
                    &&& #[trigger] call_ensures(T::init, (inner, manager, registry), r)
                },
    {
        let inner: &mut T = &mut **self;
        inner.init(probes, events)
    }

    /// Starts the collector in the box. What it returns and what becomes of
    /// the collector is what the collector's own `start` makes of it.
    fn start(&mut self) -> (r: Result<(), Error>)
        ensures
            exists|inner: &mut T|
                {
                    &&& &*inner == &**old(self)
                    &&& &*final(inner) == &**final(self)
                    &&& #[trigger] call_ensures(T::start, (inner,), r)
                },
    {
        let inner: &mut T = &mut **self;
        inner.start()
    }
}

/// How bad a failure is for the collector it befell.
#[derive(Clone, Copy, Debug, PartialEq, Eq, Structural)]
pub enum Severity {
    /// The collector was dropped from the collection.
    Error,
    /// The collector stays in the collection.
    Warning,
}

/// A note of the failure of one collector.
#[derive(Debug, PartialEq, Eq)]
pub struct Diagnostic {
    pub severity: Severity,
    /// The name of the collector.
    pub collector: String,
    /// Why the collector failed.
    pub reason: Error,
}

/// What a note is.
pub struct DiagnosticView {
    pub severity: Severity,
    pub collector: Seq<char>,
    pub reason: Error,
}

impl View for Diagnostic {
    type V = DiagnosticView;

    open spec fn view(&self) -> DiagnosticView {
        DiagnosticView { severity: self.severity, collector: self.collector@, reason: self.reason }
    }
}

/// What a list of names is, in order.
pub open spec fn names_view(names: Seq<String>) -> Seq<Seq<char>> {
    names.map_values(|n: String| n@)
}

/// What a list of notes is, in order.
pub open spec fn diagnostics_view(notes: Seq<Diagnostic>) -> Seq<DiagnosticView> {
    notes.map_values(|d: Diagnostic| d@)
}

/// The failure that the result of an operation holds, if it holds one.
pub open spec fn failure(result: Result<(), Error>) -> Option<Error> {
    match result {
        Ok(_) => None,
        Err(e) => Some(e),
    }
}

/// The outcomes of a round, given what the operation returned for the
/// collector at each place.
pub open spec fn failures(results: Seq<Result<(), Error>>) -> Seq<Option<Error>> {
    results.map_values(|result: Result<(), Error>| failure(result))
}

/// Whether the collector at `i` failed, going by the outcomes of a round:
/// the outcome at `i` is the failure of the collector at `i`, or none if it
/// succeeded. A collector without an outcome counts as having succeeded.
pub open spec fn failed_at(outcomes: Seq<Option<Error>>, i: int) -> bool {
    0 <= i < outcomes.len() && outcomes[i] is Some
}

/// What stays of a list after a round, be it the names of the collectors or
/// the collectors themselves: the entries at the places of the collectors
/// that did not fail, in their order.
pub open spec fn retained<A>(entries: Seq<A>, outcomes: Seq<Option<Error>>) -> Seq<A>
    decreases entries.len(),
{
    if entries.len() == 0 {
        Seq::empty()
    } else {
        let before = retained(entries.drop_last(), outcomes);
        if failed_at(outcomes, entries.len() - 1) {
            before
        } else {
            before.push(entries.last())
        }
    }
}

/// The notes of a round: one for each collector that failed, in their order,
/// with the collector's name and its failure.
pub open spec fn diagnosed(severity: Severity, names: Seq<Seq<char>>, outcomes: Seq<Option<Error>>) -> Seq<
    DiagnosticView,
>
    decreases names.len(),
{
    if names.len() == 0 {
        Seq::empty()
    } else {
        let before = diagnosed(severity, names.drop_last(), outcomes);
        if failed_at(outcomes, names.len() - 1) {
            before.push(
                DiagnosticView {
                    severity,
                    collector: names.last(),
                    reason: outcomes[names.len() - 1]->Some_0,
                },
            )
        } else {
            before
        }
    }
}

/// Every name that stays after a round was there before it.
pub proof fn lemma_retained_subset(names: Seq<Seq<char>>, outcomes: Seq<Option<Error>>, name: Seq<char>)
    requires
        retained(names, outcomes).contains(name),
    ensures
        names.contains(name),
    decreases names.len(),
{
    if names.len() > 0 {
        let before = retained(names.drop_last(), outcomes);
        if before.contains(name) {
            lemma_retained_subset(names.drop_last(), outcomes, name);
            let j = choose|j: int| 0 <= j < names.drop_last().len() && names.drop_last()[j] == name;
            assert(names[j] == name);
        } else {
            assert(name == names.last()) by {
                let j = choose|j: int|
                    0 <= j < retained(names, outcomes).len() && retained(names, outcomes)[j] == name;
                if j < before.len() {
                    assert(before[j] == name);
                }
            }
            assert(names[names.len() - 1] == name);
        }
    }
}

/// After a round, a collector is in the collection exactly if it did not
/// fail: the one that failed is gone, the one that succeeded is still there.
pub proof fn lemma_retained_membership(names: Seq<Seq<char>>, outcomes: Seq<Option<Error>>, i: int)
    requires
        names.no_duplicates(),
        0 <= i < names.len(),
    ensures
        retained(names, outcomes).contains(names[i]) <==> !failed_at(outcomes, i),
    decreases names.len(),
{
    let before = retained(names.drop_last(), outcomes);
    let after = retained(names, outcomes);
    let last = names.len() - 1;
    if i == last {
        if before.contains(names[i]) {
            lemma_retained_subset(names.drop_last(), outcomes, names[i]);
            let j = choose|j: int|
                0 <= j < names.drop_last().len() && names.drop_last()[j] == names[i];
            assert(names[j] == names[i]);
        }
        if !failed_at(outcomes, i) {
            assert(after[before.len() as int] == names[i]);
        }
    } else {
        assert(names.drop_last()[i] == names[i]);
        lemma_retained_membership(names.drop_last(), outcomes, i);
        if before.contains(names[i]) {
            let j = choose|j: int| 0 <= j < before.len() && before[j] == names[i];
            assert(after[j] == names[i]);
        }
        if after.contains(names[i]) {
            let j = choose|j: int| 0 <= j < after.len() && after[j] == names[i];
            if j < before.len() {
                assert(before[j] == names[i]);
            }
        }
    }
}

/// No name occurs twice after a round if none did before.
pub proof fn lemma_retained_unique(names: Seq<Seq<char>>, outcomes: Seq<Option<Error>>)
    requires
        names.no_duplicates(),
    ensures
        retained(names, outcomes).no_duplicates(),
    decreases names.len(),
{
    if names.len() > 0 {
        lemma_retained_unique(names.drop_last(), outcomes);
        let before = retained(names.drop_last(), outcomes);
        if !failed_at(outcomes, names.len() - 1) {
            if before.contains(names.last()) {
                lemma_retained_subset(names.drop_last(), outcomes, names.last());
                let j = choose|j: int|
                    0 <= j < names.drop_last().len() && names.drop_last()[j] == names.last();
                assert(names[j] == names[names.len() - 1]);
            }
        }
    }
}

/// A round keeps names and collectors together. What stays of the names and
/// what stays of the collectors are equally long, and at each place of what
/// stays stand the name and the collector of one place of before, a place
/// whose collector did not fail: a name that stays holds the collector it
/// held.
pub proof fn lemma_retained_pairs<C>(
    names: Seq<Seq<char>>,
    collectors: Seq<C>,
    outcomes: Seq<Option<Error>>,
    k: int,
)
    requires
        names.len() == collectors.len(),
        0 <= k < retained(names, outcomes).len(),
    ensures
        retained(names, outcomes).len() == retained(collectors, outcomes).len(),
        exists|i: int|
            {
                &&& 0 <= i < names.len()
                &&& !failed_at(outcomes, i)
                &&& retained(names, outcomes)[k] == #[trigger] names[i]
                &&& retained(collectors, outcomes)[k] == collectors[i]
            },
    decreases names.len(),
{
    lemma_retained_len(names, collectors, outcomes);
    if names.len() > 0 {
        let last = names.len() - 1;
        let before = retained(names.drop_last(), outcomes);
        lemma_retained_len(names.drop_last(), collectors.drop_last(), outcomes);
        if k < before.len() {
            lemma_retained_pairs(names.drop_last(), collectors.drop_last(), outcomes, k);
            let i = choose|i: int|
                {
                    &&& 0 <= i < names.drop_last().len()
                    &&& !failed_at(outcomes, i)
                    &&& before[k] == #[trigger] names.drop_last()[i]
                    &&& retained(collectors.drop_last(), outcomes)[k] == collectors.drop_last()[i]
                };
            assert(names[i] == names.drop_last()[i]);
            assert(collectors[i] == collectors.drop_last()[i]);
        } else {
            assert(retained(names, outcomes)[k] == names[last]);
            assert(retained(collectors, outcomes)[k] == collectors[last]);
        }
    }
}

/// What stays of two lists of one length after a round is of one length.
pub proof fn lemma_retained_len<A, B>(a: Seq<A>, b: Seq<B>, outcomes: Seq<Option<Error>>)
    requires
        a.len() == b.len(),
    ensures
        retained(a, outcomes).len() == retained(b, outcomes).len(),
    decreases a.len(),
{
    if a.len() > 0 {
        lemma_retained_len(a.drop_last(), b.drop_last(), outcomes);
    }
}

/// A round leaves one note for each collector that failed, and none for the
/// others.
pub proof fn lemma_diagnosed_len(severity: Severity, names: Seq<Seq<char>>, outcomes: Seq<Option<Error>>)
    ensures
        diagnosed(severity, names, outcomes).len() + retained(names, outcomes).len() == names.len(),
    decreases names.len(),
{
    if names.len() > 0 {
        lemma_diagnosed_len(severity, names.drop_last(), outcomes);
    }
}

/// A collector as the collection holds it, under the name it had when it
/// was registered.
struct Registered<C> {
    name: String,
    collector: C,
}

/// The names of a list of registered collectors, in order.
spec fn names_of<C>(list: Seq<Registered<C>>) -> Seq<Seq<char>> {
    list.map_values(|r: Registered<C>| r.name@)
}

/// The collectors of a list of registered collectors, in order.
spec fn collectors_of<C>(list: Seq<Registered<C>>) -> Seq<C> {
    list.map_values(|r: Registered<C>| r.collector)
}

/// A set of collectors, to act on all of them at once.
///
/// It is generic in what it holds so that a session with collectors of a
/// single type needs no indirection; the usual choice is the default, a boxed
/// collector of any type.
pub struct CollectorsCollection<C: Collector = Box<dyn Collector>> {
    list: Vec<Registered<C>>,
    diagnostics: Vec<Diagnostic>,
}

impl<C: Collector> CollectorsCollection<C> {
    #[verifier::type_invariant]
    spec fn unique_names(&self) -> bool {
        names_of(self.list@).no_duplicates()
    }

    /// The names of the collectors, in the order of registration.
    pub closed spec fn names(&self) -> Seq<Seq<char>> {
        names_of(self.list@)
    }

    /// The collectors, in the order of registration: the collector at a
    /// place is the one held under the name at that place.
    pub closed spec fn collectors(&self) -> Seq<C> {
        collectors_of(self.list@)
    }

    /// The notes of the failures so far, oldest first.
    pub closed spec fn reports(&self) -> Seq<DiagnosticView> {
        diagnostics_view(self.diagnostics@)
    }

    /// A collection without collectors.
    pub fn new() -> (collection: Self)
        ensures
            collection.names() == Seq::<Seq<char>>::empty(),
            collection.collectors() == Seq::<C>::empty(),
            collection.reports() == Seq::<DiagnosticView>::empty(),
    {
        let collection = CollectorsCollection { list: Vec::new(), diagnostics: Vec::new() };
        assert(collection.names() =~= Seq::<Seq<char>>::empty());
        assert(collection.collectors() =~= Seq::<C>::empty());
        assert(collection.reports() =~= Seq::<DiagnosticView>::empty());
        collection
    }

    /// Whether a collector is registered under `name`.
    pub fn contains(&self, name: &str) -> (b: bool)
        ensures
            b == self.names().contains(name@),
            self.names().no_duplicates(),
    {
        proof {
            use_type_invariant(self);
        }
        let wanted = name.to_owned();
        let mut i: usize = 0;
        while i < self.list.len()
            invariant
                i <= self.list@.len(),
                wanted@ == name@,
                self.names().no_duplicates(),
                forall|j: int| 0 <= j < i ==> self.names()[j] != name@,
            decreases self.list@.len() - i,
        {
            if self.list[i].name == wanted {
                assert(self.names()[i as int] == name@);
                return true;
            }
            i += 1;
        }
        false
    }

    /// The number of collectors, which is also the number of names.
    pub fn len(&self) -> (n: usize)
        ensures
            n == self.names().len(),
            n == self.collectors().len(),
    {
        self.list.len()
    }

    /// The names of the collectors, in the order of registration.
    pub fn collector_names(&self) -> (names: Vec<String>)
        ensures
            names_view(names@) == self.names(),
    {
        let mut names: Vec<String> = Vec::new();
        let mut i: usize = 0;
        while i < self.list.len()
            invariant
                i <= self.list@.len(),
                names@.len() == i,
                forall|j: int| 0 <= j < i ==> (#[trigger] names@[j])@ == self.list@[j].name@,
            decreases self.list@.len() - i,
        {
            names.push(self.list[i].name.clone());
            i += 1;
        }
        assert(names_view(names@) =~= self.names());
        names
    }

    /// Registers a collector under `name`.
    ///
    /// Fails with [`Error::NameConflict`] if a collector is already
    /// registered under that name; the collection is then left as it was.
    pub fn register_as(&mut self, name: &str, collector: C) -> (r: Result<&mut Self, Error>)
        ensures
            r is Err <==> old(self).names().contains(name@),
            match r {
                Ok(collection) => {
                    &&& collection.names() == old(self).names().push(name@)
                    &&& collection.collectors() == old(self).collectors().push(collector)
                    &&& collection.names().no_duplicates()
                    &&& collection.reports() == old(self).reports()
                    &&& *final(self) == *final(collection)
                },
                Err(e) => e == Error::NameConflict && *final(self) == *old(self),
            },
    {
        proof {
            use_type_invariant(&*self);
        }
        if self.contains(name) {
            return Err(Error::NameConflict);
        }
        let mut list = Vec::new();
        std::mem::swap(&mut list, &mut self.list);
        list.push(Registered { name: name.to_owned(), collector });
        proof {
            assert(names_of(list@) =~= old(self).names().push(name@));
            assert(collectors_of(list@) =~= old(self).collectors().push(collector));
        }
        self.list = list;
        Ok(self)
    }

    /// Registers a collector under the name it gives itself: the collector
    /// is asked for its name, once, and registered under the answer.
    ///
    /// Fails with [`Error::NameConflict`] if a collector is already
    /// registered under that name; the collection is then left as it was.
    pub fn register(&mut self, collector: C) -> (r: Result<&mut Self, Error>)
        ensures
            exists|name: &'static str|
                {
                    &&& #[trigger] call_ensures(C::name, (&collector,), name)
                    &&& r is Err <==> old(self).names().contains(name@)
                    &&& r matches Ok(collection) ==> collection.names() == old(self).names().push(
                        name@,
                    )
                },
            match r {
                Ok(collection) => {
                    &&& collection.names().len() == old(self).names().len() + 1
                    &&& collection.collectors() == old(self).collectors().push(collector)
                    &&& collection.names().no_duplicates()
                    &&& collection.reports() == old(self).reports()
                    &&& *final(self) == *final(collection)
                },
                Err(e) => e == Error::NameConflict && *final(self) == *old(self),
            },
    {
        let name = collector.name();
        self.register_as(name, collector)
    }

    /// Drops the collectors that failed in a round of initialization, and
    /// leaves a note of severity [`Severity::Error`] for each.
    ///
    /// `outcomes` holds, for the collector at each place, its failure, or
    /// none if it succeeded.
    pub fn unregister_failed(&mut self, outcomes: &Vec<Option<Error>>)
        ensures
            final(self).names() == retained(old(self).names(), outcomes@),
            final(self).collectors() == retained(old(self).collectors(), outcomes@),
            final(self).names().no_duplicates(),
            final(self).reports() == old(self).reports() + diagnosed(
                Severity::Error,
                old(self).names(),
                outcomes@,
            ),
    {
        proof {
            use_type_invariant(&*self);
        }
        let mut list = Vec::new();
        std::mem::swap(&mut list, &mut self.list);
        let mut notes = Vec::new();
        std::mem::swap(&mut notes, &mut self.diagnostics);
        let ghost names = names_of(list@);
        let ghost units = collectors_of(list@);
        let ghost reports = diagnostics_view(notes@);
        let total = list.len();
        let mut i: usize = 0;
        let mut kept: usize = 0;
        while i < total
            invariant
                kept <= i <= total,
                total == names.len(),
                list@.len() == kept + (total - i),
                total == units.len(),
                names_of(list@.take(kept as int)) == retained(names.take(i as int), outcomes@),
                collectors_of(list@.take(kept as int)) == retained(
                    units.take(i as int),
                    outcomes@,
                ),
                forall|t: int| kept <= t < list@.len() ==> (#[trigger] list@[t]).name@ == names[t - kept + i],
                forall|t: int|
                    kept <= t < list@.len() ==> (#[trigger] list@[t]).collector == units[t - kept
                        + i],
                diagnostics_view(notes@) == reports + diagnosed(
                    Severity::Error,
                    names.take(i as int),
                    outcomes@,
                ),
            decreases total - i,
        {
            let ghost held = list@;
            let ghost noted = notes@;
            proof {
                assert(names.take(i + 1).drop_last() =~= names.take(i as int));
                assert(names.take(i + 1).last() == names[i as int]);
                assert(units.take(i + 1).drop_last() =~= units.take(i as int));
                assert(units.take(i + 1).last() == units[i as int]);
            }
            let failure = if i < outcomes.len() {
                outcomes[i]
            } else {
                None
            };
            match failure {
                Some(reason) => {
                    let gone = list.remove(kept);
                    notes.push(Diagnostic { severity: Severity::Error, collector: gone.name, reason });
                    proof {
                        assert(list@.take(kept as int) =~= held.take(kept as int));
                        assert(diagnostics_view(notes@) =~= diagnostics_view(noted).push(
                            DiagnosticView {
                                severity: Severity::Error,
                                collector: names[i as int],
                                reason,
                            },
                        ));
                    }
                },
                None => {
                    proof {
                        assert(names_of(held.take(kept + 1)) =~= names_of(
                            held.take(kept as int),
                        ).push(names[i as int]));
                        assert(collectors_of(held.take(kept + 1)) =~= collectors_of(
                            held.take(kept as int),
                        ).push(units[i as int]));
                    }
                    kept += 1;
                },
            }
            i += 1;
        }
        proof {
            assert(names.take(total as int) =~= names);
            assert(units.take(total as int) =~= units);
            assert(list@.take(kept as int) =~= list@);
            lemma_retained_unique(names, outcomes@);
        }
        self.list = list;
        self.diagnostics = notes;
    }

    /// Leaves a note of severity [`Severity::Warning`] for each collector
    /// that failed in a round of starting. All collectors stay.
    ///
    /// `outcomes` holds, for the collector at each place, its failure, or
    /// none if it succeeded.
    pub fn report_failed(&mut self, outcomes: &Vec<Option<Error>>)
        ensures
            final(self).names() == old(self).names(),
            final(self).collectors() == old(self).collectors(),
            final(self).reports() == old(self).reports() + diagnosed(
                Severity::Warning,
                old(self).names(),
                outcomes@,
            ),
    {
        proof {
            use_type_invariant(&*self);
        }
        let mut notes = Vec::new();
        std::mem::swap(&mut notes, &mut self.diagnostics);
        let ghost names = self.names();
        let ghost reports = diagnostics_view(notes@);
        let mut i: usize = 0;
        while i < self.list.len()
            invariant
                i <= self.list@.len(),
                names == names_of(self.list@),
                diagnostics_view(notes@) == reports + diagnosed(
                    Severity::Warning,
                    names.take(i as int),
                    outcomes@,
                ),
            decreases self.list@.len() - i,
        {
            let ghost noted = notes@;
            proof {
                assert(names.take(i + 1).drop_last() =~= names.take(i as int));
                assert(names.take(i + 1).last() == names[i as int]);
            }
            let failure = if i < outcomes.len() {
                outcomes[i]
            } else {
                None
            };
            if let Some(reason) = failure {
                notes.push(
                    Diagnostic {
                        severity: Severity::Warning,
                        collector: self.list[i].name.clone(),
                        reason,
                    },
                );
                proof {
                    assert(diagnostics_view(notes@) =~= diagnostics_view(noted).push(
                        DiagnosticView {
                            severity: Severity::Warning,
                            collector: names[i as int],
                            reason,
                        },
                    ));
                }
            }
            i += 1;
        }
        proof {
            assert(names.take(names.len() as int) =~= names);
        }
        self.diagnostics = notes;
    }

    /// Initializes all collectors, in the order of registration, and drops
    /// those that fail. The `init` of each collector is called once, on the
    /// collector as the collection holds it; the first is handed the probe
    /// manager and the registry of events as they are given, each further
    /// one as the one before left them, and the caller gets them back as the
    /// last one left them. A collector that succeeds stays, as its `init`
    /// left it, under its name; for each that fails a note of severity
    /// [`Severity::Error`] is left, with its failure.
    ///
    /// The call itself never fails: a system on which some collectors cannot
    /// work is to be expected.
    pub fn init(&mut self, probes: &mut ProbeManager, events: &mut BpfEvents) -> (r: Result<(), Error>)
        ensures
            r is Ok,
            final(self).names().no_duplicates(),
            exists|
                units: Seq<&mut C>,
                managers: Seq<&mut ProbeManager>,
                registries: Seq<&mut BpfEvents>,
                results: Seq<Result<(), Error>>,
            |
                #![trigger units.len(), managers.len(), registries.len(), results.len()]
                {
                    &&& units.len() == old(self).collectors().len()
                    &&& managers.len() == units.len()
                    &&& registries.len() == units.len()
                    &&& results.len() == units.len()
                    &&& forall|i: int|
                        0 <= i < units.len() ==> {
                            &&& *(#[trigger] units[i]) == old(self).collectors()[i]
                            &&& *managers[i] == if i == 0 {
                                *old(probes)
                            } else {
                                *final(managers[i - 1])
                            }
                            &&& *registries[i] == if i == 0 {
                                *old(events)
                            } else {
                                *final(registries[i - 1])
                            }
                            &&& call_ensures(
                                C::init,
                                (units[i], managers[i], registries[i]),
                                results[i],
                            )
                        }
                    &&& *final(probes) == if units.len() == 0 {
                        *old(probes)
                    } else {
                        *final(managers[units.len() - 1])
                    }
                    &&& *final(events) == if units.len() == 0 {
                        *old(events)
                    } else {
                        *final(registries[units.len() - 1])
                    }
                    &&& final(self).names() == retained(old(self).names(), failures(results))
                    &&& final(self).collectors() == retained(
                        Seq::new(units.len(), |i: int| *final(units[i])),
                        failures(results),
                    )
                    &&& final(self).reports() == old(self).reports() + diagnosed(
                        Severity::Error,
                        old(self).names(),
                        failures(results),
                    )
                },
    {
        proof {
            use_type_invariant(&*self);
        }
        let mut list = Vec::new();
        std::mem::swap(&mut list, &mut self.list);
        let ghost names = names_of(list@);
        let ghost before = collectors_of(list@);
        let ghost mut results: Seq<Result<(), Error>> = Seq::empty();
        let ghost mut handed: Seq<ProbeManager> = seq![*probes];
        let ghost mut given: Seq<BpfEvents> = seq![*events];
        let mut outcomes: Vec<Option<Error>> = Vec::new();
        let mut i: usize = 0;
        while i < list.len()
            invariant
                i <= list@.len(),
                list@.len() == before.len(),
                results.len() == i,
                outcomes@.len() == i,
                handed.len() == i + 1,
                given.len() == i + 1,
                handed[0] == *old(probes),
                given[0] == *old(events),
                handed[i as int] == *probes,
                given[i as int] == *events,
                names_of(list@) == names,
                forall|j: int| i <= j < list@.len() ==> (#[trigger] list@[j]).collector == before[j],
                forall|j: int|
                    0 <= j < i ==> outcomes@[j] == failure(#[trigger] results[j]) && exists|
                        unit: &mut C,
                        manager: &mut ProbeManager,
                        registry: &mut BpfEvents,
                    |
                        {
                            &&& *unit == before[j]
                            &&& *final(unit) == list@[j].collector
                            &&& *manager == handed[j]
                            &&& *final(manager) == handed[j + 1]
                            &&& *registry == given[j]
                            &&& *final(registry) == given[j + 1]
                            &&& #[trigger] call_ensures(C::init, (unit, manager, registry), results[j])
                        },
            decreases list@.len() - i,
        {
            let ghost held = list@;
            let ghost known = results;
            let ghost managed = handed;
            let ghost registered = given;
            let unit: &mut C = &mut list[i].collector;
            let outcome = unit.init(probes, events);
            proof {
                results = results.push(outcome);
                handed = handed.push(*probes);
                given = given.push(*events);
                assert(names_of(list@) =~= names_of(held));
                assert(exists|unit: &mut C, manager: &mut ProbeManager, registry: &mut BpfEvents|
                    {
                        &&& *unit == before[i as int]
                        &&& *final(unit) == list@[i as int].collector
                        &&& *manager == managed[i as int]
                        &&& *final(manager) == *probes
                        &&& *registry == registered[i as int]
                        &&& *final(registry) == *events
                        &&& #[trigger] call_ensures(C::init, (unit, manager, registry), outcome)
                    });
            }
            outcomes.push(outcome.err());
            i += 1;
            proof {
                assert forall|j: int| 0 <= j < i implies outcomes@[j] == failure(
                    #[trigger] results[j],
                ) && exists|unit: &mut C, manager: &mut ProbeManager, registry: &mut BpfEvents|
                    {
                        &&& *unit == before[j]
                        &&& *final(unit) == list@[j].collector
                        &&& *manager == handed[j]
                        &&& *final(manager) == handed[j + 1]
                        &&& *registry == given[j]
                        &&& *final(registry) == given[j + 1]
                        &&& #[trigger] call_ensures(C::init, (unit, manager, registry), results[j])
                    } by {
                    if j < i - 1 {
                        assert(results[j] == known[j]);
                        assert(list@[j] == held[j]);
                        assert(handed[j] == managed[j] && handed[j + 1] == managed[j + 1]);
                        assert(given[j] == registered[j] && given[j + 1] == registered[j + 1]);
                    } else {
                        assert(results[j] == outcome);
                        assert(handed[j] == managed[j] && given[j] == registered[j]);
                    }
                }
            }
        }
        let ghost after = collectors_of(list@);
        self.list = list;
        assert(outcomes@ =~= failures(results));
        assert(outcomes@.len() == names.len() && names == old(self).names());
        self.unregister_failed(&outcomes);
        proof {
            let total = results.len();
            let units = Seq::new(
                total,
                |j: int|
                    (choose|unit: &mut C, manager: &mut ProbeManager, registry: &mut BpfEvents|
                        {
                            &&& *unit == before[j]
                            &&& *final(unit) == after[j]
                            &&& *manager == handed[j]
                            &&& *final(manager) == handed[j + 1]
                            &&& *registry == given[j]
                            &&& *final(registry) == given[j + 1]
                            &&& #[trigger] call_ensures(C::init, (unit, manager, registry), results[j])
                        }).0,
            );
            let managers = Seq::new(
                total,
                |j: int|
                    (choose|unit: &mut C, manager: &mut ProbeManager, registry: &mut BpfEvents|
                        {
                            &&& *unit == before[j]
                            &&& *final(unit) == after[j]
                            &&& *manager == handed[j]
                            &&& *final(manager) == handed[j + 1]
                            &&& *registry == given[j]
                            &&& *final(registry) == given[j + 1]
                            &&& #[trigger] call_ensures(C::init, (unit, manager, registry), results[j])
                        }).1,
            );
            let registries = Seq::new(
                total,
                |j: int|
                    (choose|unit: &mut C, manager: &mut ProbeManager, registry: &mut BpfEvents|
                        {
                            &&& *unit == before[j]
                            &&& *final(unit) == after[j]
                            &&& *manager == handed[j]
                            &&& *final(manager) == handed[j + 1]
                            &&& *registry == given[j]
                            &&& *final(registry) == given[j + 1]
                            &&& #[trigger] call_ensures(C::init, (unit, manager, registry), results[j])
                        }).2,
            );
            assert forall|j: int| 0 <= j < total implies {
                &&& *(#[trigger] units[j]) == before[j]
                &&& *final(units[j]) == after[j]
                &&& *managers[j] == handed[j]
                &&& *final(managers[j]) == handed[j + 1]
                &&& *registries[j] == given[j]
                &&& *final(registries[j]) == given[j + 1]
                &&& call_ensures(C::init, (units[j], managers[j], registries[j]), results[j])
            } by {
                assert(after[j] == list@[j].collector);
            }
            assert forall|i: int| 0 <= i < units.len() implies {
                &&& *(#[trigger] units[i]) == old(self).collectors()[i]
                &&& *managers[i] == if i == 0 {
                    *old(probes)
                } else {
                    *final(managers[i - 1])
                }
                &&& *registries[i] == if i == 0 {
                    *old(events)
                } else {
                    *final(registries[i - 1])
                }
                &&& call_ensures(C::init, (units[i], managers[i], registries[i]), results[i])
            } by {
                if i > 0 {
                    assert(*final(units[i - 1]) == after[i - 1]);
                }
            }
            if total > 0 {
                assert(*final(units[total - 1]) == after[total - 1]);
            }
            assert(*final(probes) == handed[total as int]);
            assert(*final(events) == given[total as int]);
            assert(Seq::new(units.len(), |i: int| *final(units[i])) =~= after);
            assert(final(self).names() == retained(old(self).names(), failures(results)));
            assert(final(self).collectors() == retained(after, failures(results)));
            assert(final(self).reports() == old(self).reports() + diagnosed(
                Severity::Error,
                old(self).names(),
                failures(results),
            ));
            assert(units.len() == old(self).collectors().len() && managers.len() == units.len()
                && registries.len() == units.len() && results.len() == units.len());
        }
        Ok(())
    }

    /// Starts all collectors, in the order of registration: the `start` of
    /// each collector is called once, on the collector as the collection
    /// holds it, and the collector stays in its place as the call left it.
    /// A collector that fails to start stays like the others; a note of
    /// severity [`Severity::Warning`] is left for it, with its failure.
    ///
    /// The call itself never fails.
    pub fn start(&mut self) -> (r: Result<(), Error>)
        ensures
            r is Ok,
            final(self).names() == old(self).names(),
            exists|units: Seq<&mut C>, results: Seq<Result<(), Error>>|
                #![trigger units.len(), results.len()]
                {
                    &&& units.len() == old(self).collectors().len()
                    &&& results.len() == old(self).collectors().len()
                    &&& final(self).collectors().len() == old(self).collectors().len()
                    &&& forall|i: int|
                        0 <= i < units.len() ==> {
                            &&& *(#[trigger] units[i]) == old(self).collectors()[i]
                            &&& *final(units[i]) == final(self).collectors()[i]
                            &&& call_ensures(C::start, (units[i],), results[i])
                        }
                    &&& final(self).reports() == old(self).reports() + diagnosed(
                        Severity::Warning,
                        old(self).names(),
                        failures(results),
                    )
                },
    {
        proof {
            use_type_invariant(&*self);
        }
        let mut list = Vec::new();
        std::mem::swap(&mut list, &mut self.list);
        let ghost names = names_of(list@);
        let ghost before = collectors_of(list@);
        let ghost mut results: Seq<Result<(), Error>> = Seq::empty();
        let mut outcomes: Vec<Option<Error>> = Vec::new();
        let mut i: usize = 0;
        while i < list.len()
            invariant
                i <= list@.len(),
                list@.len() == before.len(),
                results.len() == i,
                outcomes@.len() == i,
                names_of(list@) == names,
                forall|j: int| i <= j < list@.len() ==> (#[trigger] list@[j]).collector == before[j],
                forall|j: int|
                    0 <= j < i ==> outcomes@[j] == failure(#[trigger] results[j]) && exists|
                        unit: &mut C,
                    |
                        {
                            &&& *unit == before[j]
                            &&& *final(unit) == list@[j].collector
                            &&& #[trigger] call_ensures(C::start, (unit,), results[j])
                        },
            decreases list@.len() - i,
        {
            let ghost held = list@;
            let ghost known = results;
            let unit: &mut C = &mut list[i].collector;
            let outcome = unit.start();
            proof {
                results = results.push(outcome);
                assert(names_of(list@) =~= names_of(held));
                assert(exists|unit: &mut C|
                    *unit == before[i as int] && *final(unit) == list@[i as int].collector
                        && #[trigger] call_ensures(C::start, (unit,), outcome));
            }
            outcomes.push(outcome.err());
            i += 1;
            proof {
                assert forall|j: int| 0 <= j < i implies outcomes@[j] == failure(
                    #[trigger] results[j],
                ) && exists|unit: &mut C|
                    {
                        &&& *unit == before[j]
                        &&& *final(unit) == list@[j].collector
                        &&& #[trigger] call_ensures(C::start, (unit,), results[j])
                    } by {
                    if j < i - 1 {
                        assert(results[j] == known[j]);
                        assert(list@[j] == held[j]);
                    } else {
                        assert(results[j] == outcome);
                    }
                }
            }
        }
        self.list = list;
        assert(outcomes@ =~= failures(results));
        assert(outcomes@.len() == names.len() && names == old(self).names());
        self.report_failed(&outcomes);
        proof {
            let units = Seq::new(
                results.len(),
                |j: int|
                    choose|unit: &mut C|
                        {
                            &&& *unit == before[j]
                            &&& *final(unit) == list@[j].collector
                            &&& #[trigger] call_ensures(C::start, (unit,), results[j])
                        },
            );
            assert forall|i: int| 0 <= i < units.len() implies {
                &&& *(#[trigger] units[i]) == old(self).collectors()[i]
                &&& *final(units[i]) == final(self).collectors()[i]
                &&& call_ensures(C::start, (units[i],), results[i])
            } by {
                assert(final(self).collectors()[i] == list@[i].collector);
            }
            assert(final(self).reports() == old(self).reports() + diagnosed(
                Severity::Warning,
                old(self).names(),
                failures(results),
            ));
        }
        Ok(())
    }

    /// Hands out the notes of the failures so far, oldest first, and
    /// forgets them.
    pub fn take_diagnostics(&mut self) -> (notes: Vec<Diagnostic>)
        ensures
            diagnostics_view(notes@) == old(self).reports(),
            final(self).reports() == Seq::<DiagnosticView>::empty(),
            final(self).names() == old(self).names(),
            final(self).collectors() == old(self).collectors(),
    {
        proof {
            use_type_invariant(&*self);
        }
        let mut notes = Vec::new();
        std::mem::swap(&mut notes, &mut self.diagnostics);
        assert(self.reports() =~= Seq::<DiagnosticView>::empty());
        notes
    }
}

/// Allocates the collectors that come with the crate and returns the
/// collection that holds them, each under its name. This is where work with
/// collectors starts.
pub fn get_collectors() -> (r: Result<CollectorsCollection, Error>)
    ensures
        r is Ok,
        r->Ok_0.names() == seq!["ovs"@],
        r->Ok_0.reports() == Seq::<DiagnosticView>::empty(),
{
    let mut collection: CollectorsCollection = CollectorsCollection::new();
    let ovs = match OvsCollector::new() {
        Ok(ovs) => ovs,
        Err(e) => { return Err(e); },
    };
    let name = ovs.name();
    match collection.register_as(name, Box::new(ovs)) {
        Ok(registered) => {
            assert(registered.names() =~= seq!["ovs"@]);
        },
        Err(e) => { return Err(e); },
    }
    Ok(collection)
}

} // verus!
