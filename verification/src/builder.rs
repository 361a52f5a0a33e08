//! Attaching one probe, step by step.
//!
//! Loading a program into the running system and attaching it is the work of
//! a loader that this crate does not contain. What the crate decides is the
//! order of that work and what happens when a part of it fails. So an attach
//! is a small machine: it names the next request for the loader, takes the
//! loader's reply, and moves on, until the probe is attached or the attach
//! has failed and everything it had created is released.

use crate::error::Error;
use crate::maps::{clone_maps, maps_view};
use crate::probe::{hooks_view, Hook, HookView, Probe, ProbeKind};
use vstd::prelude::*;

verus! {

/// A live link between a program and the point it is attached to. Releasing
/// the link detaches the program.
#[derive(Clone, Copy, Debug, PartialEq, Eq, Structural)]
pub struct LinkHandle {
    pub id: u64,
}

/// What the loader is asked to do.
#[derive(Debug, PartialEq)]
pub enum LoaderRequest {
    /// Open the compiled object for probes of this kind.
    Open { kind: ProbeKind },
    /// Make the opened object use these existing maps in place of its own.
    ReuseMaps { maps: Vec<(String, i32)> },
    /// Load the opened object into the running system.
    Load,
    /// Find the program of this name in the loaded object. It is the primary
    /// program, the one that is attached to the target in the end.
    GetProgram { name: String },
    /// Load this hook, with the maps it reuses, and put it in place of the
    /// hook of this index in the primary program. The reply is the link that
    /// keeps the hook in place.
    ReplaceHook { index: usize, prog: &'static [u8], maps: Vec<(String, i32)> },
    /// Attach the primary program to the target of this probe. The reply is
    /// the link that keeps it attached.
    Attach { probe: Probe },
    /// Release these links and the object: the attach has failed.
    Release { links: Vec<LinkHandle> },
}

/// What a request is, with strings and lists as sequences.
pub enum RequestView {
    Open { kind: ProbeKind },
    ReuseMaps { maps: Seq<(Seq<char>, i32)> },
    Load,
    GetProgram { name: Seq<char> },
    ReplaceHook { index: int, prog: Seq<u8>, maps: Seq<(Seq<char>, i32)> },
    Attach { probe: Probe },
    Release { links: Seq<LinkHandle> },
}

impl View for LoaderRequest {
    type V = RequestView;

    open spec fn view(&self) -> RequestView {
        match *self {
            LoaderRequest::Open { kind } => RequestView::Open { kind },
            LoaderRequest::ReuseMaps { maps } => RequestView::ReuseMaps { maps: maps_view(maps@) },
            LoaderRequest::Load => RequestView::Load,
            LoaderRequest::GetProgram { name } => RequestView::GetProgram { name: name@ },
            LoaderRequest::ReplaceHook { index, prog, maps } => RequestView::ReplaceHook {
                index: index as int,
                prog: prog@,
                maps: maps_view(maps@),
            },
            LoaderRequest::Attach { probe } => RequestView::Attach { probe },
            LoaderRequest::Release { links } => RequestView::Release { links: links@ },
        }
    }
}

/// What the loader answers to a request.
#[derive(Clone, Copy, Debug, PartialEq, Eq, Structural)]
pub enum LoaderReply {
    /// The request was carried out; it yields no link.
    Done,
    /// The request was carried out and yielded this link, which is now live.
    Link(LinkHandle),
    /// The request failed.
    Failed(Error),
}

/// Where an attach stands.
#[derive(Clone, Copy, Debug, PartialEq, Eq, Structural)]
pub enum Phase {
    /// The object is being opened.
    Opening,
    /// The opened object is being given the shared maps.
    ReusingMaps,
    /// The object is being loaded.
    Loading,
    /// The primary program is being looked up.
    Finding,
    /// The hooks are being injected, one after the other.
    Hooking,
    /// The primary program is being attached.
    Attaching,
    /// The attach has failed and what it created is being released.
    Releasing,
    /// The probe is attached.
    Attached,
    /// The attach has failed and nothing of it is left.
    Failed,
}

/// The name of the primary program in the object for probes of `kind`.
pub open spec fn program_name(kind: ProbeKind) -> Seq<char> {
    match kind {
        ProbeKind::Kprobe => "probe_kprobe"@,
        ProbeKind::RawTracepoint => "probe_raw_tracepoint"@,
        ProbeKind::Uprobe => "probe_uprobe"@,
        ProbeKind::Usdt => "probe_usdt"@,
    }
}

/// The state of an attach.
pub struct AttachmentView {
    /// The kind of the builder that began the attach.
    pub kind: ProbeKind,
    /// The maps that every program of the builder shares.
    pub map_fds: Seq<(Seq<char>, i32)>,
    /// The hooks to inject, in order.
    pub hooks: Seq<HookView>,
    /// The probe to attach.
    pub probe: Probe,
    /// Where the attach stands.
    pub phase: Phase,
    /// The links that the attach has created and that are live.
    pub links: Seq<LinkHandle>,
    /// Why the attach failed, once it has.
    pub error: Option<Error>,
}

impl AttachmentView {
    /// What holds of every attach: the links it holds are those that its
    /// phase accounts for, and a failure has its reason.
    pub open spec fn wf(self) -> bool {
        &&& self.probe.kind_spec() == self.kind
        &&& match self.phase {
            Phase::Opening | Phase::ReusingMaps | Phase::Loading | Phase::Finding => self.links.len()
                == 0 && self.error is None,
            Phase::Hooking => self.links.len() < self.hooks.len() && self.error is None,
            Phase::Attaching => self.links.len() == self.hooks.len() && self.error is None,
            Phase::Attached => self.links.len() == self.hooks.len() + 1 && self.error is None,
            Phase::Releasing => self.error is Some,
            Phase::Failed => self.links.len() == 0 && self.error is Some,
        }
    }

    /// Whether the attach has come to its end, one way or the other.
    pub open spec fn finished(self) -> bool {
        self.phase == Phase::Attached || self.phase == Phase::Failed
    }

    /// The request that the loader is to carry out next; none once the attach
    /// has finished.
    pub open spec fn request(self) -> Option<RequestView> {
        match self.phase {
            Phase::Opening => Some(RequestView::Open { kind: self.kind }),
            Phase::ReusingMaps => Some(RequestView::ReuseMaps { maps: self.map_fds }),
            Phase::Loading => Some(RequestView::Load),
            Phase::Finding => Some(RequestView::GetProgram { name: program_name(self.kind) }),
            Phase::Hooking => Some(
                RequestView::ReplaceHook {
                    index: self.links.len() as int,
                    prog: self.hooks[self.links.len() as int].prog,
                    maps: self.hooks[self.links.len() as int].maps,
                },
            ),
            Phase::Attaching => Some(RequestView::Attach { probe: self.probe }),
            Phase::Releasing => Some(RequestView::Release { links: self.links }),
            Phase::Attached | Phase::Failed => None,
        }
    }

    /// The attach as it fails for the reason `e`: with nothing to release if
    /// the object was never opened, and about to release all it holds
    /// otherwise.
    pub open spec fn fail(self, e: Error) -> AttachmentView {
        if self.phase == Phase::Opening {
            AttachmentView { phase: Phase::Failed, error: Some(e), ..self }
        } else {
            AttachmentView { phase: Phase::Releasing, error: Some(e), ..self }
        }
    }

    /// The attach after the loader's reply to its request.
    ///
    /// A finished attach stays as it is. A release ends in failure whatever
    /// the reply. Before that, a failed request fails the attach; a reply of
    /// the expected shape moves it on; a reply of another shape fails it
    /// with [`Error::UnderlyingFailure`], and a link that came with it is
    /// kept so that it is released with the rest.
    pub open spec fn step(self, reply: LoaderReply) -> AttachmentView {
        match self.phase {
            Phase::Attached | Phase::Failed => self,
            Phase::Releasing => AttachmentView { phase: Phase::Failed, links: Seq::empty(), ..self },
            Phase::Opening | Phase::ReusingMaps | Phase::Loading | Phase::Finding => match reply {
                LoaderReply::Done => AttachmentView { phase: self.after_setup(), ..self },
                LoaderReply::Link(link) => AttachmentView {
                    phase: Phase::Releasing,
                    links: self.links.push(link),
                    error: Some(Error::UnderlyingFailure),
                    ..self
                },
                LoaderReply::Failed(e) => self.fail(e),
            },
            Phase::Hooking | Phase::Attaching => match reply {
                LoaderReply::Link(link) => AttachmentView {
                    phase: self.after_link(),
                    links: self.links.push(link),
                    ..self
                },
                LoaderReply::Done => self.fail(Error::UnderlyingFailure),
                LoaderReply::Failed(e) => self.fail(e),
            },
        }
    }

    /// The phase that follows a setup phase that went well.
    pub open spec fn after_setup(self) -> Phase {
        match self.phase {
            Phase::Opening => Phase::ReusingMaps,
            Phase::ReusingMaps => Phase::Loading,
            Phase::Loading => Phase::Finding,
            _ => if self.hooks.len() == 0 {
                Phase::Attaching
            } else {
                Phase::Hooking
            },
        }
    }

    /// The phase that follows the arrival of a link that was asked for.
    pub open spec fn after_link(self) -> Phase {
        if self.phase == Phase::Attaching {
            Phase::Attached
        } else if self.links.len() + 1 < self.hooks.len() {
            Phase::Hooking
        } else {
            Phase::Attaching
        }
    }

    /// How the attach ended; none while it goes on.
    pub open spec fn result(self) -> Option<Result<(), Error>> {
        match self.phase {
            Phase::Attached => Some(Ok(())),
            Phase::Failed => Some(Err(self.error->Some_0)),
            _ => None,
        }
    }

    /// How many replies the attach still needs, at most, to finish.
    pub open spec fn steps_left(self) -> nat {
        match self.phase {
            Phase::Opening => self.hooks.len() + 6,
            Phase::ReusingMaps => self.hooks.len() + 5,
            Phase::Loading => self.hooks.len() + 4,
            Phase::Finding => self.hooks.len() + 3,
            Phase::Hooking => (self.hooks.len() - self.links.len() + 2) as nat,
            Phase::Attaching => 2,
            Phase::Releasing => 1,
            Phase::Attached | Phase::Failed => 0,
        }
    }
}

/// A step keeps an attach well-formed.
pub proof fn lemma_step_wf(s: AttachmentView, reply: LoaderReply)
    requires
        s.wf(),
    ensures
        s.step(reply).wf(),
{
}

/// The primary program is attached only when every hook is in place: at the
/// time of the request, the attach holds one live link for each hook.
pub proof fn lemma_hooks_before_attach(s: AttachmentView)
    requires
        s.wf(),
        s.request() matches Some(RequestView::Attach { .. }),
    ensures
        s.links.len() == s.hooks.len(),
{
}

/// Hooks are injected in their order, each exactly once: the hook asked for
/// is the one after those that already have their link.
pub proof fn lemma_hooks_in_order(s: AttachmentView)
    requires
        s.wf(),
        s.request() matches Some(RequestView::ReplaceHook { .. }),
    ensures
        s.request() matches Some(RequestView::ReplaceHook { index, prog, maps }) && index
            == s.links.len() && index < s.hooks.len() && prog == s.hooks[index].prog && maps
            == s.hooks[index].maps,
{
}

/// A failure leaves nothing behind. When a request fails after the object
/// was opened, the next request releases every link the attach holds; the
/// attach ends as failed only with no link left, and for the reason that was
/// first given.
pub proof fn lemma_failure_releases(s: AttachmentView, reply: LoaderReply)
    requires
        s.wf(),
        !s.finished(),
    ensures
        reply is Failed && s.phase != Phase::Releasing ==> {
            let next = s.step(reply);
            &&& next.error == Some(reply->Failed_0)
            &&& s.phase == Phase::Opening ==> next.phase == Phase::Failed
            &&& s.phase != Phase::Opening ==> next.request() == Some(
                RequestView::Release { links: s.links },
            )
        },
        s.phase == Phase::Releasing ==> s.step(reply).phase == Phase::Failed && s.step(
            reply,
        ).error == s.error,
        s.step(reply).phase == Phase::Failed ==> s.step(reply).links.len() == 0,
{
}

/// An attach succeeds only by going all the way: it ends as attached exactly
/// when the primary program's link arrives, and it then holds the links of
/// all hooks, in order, followed by that link.
pub proof fn lemma_success(s: AttachmentView, reply: LoaderReply)
    requires
        s.wf(),
        !s.finished(),
    ensures
        s.step(reply).phase == Phase::Attached <==> s.phase == Phase::Attaching
            && reply is Link,
        s.step(reply).phase == Phase::Attached ==> s.step(reply).links == s.links.push(
            reply->Link_0,
        ),
{
}

/// Every reply brings an unfinished attach closer to its end, so an attach
/// finishes after at most six replies and one for each hook.
pub proof fn lemma_progress(s: AttachmentView, reply: LoaderReply)
    requires
        s.wf(),
    ensures
        !s.finished() ==> s.step(reply).steps_left() < s.steps_left(),
        s.steps_left() <= s.hooks.len() + 6,
        s.finished() <==> s.steps_left() == 0,
{
}

/// The attach after the loader has answered a run of requests: each reply
/// answers the request made after the replies before it.
pub open spec fn run(s: AttachmentView, replies: Seq<LoaderReply>) -> AttachmentView
    decreases replies.len(),
{
    if replies.len() == 0 {
        s
    } else {
        run(s, replies.drop_last()).step(replies.last())
    }
}

/// The links that the loader reported in a run of replies, in order.
pub open spec fn reported(replies: Seq<LoaderReply>) -> Seq<LinkHandle>
    decreases replies.len(),
{
    if replies.len() == 0 {
        Seq::empty()
    } else {
        let before = reported(replies.drop_last());
        match replies.last() {
            LoaderReply::Link(link) => before.push(link),
            _ => before,
        }
    }
}

/// Whether, in the course of a run from `s`, the hook of index `hook` was
/// asked for with its program and its maps, and the loader answered with
/// a link.
pub open spec fn injected(s: AttachmentView, replies: Seq<LoaderReply>, hook: int) -> bool {
    exists|at: int|
        0 <= at < replies.len() && replies[at] is Link && #[trigger] run(
            s,
            replies.take(at),
        ).request() == Some(
            RequestView::ReplaceHook {
                index: hook,
                prog: s.hooks[hook].prog,
                maps: s.hooks[hook].maps,
            },
        )
}

/// Whether a run from `s` was still going on before each of its replies:
/// no reply came after the attach had finished or begun to release.
pub open spec fn going(s: AttachmentView, replies: Seq<LoaderReply>) -> bool {
    forall|at: int|
        0 <= at < replies.len() ==> {
            let then = #[trigger] run(s, replies.take(at));
            !then.finished() && then.phase != Phase::Releasing
        }
}

/// A run keeps an attach well-formed, and changes neither its kind, its
/// maps, its hooks nor its probe.
pub proof fn lemma_run_wf(s: AttachmentView, replies: Seq<LoaderReply>)
    requires
        s.wf(),
    ensures
        run(s, replies).wf(),
        run(s, replies).kind == s.kind,
        run(s, replies).map_fds == s.map_fds,
        run(s, replies).hooks == s.hooks,
        run(s, replies).probe == s.probe,
    decreases replies.len(),
{
    if replies.len() > 0 {
        lemma_run_wf(s, replies.drop_last());
        lemma_step_wf(run(s, replies.drop_last()), replies.last());
    }
}

/// Ordering of an attach. Whenever, after a run from the beginning, the
/// primary program is about to be attached or a further hook is about to be
/// injected, every hook before that point was injected in the course of the
/// run: it was asked for with its own program and maps, and the loader
/// answered with a link. In particular all hooks are in place before the
/// primary program is attached.
pub proof fn lemma_run_injects_hooks(b: BuilderView, probe: Probe, replies: Seq<LoaderReply>, hook: int)
    requires
        probe.kind_spec() == b.kind,
        run(b.begin(probe), replies).phase == Phase::Hooking || run(b.begin(probe), replies).phase
            == Phase::Attaching,
        0 <= hook < run(b.begin(probe), replies).links.len(),
    ensures
        hook < b.hooks.len(),
        injected(b.begin(probe), replies, hook),
    decreases replies.len(),
{
    let s = b.begin(probe);
    lemma_run_wf(s, replies);
    if replies.len() > 0 {
        let shorter = replies.drop_last();
        let before = run(s, shorter);
        lemma_run_wf(s, shorter);
        let last = replies.len() - 1;
        assert(replies.take(last) =~= shorter);
        if hook < before.links.len() {
            lemma_run_injects_hooks(b, probe, shorter, hook);
            let at = choose|at: int|
                0 <= at < shorter.len() && shorter[at] is Link && #[trigger] run(
                    s,
                    shorter.take(at),
                ).request() == Some(
                    RequestView::ReplaceHook {
                        index: hook,
                        prog: s.hooks[hook].prog,
                        maps: s.hooks[hook].maps,
                    },
                );
            assert(replies.take(at) =~= shorter.take(at));
            assert(replies[at] == shorter[at]);
        } else {
            assert(before.phase == Phase::Hooking);
            assert(run(s, replies.take(last)).request() == Some(
                RequestView::ReplaceHook {
                    index: hook,
                    prog: s.hooks[hook].prog,
                    maps: s.hooks[hook].maps,
                },
            ));
        }
    }
}

/// An attach holds exactly the links that the loader reported. As long as a
/// run from the beginning was going on before each of its replies, the links
/// that the attach holds after it are those that the replies brought, in
/// order; so the release that follows a failure names every link that was
/// made, and an attach that fails without a release had made none.
pub proof fn lemma_run_tracks_links(b: BuilderView, probe: Probe, replies: Seq<LoaderReply>)
    requires
        probe.kind_spec() == b.kind,
        going(b.begin(probe), replies),
    ensures
        run(b.begin(probe), replies).links == reported(replies),
        run(b.begin(probe), replies).phase == Phase::Releasing ==> run(
            b.begin(probe),
            replies,
        ).request() == Some(RequestView::Release { links: reported(replies) }),
    decreases replies.len(),
{
    let s = b.begin(probe);
    if replies.len() > 0 {
        let shorter = replies.drop_last();
        let last = replies.len() - 1;
        assert(replies.take(last) =~= shorter);
        assert forall|at: int| 0 <= at < shorter.len() implies {
            let then = #[trigger] run(s, shorter.take(at));
            !then.finished() && then.phase != Phase::Releasing
        } by {
            assert(replies.take(at) =~= shorter.take(at));
        }
        lemma_run_tracks_links(b, probe, shorter);
        lemma_run_wf(s, shorter);
        let before = run(s, replies.take(last));
        assert(!before.finished() && before.phase != Phase::Releasing);
    }
}

/// The whole of an attach that goes well. If the loader carries out every
/// request, the attach asks in turn for the object to be opened, the shared
/// maps to be reused, the object to be loaded, the primary program to be
/// found, each hook to be injected and the primary program to be attached,
/// and it ends as attached after four replies and one for each link, holding
/// the links in the order in which they were made.
pub proof fn lemma_run_attaches(b: BuilderView, probe: Probe, links: Seq<LinkHandle>)
    requires
        probe.kind_spec() == b.kind,
        links.len() == b.hooks.len() + 1,
    ensures
        run(b.begin(probe), carried_out(links)).phase == Phase::Attached,
        run(b.begin(probe), carried_out(links)).links == links,
        run(b.begin(probe), carried_out(links)).result() == Some(Ok::<(), Error>(())),
{
    let s = b.begin(probe);
    let setup = seq![LoaderReply::Done, LoaderReply::Done, LoaderReply::Done, LoaderReply::Done];
    assert(run(s, setup).phase == if b.hooks.len() == 0 {
        Phase::Attaching
    } else {
        Phase::Hooking
    } && run(s, setup).links == Seq::<LinkHandle>::empty() && run(s, setup).hooks == b.hooks
        && run(s, setup).wf()) by {
        reveal_with_fuel(run, 5);
        assert(setup.drop_last() =~= seq![LoaderReply::Done, LoaderReply::Done, LoaderReply::Done]);
        assert(setup.drop_last().drop_last() =~= seq![LoaderReply::Done, LoaderReply::Done]);
        assert(setup.drop_last().drop_last().drop_last() =~= seq![LoaderReply::Done]);
        assert(setup.drop_last().drop_last().drop_last().drop_last() =~= Seq::<
            LoaderReply,
        >::empty());
    }
    lemma_run_links(s, setup, links, links.len() as int);
    assert(links.take(links.len() as int) =~= links);
}

/// The replies of a loader that carries out every request of an attach and
/// makes these links: four requests that yield none, then one link for each
/// hook and one for the primary program.
pub open spec fn carried_out(links: Seq<LinkHandle>) -> Seq<LoaderReply> {
    seq![LoaderReply::Done, LoaderReply::Done, LoaderReply::Done, LoaderReply::Done] + links.map_values(
        |link: LinkHandle| LoaderReply::Link(link),
    )
}

/// After the setup, each link that arrives is taken, until the primary
/// program is attached.
proof fn lemma_run_links(s: AttachmentView, setup: Seq<LoaderReply>, links: Seq<LinkHandle>, upto: int)
    requires
        0 <= upto <= links.len(),
        links.len() == s.hooks.len() + 1,
        run(s, setup).wf(),
        run(s, setup).hooks == s.hooks,
        run(s, setup).links == Seq::<LinkHandle>::empty(),
        run(s, setup).phase == if s.hooks.len() == 0 {
            Phase::Attaching
        } else {
            Phase::Hooking
        },
    ensures
        ({
            let after = run(
                s,
                setup + links.take(upto).map_values(|link: LinkHandle| LoaderReply::Link(link)),
            );
            &&& after.wf()
            &&& after.hooks == s.hooks
            &&& after.links == links.take(upto)
            &&& after.phase == if upto < s.hooks.len() {
                Phase::Hooking
            } else if upto == s.hooks.len() {
                Phase::Attaching
            } else {
                Phase::Attached
            }
        }),
    decreases upto,
{
    let replies = setup + links.take(upto).map_values(|link: LinkHandle| LoaderReply::Link(link));
    if upto == 0 {
        assert(replies =~= setup);
        assert(links.take(0) =~= Seq::<LinkHandle>::empty());
    } else {
        lemma_run_links(s, setup, links, upto - 1);
        let shorter = setup + links.take(upto - 1).map_values(
            |link: LinkHandle| LoaderReply::Link(link),
        );
        assert(replies.drop_last() =~= shorter);
        assert(replies.last() == LoaderReply::Link(links[upto - 1]));
        assert(links.take(upto) =~= links.take(upto - 1).push(links[upto - 1]));
        lemma_step_wf(run(s, shorter), replies.last());
    }
}

/// A copy of a list of hooks.
pub fn clone_hooks(hooks: &Vec<Hook>) -> (r: Vec<Hook>)
    ensures
        hooks_view(r@) == hooks_view(hooks@),
{
    let mut r: Vec<Hook> = Vec::new();
    let mut i: usize = 0;
    while i < hooks.len()
        invariant
            i <= hooks@.len(),
            r@.len() == i,
            hooks_view(r@) == hooks_view(hooks@.take(i as int)),
        decreases hooks@.len() - i,
    {
        let hook = hooks[i].clone();
        let ghost copied = r@;
        r.push(hook);
        assert forall|j: int| 0 <= j < i + 1 implies hooks_view(r@)[j] == hooks_view(
            hooks@.take(i + 1),
        )[j] by {
            if j < i {
                assert(hooks_view(copied)[j] == hooks_view(hooks@.take(i as int))[j]);
            }
        }
        assert(hooks_view(r@) =~= hooks_view(hooks@.take(i + 1)));
        i += 1;
    }
    assert(hooks@.take(hooks@.len() as int) =~= hooks@);
    r
}

/// A copy of a list of links.
pub fn clone_links(links: &Vec<LinkHandle>) -> (r: Vec<LinkHandle>)
    ensures
        r@ == links@,
{
    let mut r: Vec<LinkHandle> = Vec::new();
    let mut i: usize = 0;
    while i < links.len()
        invariant
            i <= links@.len(),
            r@ == links@.take(i as int),
        decreases links@.len() - i,
    {
        r.push(links[i]);
        assert(r@ =~= links@.take(i + 1));
        i += 1;
    }
    assert(links@.take(links@.len() as int) =~= links@);
    r
}

/// The attach of one probe, from the first request to its end.
pub struct Attachment {
    kind: ProbeKind,
    map_fds: Vec<(String, i32)>,
    hooks: Vec<Hook>,
    probe: Probe,
    phase: Phase,
    links: Vec<LinkHandle>,
    error: Option<Error>,
}

impl View for Attachment {
    type V = AttachmentView;

    closed spec fn view(&self) -> AttachmentView {
        AttachmentView {
            kind: self.kind,
            map_fds: maps_view(self.map_fds@),
            hooks: hooks_view(self.hooks@),
            probe: self.probe,
            phase: self.phase,
            links: self.links@,
            error: self.error,
        }
    }
}

impl Attachment {
    #[verifier::type_invariant]
    spec fn well_formed(&self) -> bool {
        self@.wf()
    }

    /// Where the attach stands.
    pub fn phase(&self) -> (phase: Phase)
        ensures
            phase == self@.phase,
            self@.wf(),
    {
        proof {
            use_type_invariant(self);
        }
        self.phase
    }

    /// The request that the loader is to carry out next; none once the attach
    /// has finished.
    pub fn request(&self) -> (r: Option<LoaderRequest>)
        ensures
            self@.wf(),
            match r {
                Some(request) => self@.request() == Some(request@),
                None => self@.request() is None,
            },
    {
        proof {
            use_type_invariant(self);
        }
        match self.phase {
            Phase::Opening => Some(LoaderRequest::Open { kind: self.kind }),
            Phase::ReusingMaps => Some(LoaderRequest::ReuseMaps { maps: clone_maps(&self.map_fds) }),
            Phase::Loading => Some(LoaderRequest::Load),
            Phase::Finding => Some(LoaderRequest::GetProgram { name: program(self.kind) }),
            Phase::Hooking => {
                let index = self.links.len();
                let hook = &self.hooks[index];
                Some(
                    LoaderRequest::ReplaceHook {
                        index,
                        prog: hook.bpf_prog(),
                        maps: hook.map_fds(),
                    },
                )
            },
            Phase::Attaching => Some(LoaderRequest::Attach { probe: self.probe.clone() }),
            Phase::Releasing => Some(LoaderRequest::Release { links: clone_links(&self.links) }),
            Phase::Attached => None,
            Phase::Failed => None,
        }
    }

    /// The attach after the loader's reply to its request.
    pub fn resume(self, reply: LoaderReply) -> (next: Attachment)
        ensures
            next@ == self@.step(reply),
    {
        proof {
            use_type_invariant(&self);
            lemma_step_wf(self@, reply);
        }
        let ghost before = self@;
        let Attachment { kind, map_fds, hooks, probe, phase, links, error } = self;
        let mut links = links;
        assert(links@ == before.links && hooks_view(hooks@) == before.hooks && phase
            == before.phase);
        assert(hooks_view(hooks@).len() == hooks@.len());
        match phase {
            Phase::Attached | Phase::Failed => Attachment {
                kind,
                map_fds,
                hooks,
                probe,
                phase,
                links,
                error,
            },
            Phase::Releasing => Attachment {
                kind,
                map_fds,
                hooks,
                probe,
                phase: Phase::Failed,
                links: Vec::new(),
                error,
            },
            Phase::Opening | Phase::ReusingMaps | Phase::Loading | Phase::Finding => match reply {
                LoaderReply::Done => {
                    let phase = match phase {
                        Phase::Opening => Phase::ReusingMaps,
                        Phase::ReusingMaps => Phase::Loading,
                        Phase::Loading => Phase::Finding,
                        _ => if hooks.len() == 0 {
                            Phase::Attaching
                        } else {
                            Phase::Hooking
                        },
                    };
                    Attachment { kind, map_fds, hooks, probe, phase, links, error }
                },
                LoaderReply::Link(link) => {
                    links.push(link);
                    Attachment {
                        kind,
                        map_fds,
                        hooks,
                        probe,
                        phase: Phase::Releasing,
                        links,
                        error: Some(Error::UnderlyingFailure),
                    }
                },
                LoaderReply::Failed(e) => Attachment {
                    kind,
                    map_fds,
                    hooks,
                    probe,
                    phase: failing(phase),
                    links,
                    error: Some(e),
                },
            },
            Phase::Hooking | Phase::Attaching => match reply {
                LoaderReply::Link(link) => {
                    let phase = match phase {
                        Phase::Attaching => Phase::Attached,
                        _ => if hooks.len() > 0 && links.len() < hooks.len() - 1 {
                            Phase::Hooking
                        } else {
                            Phase::Attaching
                        },
                    };
                    links.push(link);
                    Attachment { kind, map_fds, hooks, probe, phase, links, error }
                },
                LoaderReply::Done => Attachment {
                    kind,
                    map_fds,
                    hooks,
                    probe,
                    phase: failing(phase),
                    links,
                    error: Some(Error::UnderlyingFailure),
                },
                LoaderReply::Failed(e) => Attachment {
                    kind,
                    map_fds,
                    hooks,
                    probe,
                    phase: failing(phase),
                    links,
                    error: Some(e),
                },
            },
        }
    }

    /// How the attach ended; none while it goes on.
    pub fn result(&self) -> (r: Option<Result<(), Error>>)
        ensures
            r == self@.result(),
            self@.wf(),
    {
        proof {
            use_type_invariant(self);
        }
        match self.phase {
            Phase::Attached => Some(Ok(())),
            Phase::Failed => match self.error {
                Some(e) => Some(Err(e)),
                None => None,
            },
            _ => None,
        }
    }

    /// The links that the attach has created and that are live: once the
    /// probe is attached, those of the hooks, in order, and then that of the
    /// primary program.
    pub fn links(&self) -> (links: Vec<LinkHandle>)
        ensures
            links@ == self@.links,
    {
        clone_links(&self.links)
    }
}

/// The phase an attach enters when a request fails in `phase`.
fn failing(phase: Phase) -> (next: Phase)
    ensures
        next == if phase == Phase::Opening {
            Phase::Failed
        } else {
            Phase::Releasing
        },
{
    match phase {
        Phase::Opening => Phase::Failed,
        _ => Phase::Releasing,
    }
}

/// The name of the primary program in the object for probes of `kind`.
fn program(kind: ProbeKind) -> (name: String)
    ensures
        name@ == program_name(kind),
{
    match kind {
        ProbeKind::Kprobe => "probe_kprobe".to_owned(),
        ProbeKind::RawTracepoint => "probe_raw_tracepoint".to_owned(),
        ProbeKind::Uprobe => "probe_uprobe".to_owned(),
        ProbeKind::Usdt => "probe_usdt".to_owned(),
    }
}

/// What a builder is: its kind, what it was initialized with, and the live
/// links of the probes it has attached.
pub struct BuilderView {
    pub kind: ProbeKind,
    pub map_fds: Seq<(Seq<char>, i32)>,
    pub hooks: Seq<HookView>,
    pub links: Seq<LinkHandle>,
}

impl BuilderView {
    /// The attach of `probe` as the builder begins it: about to open the
    /// object, with the builder's maps and hooks.
    pub open spec fn begin(self, probe: Probe) -> AttachmentView {
        AttachmentView {
            kind: self.kind,
            map_fds: self.map_fds,
            hooks: self.hooks,
            probe,
            phase: Phase::Opening,
            links: Seq::empty(),
            error: None,
        }
    }
}

/// Attaches the probes of one kind, all with the same shared maps and the
/// same hooks, and keeps their live links.
pub struct ProbeBuilder {
    kind: ProbeKind,
    map_fds: Vec<(String, i32)>,
    hooks: Vec<Hook>,
    links: Vec<LinkHandle>,
}

impl View for ProbeBuilder {
    type V = BuilderView;

    closed spec fn view(&self) -> BuilderView {
        BuilderView {
            kind: self.kind,
            map_fds: maps_view(self.map_fds@),
            hooks: hooks_view(self.hooks@),
            links: self.links@,
        }
    }
}

impl ProbeBuilder {
    /// A builder for probes of `kind`, with no map, no hook and no link.
    pub fn new(kind: ProbeKind) -> (builder: ProbeBuilder)
        ensures
            builder@ == (BuilderView {
                kind,
                map_fds: Seq::empty(),
                hooks: Seq::empty(),
                links: Seq::empty(),
            }),
    {
        let builder = ProbeBuilder {
            kind,
            map_fds: Vec::new(),
            hooks: Vec::new(),
            links: Vec::new(),
        };
        assert(builder@.map_fds =~= Seq::empty());
        assert(builder@.hooks =~= Seq::empty());
        builder
    }

    /// Gives the builder the maps that all its programs share and the hooks
    /// that it injects, in this order, into every probe it attaches from now
    /// on. It is called once, before the first attach.
    pub fn init(&mut self, map_fds: Vec<(String, i32)>, hooks: Vec<Hook>) -> (r: Result<(), Error>)
        ensures
            r is Ok,
            final(self)@ == (BuilderView {
                map_fds: maps_view(map_fds@),
                hooks: hooks_view(hooks@),
                ..old(self)@
            }),
    {
        self.map_fds = map_fds;
        self.hooks = hooks;
        Ok(())
    }

    /// Begins the attach of `probe`.
    ///
    /// Fails with [`Error::WrongProbeType`] if the probe is not of the
    /// builder's kind. Nothing has been asked of the loader at that point.
    pub fn attach(&self, probe: &Probe) -> (r: Result<Attachment, Error>)
        ensures
            match r {
                Ok(attachment) => probe.kind_spec() == self@.kind && attachment@ == self@.begin(
                    *probe,
                ),
                Err(e) => probe.kind_spec() != self@.kind && e == Error::WrongProbeType,
            },
    {
        if probe.as_key() != self.kind.index() {
            return Err(Error::WrongProbeType);
        }
        Ok(
            Attachment {
                kind: self.kind,
                map_fds: clone_maps(&self.map_fds),
                hooks: clone_hooks(&self.hooks),
                probe: probe.clone(),
                phase: Phase::Opening,
                links: Vec::new(),
                error: None,
            },
        )
    }

    /// Takes over the links of a probe that was attached, to keep them for
    /// as long as the probe is to stay attached.
    pub fn adopt(&mut self, links: Vec<LinkHandle>)
        ensures
            final(self)@ == (BuilderView { links: old(self)@.links + links@, ..old(self)@ }),
    {
        let mut links = links;
        self.links.append(&mut links);
    }

    /// The builder's kind.
    pub fn kind(&self) -> (kind: ProbeKind)
        ensures
            kind == self@.kind,
    {
        self.kind
    }

    /// The live links of the probes that the builder has attached, in the
    /// order in which they were created.
    pub fn links(&self) -> (links: Vec<LinkHandle>)
        ensures
            links@ == self@.links,
    {
        clone_links(&self.links)
    }
}

} // verus!
