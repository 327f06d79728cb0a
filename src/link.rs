//! The link stage: one run of the native link recipe per cross-built test,
//! in manifest order, each followed by a check that its image exists.
//!
//! As for the cross-build stage, `step` decides and the caller acts.

use vstd::prelude::*;
use crate::command::{
    image_path, image_path_of, is_link_command, link_command, CrossbuildOptions, ToolCommand,
};
use crate::crossbuild::CrossbuiltTests;
use crate::error::{BuildError, BuildStage};
use crate::text::{has_suffix, views};

verus! {

/// One linked image: the test's name and the absolute path of its image.
#[derive(Clone, Debug)]
pub struct Stm32Test {
    pub name: String,
    pub absolute_elf_path: String,
}

/// The images of one run, in manifest order.
#[derive(Clone, Debug)]
pub struct Stm32Binaries {
    pub binaries: Vec<Stm32Test>,
}

/// The names of linked images.
pub open spec fn image_names(images: Seq<Stm32Test>) -> Seq<Seq<char>> {
    images.map_values(|b: Stm32Test| b.name@)
}

/// Where the stage stands.
#[derive(Clone, Copy, Debug, PartialEq, Eq, Structural)]
pub enum LinkPhase {
    /// Nothing has been asked for yet.
    Idle,
    /// Waiting for the link recipe's run for the next test.
    Linking,
    /// Waiting for that test's image to be resolved.
    ResolvingImage,
    /// Finished or aborted; no event is taken any more.
    Done,
}

/// What came of the last action.
#[derive(Debug)]
pub enum LinkEvent {
    /// The stage begins.
    Start,
    /// The link run asked for exited, successfully or not.
    LinkExited(bool),
    /// The canonical path of the image, or `None` where it does not exist.
    ImageResolved(Option<String>),
}

/// What the caller is to do next.
#[derive(Debug)]
pub enum LinkAction {
    /// Run this command and wait for it to exit.
    RunLink(ToolCommand),
    /// Resolve this image path to its canonical absolute path.
    ResolveImage(String),
    /// The stage succeeded with these images.
    Finish(Stm32Binaries),
    /// The stage failed; the run stops.
    Abort(BuildError),
}

/// The link stage of one run.
#[derive(Debug)]
pub struct Link {
    pub options: CrossbuildOptions,
    pub manifest: CrossbuiltTests,
    pub binaries: Vec<Stm32Test>,
    pub phase: LinkPhase,
}

/// The event is one that the phase waits for.
pub open spec fn link_accepts(phase: LinkPhase, event: LinkEvent) -> bool {
    match event {
        LinkEvent::Start => phase == LinkPhase::Idle,
        LinkEvent::LinkExited(_) => phase == LinkPhase::Linking,
        LinkEvent::ImageResolved(_) => phase == LinkPhase::ResolvingImage,
    }
}

impl Link {
    /// The images made so far are those of the first tests, in order.
    pub open spec fn linked_prefix(&self) -> bool {
        &&& self.binaries.len() <= self.manifest.tests.len()
        &&& image_names(self.binaries@) == views(self.manifest.tests@).take(
            self.binaries.len() as int,
        )
    }

    /// The images made so far are those of the first tests, and the phase
    /// agrees with how many there are.
    pub open spec fn wf(&self) -> bool {
        &&& self.linked_prefix()
        &&& self.phase == LinkPhase::Idle ==> self.binaries.len() == 0
        &&& (self.phase == LinkPhase::Linking || self.phase == LinkPhase::ResolvingImage)
            ==> self.binaries.len() < self.manifest.tests.len()
    }

    /// The stage's configuration is that of `other`.
    pub open spec fn same_run(&self, other: &Link) -> bool {
        &&& self.options == other.options
        &&& self.manifest == other.manifest
    }

    /// The test now in hand.
    pub open spec fn current(&self) -> Seq<char> {
        self.manifest.tests@[self.binaries.len() as int]@
    }

    /// The record of the test in hand, linked into the image at `path`.
    pub open spec fn record(&self, path: String) -> Stm32Test {
        Stm32Test { name: self.manifest.tests@[self.binaries.len() as int], absolute_elf_path: path }
    }

    /// With the images `made`, the stage asks for the link of the next test
    /// or, after the last, finishes with them.
    pub open spec fn dispatches(&self, made: Seq<Stm32Test>, action: LinkAction) -> bool {
        if made.len() < self.manifest.tests.len() {
            &&& self.phase == LinkPhase::Linking
            &&& self.binaries@ == made
            &&& action matches LinkAction::RunLink(cmd)
            &&& is_link_command(
                cmd,
                self.options,
                self.manifest.library_path@,
                views(self.manifest.object_paths@),
                self.manifest.tests@[made.len() as int]@,
            )
        } else {
            &&& self.phase == LinkPhase::Done
            &&& action matches LinkAction::Finish(out)
            &&& out.binaries@ == made
        }
    }

    /// One step of the stage: from `s` the event `event` leads to `t` and the
    /// action `action`.
    pub open spec fn step_to(s: Link, event: LinkEvent, t: Link, action: LinkAction) -> bool {
        &&& t.wf()
        &&& t.same_run(&s)
        &&& match event {
            LinkEvent::Start => t.dispatches(s.binaries@, action),
            LinkEvent::LinkExited(ok) => if ok {
                &&& t.binaries@ == s.binaries@
                &&& t.phase == LinkPhase::ResolvingImage
                &&& action matches LinkAction::ResolveImage(p)
                &&& p@ == image_path_of(s.options.tests_project_path@, s.current())
            } else {
                &&& t.phase == LinkPhase::Done
                &&& action matches LinkAction::Abort(e)
                &&& e matches BuildError::SubprocessFailure { stage, test }
                &&& stage == BuildStage::Link
                &&& test@ == s.current()
            },
            LinkEvent::ImageResolved(resolved) => match resolved {
                Some(p) => t.dispatches(s.binaries@.push(s.record(p)), action),
                None => {
                    &&& t.phase == LinkPhase::Done
                    &&& action matches LinkAction::Abort(e)
                    &&& e matches BuildError::MissingExpectedArtifact { path }
                    &&& path@ == image_path_of(s.options.tests_project_path@, s.current())
                },
            },
        }
    }

    /// The stage for the tests of `manifest`.
    pub fn new(options: CrossbuildOptions, manifest: CrossbuiltTests) -> (r: Self)
        ensures
            r.wf(),
            r.phase == LinkPhase::Idle,
            r.options == options,
            r.manifest == manifest,
            r.binaries.len() == 0,
    {
        let r = Link { options, manifest, binaries: Vec::new(), phase: LinkPhase::Idle };
        assert(image_names(r.binaries@) =~= views(r.manifest.tests@).take(0));
        r
    }

    /// The action once the images in `binaries` are made.
    fn dispatch(&mut self) -> (r: LinkAction)
        requires
            old(self).linked_prefix(),
        ensures
            final(self).same_run(&*old(self)),
            final(self).wf(),
            final(self).dispatches(old(self).binaries@, r),
    {
        let k = self.binaries.len();
        if k < self.manifest.tests.len() {
            self.phase = LinkPhase::Linking;
            LinkAction::RunLink(
                link_command(
                    &self.options,
                    self.manifest.library_path.as_str(),
                    &self.manifest.object_paths,
                    self.manifest.tests[k].as_str(),
                ),
            )
        } else {
            self.phase = LinkPhase::Done;
            let mut made: Vec<Stm32Test> = Vec::new();
            std::mem::swap(&mut made, &mut self.binaries);
            assert(image_names(self.binaries@) =~= views(self.manifest.tests@).take(0));
            LinkAction::Finish(Stm32Binaries { binaries: made })
        }
    }

    /// Takes what came of the last action and names the next one.
    pub fn step(&mut self, event: LinkEvent) -> (r: LinkAction)
        requires
            old(self).wf(),
            link_accepts(old(self).phase, event),
        ensures
            Self::step_to(*old(self), event, *final(self), r),
    {
        let k = self.binaries.len();
        match event {
            LinkEvent::Start => self.dispatch(),
            LinkEvent::LinkExited(ok) => if ok {
                self.phase = LinkPhase::ResolvingImage;
                LinkAction::ResolveImage(image_path(&self.options, self.manifest.tests[k].as_str()))
            } else {
                self.phase = LinkPhase::Done;
                LinkAction::Abort(
                    BuildError::SubprocessFailure {
                        stage: BuildStage::Link,
                        test: self.manifest.tests[k].clone(),
                    },
                )
            },
            LinkEvent::ImageResolved(resolved) => match resolved {
                Some(p) => {
                    let name = self.manifest.tests[k].clone();
                    self.binaries.push(Stm32Test { name, absolute_elf_path: p });
                    proof {
                        assert(image_names(self.binaries@) =~= image_names(old(self).binaries@).push(
                            old(self).current(),
                        ));
                        assert(views(self.manifest.tests@).take(k + 1) =~= views(
                            self.manifest.tests@,
                        ).take(k as int).push(old(self).current()));
                    }
                    self.dispatch()
                },
                None => {
                    self.phase = LinkPhase::Done;
                    LinkAction::Abort(
                        BuildError::MissingExpectedArtifact {
                            path: image_path(&self.options, self.manifest.tests[k].as_str()),
                        },
                    )
                },
            },
        }
    }
}

/// A run of the stage: `states[i]` takes `events[i]`, which it waits for, and
/// steps to `states[i + 1]` with `actions[i]`.
pub open spec fn link_run(
    states: Seq<Link>,
    events: Seq<LinkEvent>,
    actions: Seq<LinkAction>,
) -> bool {
    &&& states.len() == events.len() + 1
    &&& actions.len() == events.len()
    &&& states[0].wf()
    &&& forall|i: int|
        0 <= i < events.len() ==> link_accepts(states[i].phase, #[trigger] events[i])
            && Link::step_to(states[i], events[i], states[i + 1], actions[i])
}

proof fn lemma_link_run_keeps_config(
    states: Seq<Link>,
    events: Seq<LinkEvent>,
    actions: Seq<LinkAction>,
    i: int,
)
    requires
        link_run(states, events, actions),
        0 <= i < states.len(),
    ensures
        states[i].wf(),
        states[i].same_run(&states[0]),
    decreases i,
{
    if i > 0 {
        lemma_link_run_keeps_config(states, events, actions, i - 1);
        assert(link_accepts(states[i - 1].phase, events[i - 1]));
    }
}

/// Once a link has succeeded, the stage asks for the image that the recipe
/// names `stm32_{name}.elf` under its `build/` directory, and records the test
/// with the path that image resolved to.
pub proof fn lemma_image_follows_naming(
    s0: Link,
    s1: Link,
    a0: LinkAction,
    p: String,
    s2: Link,
    a1: LinkAction,
)
    requires
        s0.wf(),
        link_accepts(s0.phase, LinkEvent::LinkExited(true)),
        Link::step_to(s0, LinkEvent::LinkExited(true), s1, a0),
        Link::step_to(s1, LinkEvent::ImageResolved(Some(p)), s2, a1),
    ensures
        a0 matches LinkAction::ResolveImage(q) && q@ == image_path_of(
            s0.options.tests_project_path@,
            s0.current(),
        ) && has_suffix(q@, "build/stm32_"@ + s0.current() + ".elf"@),
        s1.record(p).name@ == s0.current(),
        s1.record(p).absolute_elf_path == p,
        s2.binaries@ == s0.binaries@.push(s1.record(p)) || (a1 matches LinkAction::Finish(out)
            && out.binaries@ == s0.binaries@.push(s1.record(p))),
{
    let q = a0->ResolveImage_0;
    let tail = "build/stm32_"@ + s0.current() + ".elf"@;
    assert(q@.subrange(q@.len() - tail.len(), q@.len() as int) =~= tail);
}

/// Whenever the stage finishes, it hands on one image for each test of the
/// manifest, in manifest order.
pub proof fn lemma_finish_covers_manifest(
    states: Seq<Link>,
    events: Seq<LinkEvent>,
    actions: Seq<LinkAction>,
    i: int,
)
    requires
        link_run(states, events, actions),
        0 <= i < actions.len(),
        actions[i] is Finish,
    ensures
        image_names(actions[i]->Finish_0.binaries@) == views(states[0].manifest.tests@),
{
    lemma_link_run_keeps_config(states, events, actions, i);
    let s = states[i];
    assert(link_accepts(s.phase, events[i]));
    let n = s.manifest.tests.len() as int;
    let out = actions[i]->Finish_0.binaries@;
    if events[i] matches LinkEvent::ImageResolved(Some(_)) {
        assert(image_names(out) =~= image_names(s.binaries@).push(s.current()));
        assert(views(s.manifest.tests@).take(n) =~= views(
            s.manifest.tests@,
        ).take(n - 1).push(s.current()));
    }
    assert(views(s.manifest.tests@).take(n) =~= views(s.manifest.tests@));
    assert(image_names(out) =~= views(s.manifest.tests@));
}

/// The image paths of linked images.
pub open spec fn image_paths(images: Seq<Stm32Test>) -> Seq<Seq<char>> {
    images.map_values(|b: Stm32Test| b.absolute_elf_path@)
}

proof fn lemma_link_runs_agree_upto(
    st1: Seq<Link>,
    st2: Seq<Link>,
    events: Seq<LinkEvent>,
    a1: Seq<LinkAction>,
    a2: Seq<LinkAction>,
    i: int,
    j: int,
)
    requires
        link_run(st1, events, a1),
        link_run(st2, events, a2),
        views(st1[0].manifest.tests@) == views(st2[0].manifest.tests@),
        st1[0].binaries.len() == 0,
        st2[0].binaries.len() == 0,
        0 <= j <= i < events.len(),
    ensures
        st1[j].binaries.len() == st2[j].binaries.len(),
        image_paths(st1[j].binaries@) == image_paths(st2[j].binaries@),
    decreases j,
{
    if j == 0 {
        assert(image_paths(st1[0].binaries@) =~= image_paths(st2[0].binaries@));
    } else {
        lemma_link_runs_agree_upto(st1, st2, events, a1, a2, i, j - 1);
        lemma_link_run_keeps_config(st1, events, a1, j - 1);
        lemma_link_run_keeps_config(st2, events, a2, j - 1);
        let s1 = st1[j - 1];
        let s2 = st2[j - 1];
        assert(s1.manifest.tests.len() == views(s1.manifest.tests@).len());
        assert(s2.manifest.tests.len() == views(s2.manifest.tests@).len());
        assert(link_accepts(st1[j].phase, events[j]));
        assert(link_accepts(st2[j].phase, events[j]));
        assert(link_accepts(s1.phase, events[j - 1]));
        assert(link_accepts(s2.phase, events[j - 1]));
        match events[j - 1] {
            LinkEvent::ImageResolved(Some(p)) => {
                assert(image_paths(s1.binaries@.push(s1.record(p))) =~= image_paths(
                    s1.binaries@,
                ).push(p@));
                assert(image_paths(s2.binaries@.push(s2.record(p))) =~= image_paths(
                    s2.binaries@,
                ).push(p@));
            },
            _ => {},
        }
    }
}

/// The stage decides by what it is told alone: two runs on manifests with the
/// same test names, told the same outcomes, finish together with the same
/// images, names and paths, in the same order.
pub proof fn lemma_link_runs_agree(
    st1: Seq<Link>,
    st2: Seq<Link>,
    events: Seq<LinkEvent>,
    a1: Seq<LinkAction>,
    a2: Seq<LinkAction>,
    i: int,
)
    requires
        link_run(st1, events, a1),
        link_run(st2, events, a2),
        views(st1[0].manifest.tests@) == views(st2[0].manifest.tests@),
        st1[0].binaries.len() == 0,
        st2[0].binaries.len() == 0,
        0 <= i < events.len(),
        a1[i] is Finish,
    ensures
        a2[i] is Finish,
        image_names(a1[i]->Finish_0.binaries@) == image_names(a2[i]->Finish_0.binaries@),
        image_paths(a1[i]->Finish_0.binaries@) == image_paths(a2[i]->Finish_0.binaries@),
{
    lemma_link_runs_agree_upto(st1, st2, events, a1, a2, i, i);
    lemma_link_run_keeps_config(st1, events, a1, i);
    lemma_link_run_keeps_config(st2, events, a2, i);
    let s1 = st1[i];
    let s2 = st2[i];
    assert(s1.manifest.tests.len() == views(s1.manifest.tests@).len());
    assert(s2.manifest.tests.len() == views(s2.manifest.tests@).len());
    assert(link_accepts(s1.phase, events[i]));
    assert(link_accepts(s2.phase, events[i]));
    match events[i] {
        LinkEvent::ImageResolved(Some(p)) => {
            assert(image_paths(s1.binaries@.push(s1.record(p))) =~= image_paths(
                s1.binaries@,
            ).push(p@));
            assert(image_paths(s2.binaries@.push(s2.record(p))) =~= image_paths(
                s2.binaries@,
            ).push(p@));
        },
        _ => {},
    }
    assert(a2[i] is Finish);
    lemma_finish_covers_manifest(st1, events, a1, i);
    lemma_finish_covers_manifest(st2, events, a2, i);
}

} // verus!
