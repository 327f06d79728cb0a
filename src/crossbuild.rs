//! The cross-build stage: one toolchain run per discovered test, in order,
//! stopping at the first failure, then the shared output directory.
//!
//! The stage decides and its caller acts: each `step` takes what came of the
//! last action and names the next one.

use vstd::prelude::*;
use crate::command::{
    archive_path, archive_path_of, cross_build_command, is_cross_build_command, library_dir,
    library_dir_of, CrossbuildOptions, ToolCommand,
};
use crate::error::{BuildError, BuildStage};
use crate::text::views;

verus! {

/// What the cross-build stage produced: the tests built, in discovery order,
/// and the one directory that holds their compiled archives.
#[derive(Debug)]
pub struct CrossbuiltTests {
    pub object_paths: Vec<String>,
    pub tests: Vec<String>,
    pub library_path: String,
}

/// Where the stage stands.
#[derive(Clone, Copy, Debug, PartialEq, Eq, Structural)]
pub enum CrossBuildPhase {
    /// Nothing has been asked for yet.
    Idle,
    /// Waiting for the toolchain run of the next test.
    Building,
    /// Waiting for the output directory to be resolved.
    ResolvingLibrary,
    /// Waiting to hear whether the next built test's archive is present.
    CheckingArchives,
    /// Finished or aborted; no event is taken any more.
    Done,
}

/// What came of the last action.
#[derive(Debug)]
pub enum CrossBuildEvent {
    /// The run begins.
    Start,
    /// The toolchain run asked for exited, successfully or not.
    BuildExited(bool),
    /// The canonical path of the output directory, or `None` where it does not resolve.
    LibraryResolved(Option<String>),
    /// Whether the archive asked about is present.
    ArchiveChecked(bool),
}

/// What the caller is to do next.
#[derive(Debug)]
pub enum CrossBuildAction {
    /// Run this command and wait for it to exit.
    RunBuild(ToolCommand),
    /// Resolve this directory to its canonical absolute path.
    ResolveLibrary(String),
    /// Report whether this file is present.
    CheckArchive(String),
    /// The stage succeeded with this result.
    Finish(CrossbuiltTests),
    /// The stage failed; the run stops.
    Abort(BuildError),
}

/// The cross-build stage of one run.
#[derive(Debug)]
pub struct CrossBuild {
    pub options: CrossbuildOptions,
    pub driver: String,
    pub tests: Vec<String>,
    pub built: Vec<String>,
    pub library_path: String,
    pub checked: usize,
    pub phase: CrossBuildPhase,
}

/// The event is one that the phase waits for.
pub open spec fn cross_build_accepts(phase: CrossBuildPhase, event: CrossBuildEvent) -> bool {
    match event {
        CrossBuildEvent::Start => phase == CrossBuildPhase::Idle,
        CrossBuildEvent::BuildExited(_) => phase == CrossBuildPhase::Building,
        CrossBuildEvent::LibraryResolved(_) => phase == CrossBuildPhase::ResolvingLibrary,
        CrossBuildEvent::ArchiveChecked(_) => phase == CrossBuildPhase::CheckingArchives,
    }
}

impl CrossBuild {
    /// The tests built so far are the first tests, in order.
    pub open spec fn built_prefix(&self) -> bool {
        &&& self.built.len() <= self.tests.len()
        &&& views(self.built@) == views(self.tests@).take(self.built.len() as int)
    }

    /// The tests built so far are the first tests, in order, and the phase
    /// agrees with how many there are.
    pub open spec fn wf(&self) -> bool {
        &&& self.built_prefix()
        &&& self.phase == CrossBuildPhase::Idle ==> self.built.len() == 0
        &&& self.phase == CrossBuildPhase::Building ==> self.built.len() < self.tests.len()
        &&& self.phase == CrossBuildPhase::ResolvingLibrary ==> self.built.len()
            == self.tests.len()
        &&& self.phase == CrossBuildPhase::CheckingArchives ==> self.built.len()
            == self.tests.len() && self.checked < self.built.len()
    }

    /// The stage's configuration is that of `other`.
    pub open spec fn same_run(&self, other: &CrossBuild) -> bool {
        &&& self.options == other.options
        &&& self.driver == other.driver
        &&& self.tests == other.tests
    }

    /// Having built `built.len()` tests, the stage asks for the next build or,
    /// after the last, for the output directory.
    pub open spec fn dispatches(&self, action: CrossBuildAction) -> bool {
        if self.built.len() < self.tests.len() {
            &&& self.phase == CrossBuildPhase::Building
            &&& action matches CrossBuildAction::RunBuild(cmd)
            &&& is_cross_build_command(
                cmd,
                self.options,
                self.driver@,
                self.tests@[self.built.len() as int]@,
            )
        } else {
            &&& self.phase == CrossBuildPhase::ResolvingLibrary
            &&& action matches CrossBuildAction::ResolveLibrary(dir)
            &&& dir@ == library_dir_of(
                self.options.tests_project_path@,
                self.options.target_arch@,
            )
        }
    }

    /// With the archives of `built` confirmed up to `checked`, the stage asks
    /// about the next one or, after the last, finishes with `built`.
    pub open spec fn concludes(&self, built: Seq<String>, action: CrossBuildAction) -> bool {
        if self.checked < built.len() {
            &&& self.phase == CrossBuildPhase::CheckingArchives
            &&& self.built@ == built
            &&& action matches CrossBuildAction::CheckArchive(p)
            &&& p@ == archive_path_of(self.library_path@, built[self.checked as int]@)
        } else {
            &&& self.phase == CrossBuildPhase::Done
            &&& action matches CrossBuildAction::Finish(m)
            &&& m.tests@ == built
            &&& m.object_paths.len() == 0
            &&& m.library_path@ == self.library_path@
        }
    }

    /// One step of the stage: from `s` the event `event` leads to `t` and the
    /// action `action`.
    pub open spec fn step_to(
        s: CrossBuild,
        event: CrossBuildEvent,
        t: CrossBuild,
        action: CrossBuildAction,
    ) -> bool {
        &&& t.wf()
        &&& t.same_run(&s)
        &&& match event {
            CrossBuildEvent::Start => t.built@ == s.built@ && t.dispatches(action),
            CrossBuildEvent::BuildExited(ok) => if ok {
                &&& t.built@ == s.built@.push(s.tests@[s.built.len() as int])
                &&& t.dispatches(action)
            } else {
                &&& t.phase == CrossBuildPhase::Done
                &&& action matches CrossBuildAction::Abort(e)
                &&& e matches BuildError::SubprocessFailure { stage, test }
                &&& stage == BuildStage::CrossBuild
                &&& test@ == s.tests@[s.built.len() as int]@
            },
            CrossBuildEvent::LibraryResolved(resolved) => match resolved {
                Some(p) => {
                    &&& t.library_path@ == p@
                    &&& t.checked == 0
                    &&& t.concludes(s.built@, action)
                },
                None => {
                    &&& t.phase == CrossBuildPhase::Done
                    &&& action matches CrossBuildAction::Abort(e)
                    &&& e matches BuildError::PathResolutionFailure { path }
                    &&& path@ == library_dir_of(
                        s.options.tests_project_path@,
                        s.options.target_arch@,
                    )
                },
            },
            CrossBuildEvent::ArchiveChecked(present) => if present {
                &&& t.library_path == s.library_path
                &&& t.checked == s.checked + 1
                &&& t.concludes(s.built@, action)
            } else {
                &&& t.phase == CrossBuildPhase::Done
                &&& action matches CrossBuildAction::Abort(e)
                &&& e matches BuildError::MissingExpectedArtifact { path }
                &&& path@ == archive_path_of(s.library_path@, s.built@[s.checked as int]@)
            },
        }
    }

    /// The stage for `tests`, in discovery order, built with the driver at `driver`.
    pub fn new(options: CrossbuildOptions, driver: String, tests: Vec<String>) -> (r: Self)
        ensures
            r.wf(),
            r.phase == CrossBuildPhase::Idle,
            r.options == options,
            r.driver == driver,
            r.tests == tests,
            r.built.len() == 0,
    {
        let r = CrossBuild {
            options,
            driver,
            tests,
            built: Vec::new(),
            library_path: String::new(),
            checked: 0,
            phase: CrossBuildPhase::Idle,
        };
        assert(views(r.built@) =~= views(r.tests@).take(0));
        r
    }

    /// The action after `built.len()` tests have been built.
    fn dispatch(&mut self) -> (r: CrossBuildAction)
        requires
            old(self).built_prefix(),
        ensures
            final(self).same_run(&*old(self)),
            final(self).built == old(self).built,
            final(self).wf(),
            final(self).dispatches(r),
    {
        let k = self.built.len();
        if k < self.tests.len() {
            self.phase = CrossBuildPhase::Building;
            CrossBuildAction::RunBuild(
                cross_build_command(&self.options, self.driver.as_str(), self.tests[k].as_str()),
            )
        } else {
            self.phase = CrossBuildPhase::ResolvingLibrary;
            CrossBuildAction::ResolveLibrary(library_dir(&self.options))
        }
    }

    /// The action once the archives of `built` are confirmed up to `checked`.
    fn conclude(&mut self) -> (r: CrossBuildAction)
        requires
            old(self).built_prefix(),
            old(self).built.len() == old(self).tests.len(),
            old(self).checked <= old(self).built.len(),
        ensures
            final(self).same_run(&*old(self)),
            final(self).library_path == old(self).library_path,
            final(self).checked == old(self).checked,
            final(self).wf(),
            final(self).concludes(old(self).built@, r),
    {
        if self.checked < self.built.len() {
            self.phase = CrossBuildPhase::CheckingArchives;
            CrossBuildAction::CheckArchive(
                archive_path(self.library_path.as_str(), self.built[self.checked].as_str()),
            )
        } else {
            self.phase = CrossBuildPhase::Done;
            let mut tests: Vec<String> = Vec::new();
            std::mem::swap(&mut tests, &mut self.built);
            assert(views(self.built@) =~= views(self.tests@).take(0));
            CrossBuildAction::Finish(
                CrossbuiltTests {
                    object_paths: Vec::new(),
                    tests,
                    library_path: self.library_path.clone(),
                },
            )
        }
    }

    /// Takes what came of the last action and names the next one.
    pub fn step(&mut self, event: CrossBuildEvent) -> (r: CrossBuildAction)
        requires
            old(self).wf(),
            cross_build_accepts(old(self).phase, event),
        ensures
            Self::step_to(*old(self), event, *final(self), r),
    {
        match event {
            CrossBuildEvent::Start => self.dispatch(),
            CrossBuildEvent::BuildExited(ok) => {
                let k = self.built.len();
                if ok {
                    let name = self.tests[k].clone();
                    self.built.push(name);
                    proof {
                        assert(self.built@ =~= old(self).built@.push(old(self).tests@[k as int]));
                        assert(views(self.built@) =~= views(old(self).built@).push(
                            old(self).tests@[k as int]@,
                        ));
                        assert(views(self.tests@).take(k + 1) =~= views(self.tests@).take(
                            k as int,
                        ).push(self.tests@[k as int]@));
                    }
                    self.dispatch()
                } else {
                    self.phase = CrossBuildPhase::Done;
                    CrossBuildAction::Abort(
                        BuildError::SubprocessFailure {
                            stage: BuildStage::CrossBuild,
                            test: self.tests[k].clone(),
                        },
                    )
                }
            },
            CrossBuildEvent::LibraryResolved(resolved) => match resolved {
                Some(p) => {
                    self.library_path = p;
                    self.checked = 0;
                    self.conclude()
                },
                None => {
                    self.phase = CrossBuildPhase::Done;
                    CrossBuildAction::Abort(
                        BuildError::PathResolutionFailure { path: library_dir(&self.options) },
                    )
                },
            },
            CrossBuildEvent::ArchiveChecked(present) => if present {
                self.checked = self.checked + 1;
                self.conclude()
            } else {
                self.phase = CrossBuildPhase::Done;
                CrossBuildAction::Abort(
                    BuildError::MissingExpectedArtifact {
                        path: archive_path(
                            self.library_path.as_str(),
                            self.built[self.checked].as_str(),
                        ),
                    },
                )
            },
        }
    }
}

/// A run of the stage: `states[i]` takes `events[i]`, which it waits for, and
/// steps to `states[i + 1]` with `actions[i]`.
pub open spec fn cross_build_run(
    states: Seq<CrossBuild>,
    events: Seq<CrossBuildEvent>,
    actions: Seq<CrossBuildAction>,
) -> bool {
    &&& states.len() == events.len() + 1
    &&& actions.len() == events.len()
    &&& states[0].wf()
    &&& forall|i: int|
        0 <= i < events.len() ==> cross_build_accepts(states[i].phase, #[trigger] events[i])
            && CrossBuild::step_to(states[i], events[i], states[i + 1], actions[i])
}

proof fn lemma_run_keeps_config(
    states: Seq<CrossBuild>,
    events: Seq<CrossBuildEvent>,
    actions: Seq<CrossBuildAction>,
    i: int,
)
    requires
        cross_build_run(states, events, actions),
        0 <= i < states.len(),
    ensures
        states[i].wf(),
        states[i].same_run(&states[0]),
    decreases i,
{
    if i > 0 {
        lemma_run_keeps_config(states, events, actions, i - 1);
        assert(cross_build_accepts(states[i - 1].phase, events[i - 1]));
    }
}

/// A run that finishes hands on every discovered test, in discovery order,
/// with the resolved output directory, and only after the archive of the last
/// test was confirmed present.
pub proof fn lemma_finish_keeps_discovery_order(
    states: Seq<CrossBuild>,
    events: Seq<CrossBuildEvent>,
    actions: Seq<CrossBuildAction>,
    i: int,
)
    requires
        cross_build_run(states, events, actions),
        0 <= i < actions.len(),
        actions[i] is Finish,
    ensures
        views(actions[i]->Finish_0.tests@) == views(states[0].tests@),
        actions[i]->Finish_0.library_path@ == states[i + 1].library_path@,
        events[i] matches CrossBuildEvent::ArchiveChecked(present) && present || (
        events[i] matches CrossBuildEvent::LibraryResolved(Some(p))
            && states[0].tests.len() == 0 && actions[i]->Finish_0.library_path@ == p@),
{
    lemma_run_keeps_config(states, events, actions, i);
    assert(cross_build_accepts(states[i].phase, events[i]));
    assert(views(states[i].tests@).take(states[i].tests.len() as int) =~= views(states[i].tests@));
}

/// A failed build ends the run: the stage aborts at once, takes no further
/// event, and at no point of the run hands on a result.
pub proof fn lemma_failed_build_aborts_run(
    states: Seq<CrossBuild>,
    events: Seq<CrossBuildEvent>,
    actions: Seq<CrossBuildAction>,
    i: int,
)
    requires
        cross_build_run(states, events, actions),
        0 <= i < events.len(),
        events[i] matches CrossBuildEvent::BuildExited(ok) && !ok,
    ensures
        actions[i] matches CrossBuildAction::Abort(BuildError::SubprocessFailure { .. }),
        i == events.len() - 1,
        forall|j: int| 0 <= j < actions.len() ==> !(#[trigger] actions[j] is Finish),
{
    assert(cross_build_accepts(states[i].phase, events[i]));
    if i + 1 < events.len() {
        assert(cross_build_accepts(states[i + 1].phase, events[i + 1]));
    }
    assert forall|j: int| 0 <= j < actions.len() implies !(#[trigger] actions[j] is Finish) by {
        assert(cross_build_accepts(states[j].phase, events[j]));
        if actions[j] is Finish && j < i {
            assert(cross_build_accepts(states[j + 1].phase, events[j + 1]));
        }
    }
}

} // verus!
