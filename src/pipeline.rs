//! Properties of the two stages taken together.

use vstd::prelude::*;
use crate::crossbuild::{
    cross_build_run, lemma_finish_keeps_discovery_order, CrossBuild, CrossBuildAction,
    CrossBuildEvent,
};
use crate::discovery::{is_discovery_of, lemma_discovery_depends_on_sources_only};
use crate::link::{
    image_names, image_paths, lemma_link_runs_agree, link_run, Link, LinkAction, LinkEvent,
};
use crate::naming::is_test_source;
use crate::text::views;

verus! {

/// Running the whole pipeline twice over the same test sources, however the
/// directory is listed, gives the same images, names and paths in the same
/// order, provided the link steps answer the same way both times.
pub proof fn lemma_pipeline_repeats(
    e1: Seq<Seq<char>>,
    e2: Seq<Seq<char>>,
    x1: Seq<CrossBuild>,
    xe1: Seq<CrossBuildEvent>,
    xa1: Seq<CrossBuildAction>,
    i1: int,
    x2: Seq<CrossBuild>,
    xe2: Seq<CrossBuildEvent>,
    xa2: Seq<CrossBuildAction>,
    i2: int,
    l1: Seq<Link>,
    la1: Seq<LinkAction>,
    l2: Seq<Link>,
    la2: Seq<LinkAction>,
    events: Seq<LinkEvent>,
    k: int,
)
    requires
        forall|y: Seq<char>| is_test_source(y) ==> (e1.contains(y) <==> e2.contains(y)),
        is_discovery_of(views(x1[0].tests@), e1),
        is_discovery_of(views(x2[0].tests@), e2),
        cross_build_run(x1, xe1, xa1),
        cross_build_run(x2, xe2, xa2),
        0 <= i1 < xa1.len(),
        0 <= i2 < xa2.len(),
        xa1[i1] is Finish,
        xa2[i2] is Finish,
        link_run(l1, events, la1),
        link_run(l2, events, la2),
        l1[0].manifest == xa1[i1]->Finish_0,
        l2[0].manifest == xa2[i2]->Finish_0,
        l1[0].binaries.len() == 0,
        l2[0].binaries.len() == 0,
        0 <= k < events.len(),
        la1[k] is Finish,
    ensures
        la2[k] is Finish,
        image_names(la1[k]->Finish_0.binaries@) == image_names(la2[k]->Finish_0.binaries@),
        image_paths(la1[k]->Finish_0.binaries@) == image_paths(la2[k]->Finish_0.binaries@),
{
    lemma_discovery_depends_on_sources_only(e1, e2, views(x1[0].tests@), views(x2[0].tests@));
    lemma_finish_keeps_discovery_order(x1, xe1, xa1, i1);
    lemma_finish_keeps_discovery_order(x2, xe2, xa2, i2);
    lemma_link_runs_agree(l1, l2, events, la1, la2, k);
}

} // verus!
