//! Finding the toolchain driver among a short list of candidates.

use vstd::prelude::*;
use crate::error::BuildError;
use crate::text::{contains, occurs_in};

verus! {

/// What the search for the driver asks for next.
#[derive(Clone, Debug)]
pub enum LocateStep {
    /// Run this candidate with the version flag and report its output.
    Probe(String),
    /// This candidate is the driver.
    Found(String),
}

/// The candidates, in the order they are tried: the bare name, found through
/// the executable search path, then the conventional install path under `home`.
pub open spec fn candidates_for(home: Option<Seq<char>>) -> Seq<Seq<char>> {
    match home {
        Some(h) => seq!["cargo"@, h + "/.cargo/bin/cargo"@],
        None => seq!["cargo"@],
    }
}

/// A probe's output identifies the driver: the probe ran and its standard
/// output mentions `cargo`.
pub open spec fn identifies_driver(output: Option<String>) -> bool {
    match output {
        Some(s) => occurs_in(s@, "cargo"@),
        None => false,
    }
}

/// The first of `outputs` that identifies the driver, if one does.
pub open spec fn is_first_accepted(outputs: Seq<Option<String>>, i: int) -> bool {
    &&& 0 <= i < outputs.len()
    &&& identifies_driver(outputs[i])
    &&& forall|j: int| 0 <= j < i ==> !identifies_driver(#[trigger] outputs[j])
}

/// The candidate paths for the driver, given the user's home directory.
pub fn cargo_candidates(home: Option<String>) -> (r: Vec<String>)
    ensures
        crate::text::views(r@) == candidates_for(
            match home {
                Some(h) => Some(h@),
                None => None,
            },
        ),
{
    let mut r: Vec<String> = Vec::new();
    r.push(String::from_str("cargo"));
    match home {
        Some(h) => {
            let mut p = h;
            p.append("/.cargo/bin/cargo");
            r.push(p);
        },
        None => {},
    }
    proof {
        assert(crate::text::views(r@) =~= candidates_for(
            match home {
                Some(h) => Some(h@),
                None => None,
            },
        ));
    }
    r
}

/// Whether the standard output of a version query identifies the driver.
pub fn is_cargo(version_output: &str) -> (r: bool)
    ensures
        r == occurs_in(version_output@, "cargo"@),
{
    contains(version_output, "cargo")
}

/// The number of probes that count: one per candidate at most.
pub open spec fn probes_counted(candidates: Seq<String>, outputs: Seq<Option<String>>) -> int {
    if outputs.len() <= candidates.len() {
        outputs.len() as int
    } else {
        candidates.len() as int
    }
}

/// None of the first `n` outputs identifies the driver.
pub open spec fn no_driver_among(outputs: Seq<Option<String>>, n: int) -> bool {
    forall|i: int| 0 <= i < n ==> !identifies_driver(#[trigger] outputs[i])
}

/// The next step of the search, given the outputs of the probes made so far:
/// `outputs[i]` is what running `candidates[i]` printed, or `None` where it
/// could not be run; outputs past the last candidate are ignored. The first
/// candidate whose output identifies the driver is taken; while none has, the
/// next candidate is probed; when all have failed, the search fails.
pub fn find_cargo_path(candidates: &Vec<String>, outputs: &Vec<Option<String>>) -> (r: Result<
    LocateStep,
    BuildError,
>)
    ensures
        r matches Ok(LocateStep::Found(c)) <==> exists|i: int|
            i < probes_counted(candidates@, outputs@) && is_first_accepted(outputs@, i),
        forall|i: int|
            i < probes_counted(candidates@, outputs@) && is_first_accepted(outputs@, i) ==> (
            r matches Ok(LocateStep::Found(c)) && c@ == candidates@[i]@),
        r matches Ok(LocateStep::Probe(c)) <==> no_driver_among(
            outputs@,
            probes_counted(candidates@, outputs@),
        ) && outputs.len() < candidates.len(),
        r matches Ok(LocateStep::Probe(c)) ==> c@ == candidates@[outputs.len() as int]@,
        r matches Err(e) <==> no_driver_among(outputs@, probes_counted(candidates@, outputs@))
            && outputs.len() >= candidates.len(),
        r matches Err(e) ==> e matches BuildError::ToolchainNotFound,
{
    let n = if outputs.len() <= candidates.len() {
        outputs.len()
    } else {
        candidates.len()
    };
    let mut i: usize = 0;
    while i < n
        invariant
            n == probes_counted(candidates@, outputs@),
            i <= n,
            forall|j: int| 0 <= j < i ==> !identifies_driver(#[trigger] outputs@[j]),
        decreases n - i,
    {
        let accepted = match &outputs[i] {
            Some(s) => is_cargo(s.as_str()),
            None => false,
        };
        if accepted {
            assert(is_first_accepted(outputs@, i as int));
            return Ok(LocateStep::Found(candidates[i].clone()));
        }
        i += 1;
    }
    if outputs.len() < candidates.len() {
        Ok(LocateStep::Probe(candidates[outputs.len()].clone()))
    } else {
        Err(BuildError::ToolchainNotFound)
    }
}

} // verus!
