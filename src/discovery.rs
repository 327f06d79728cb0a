//! Picks the test sources out of a directory listing and names the tests.

use vstd::prelude::*;
use crate::naming::{is_test_source, is_test_source_name, strip_source_suffix, test_name_of};
use crate::order::{lemma_sorted_unique, sort_names, strictly_sorted};
use crate::text::views;

verus! {

broadcast use {vstd::seq_lib::group_seq_properties, Seq::lemma_filter_push};

/// One test source found on disk: its file name and its absolute path.
#[derive(Clone, Debug)]
pub struct FoundFile {
    pub name: String,
    pub absolute_path: String,
}

/// The test sources among the entries of a listing, in listing order.
pub open spec fn test_sources(entries: Seq<Seq<char>>) -> Seq<Seq<char>> {
    entries.filter(|n: Seq<char>| is_test_source(n))
}

/// The test names that a listing yields, in listing order.
pub open spec fn discovered(entries: Seq<Seq<char>>) -> Seq<Seq<char>> {
    test_sources(entries).map_values(|n: Seq<char>| strip_source_suffix(n))
}

/// `names` is what discovery reports for a listing: its test names, each
/// once, in strictly increasing lexicographic order.
pub open spec fn is_discovery_of(names: Seq<Seq<char>>, entries: Seq<Seq<char>>) -> bool {
    &&& strictly_sorted(names)
    &&& names.to_set() == discovered(entries).to_set()
}

/// The path of the entry `name` of the directory `dir`.
pub open spec fn entry_path(dir: Seq<char>, name: Seq<char>) -> Seq<char> {
    dir + "/"@ + name
}

/// The file names of found files.
pub open spec fn found_names(files: Seq<FoundFile>) -> Seq<Seq<char>> {
    files.map_values(|f: FoundFile| f.name@)
}

/// The test sources among `entry_names`, the names of the regular files of the
/// directory whose absolute path is `dir_absolute`, each with its path.
pub fn find_files(dir_absolute: &str, entry_names: &Vec<String>) -> (r: Vec<FoundFile>)
    ensures
        found_names(r@) == test_sources(views(entry_names@)),
        forall|i: int|
            0 <= i < r.len() ==> (#[trigger] r@[i]).absolute_path@ == entry_path(
                dir_absolute@,
                r@[i].name@,
            ),
{
    let ghost entries = views(entry_names@);
    let mut r: Vec<FoundFile> = Vec::new();
    let mut i: usize = 0;
    while i < entry_names.len()
        invariant
            entries == views(entry_names@),
            i <= entry_names.len(),
            found_names(r@) == test_sources(entries.take(i as int)),
            forall|k: int|
                0 <= k < r.len() ==> (#[trigger] r@[k]).absolute_path@ == entry_path(
                    dir_absolute@,
                    r@[k].name@,
                ),
        decreases entry_names.len() - i,
    {
        let name = &entry_names[i];
        proof {
            assert(entries.take(i + 1) =~= entries.take(i as int).push(entries[i as int]));
        }
        let ghost before = r@;
        if is_test_source_name(name.as_str()) {
            let mut path = String::from_str(dir_absolute);
            path.append("/");
            path.append(name.as_str());
            r.push(FoundFile { name: name.clone(), absolute_path: path });
            proof {
                assert(found_names(r@) =~= found_names(before).push(name@));
            }
        }
        i += 1;
    }
    proof {
        assert(entries.take(i as int) =~= entries);
    }
    r
}

/// The names of the tests whose sources are `files`, in the same order.
pub fn test_names(files: &Vec<FoundFile>) -> (r: Vec<String>)
    ensures
        views(r@) == found_names(files@).map_values(|n: Seq<char>| strip_source_suffix(n)),
{
    let mut r: Vec<String> = Vec::new();
    let mut i: usize = 0;
    while i < files.len()
        invariant
            i <= files.len(),
            views(r@) == found_names(files@).take(i as int).map_values(
                |n: Seq<char>| strip_source_suffix(n),
            ),
        decreases files.len() - i,
    {
        let ghost before = r@;
        let name = test_name_of(files[i].name.as_str());
        r.push(name);
        proof {
            assert(views(r@) =~= views(before).push(name@));
            assert(found_names(files@).take(i + 1) =~= found_names(files@).take(i as int).push(
                files@[i as int].name@,
            ));
        }
        i += 1;
    }
    proof {
        assert(found_names(files@).take(i as int) =~= found_names(files@));
    }
    r
}

/// The names of the tests among `entry_names`, the names of the regular files of
/// the directory whose absolute path is `dir_absolute`, sorted so that the
/// result does not depend on the order in which the directory was listed.
pub fn discover_tests(dir_absolute: &str, entry_names: &Vec<String>) -> (r: Vec<String>)
    ensures
        is_discovery_of(views(r@), views(entry_names@)),
{
    let files = find_files(dir_absolute, entry_names);
    sort_names(test_names(&files))
}

/// Discovery yields one name for each test source of the listing, in listing
/// order, each the source's file name with only its suffix taken off; a file
/// that is no test source, wherever it stands in the listing, changes nothing.
pub proof fn lemma_discovery_follows_sources(entries: Seq<Seq<char>>, j: int, other: Seq<char>)
    requires
        0 <= j <= entries.len(),
        !is_test_source(other),
    ensures
        discovered(entries).len() == test_sources(entries).len(),
        forall|i: int|
            0 <= i < discovered(entries).len() ==> #[trigger] discovered(entries)[i]
                == strip_source_suffix(test_sources(entries)[i]),
        forall|i: int|
            0 <= i < test_sources(entries).len() ==> is_test_source(
                #[trigger] test_sources(entries)[i],
            ),
        test_sources(entries.insert(j, other)) == test_sources(entries),
        discovered(entries.insert(j, other)) == discovered(entries),
{
    let pred = |n: Seq<char>| is_test_source(n);
    let left = entries.take(j);
    let right = entries.skip(j);
    assert(entries =~= left + right);
    assert(entries.insert(j, other) =~= left + seq![other] + right);
    Seq::filter_distributes_over_add(left, right, pred);
    Seq::filter_distributes_over_add(left + seq![other], right, pred);
    Seq::filter_distributes_over_add(left, seq![other], pred);
    assert(seq![other] =~= Seq::<Seq<char>>::empty().push(other));
    Seq::<Seq<char>>::empty().lemma_filter_push(other, pred);
    assert(Seq::<Seq<char>>::empty().filter(pred) =~= Seq::<Seq<char>>::empty()) by {
        reveal(Seq::filter);
    }
    assert(seq![other].filter(pred) =~= Seq::<Seq<char>>::empty());
    assert(left.filter(pred) + seq![other].filter(pred) =~= left.filter(pred));
}

/// The listing `entries` with each of `inserts`, a position and a name, put
/// in turn at its position (one that lies outside the listing is skipped).
pub open spec fn insert_all(
    entries: Seq<Seq<char>>,
    inserts: Seq<(int, Seq<char>)>,
) -> Seq<Seq<char>>
    decreases inserts.len(),
{
    if inserts.len() == 0 {
        entries
    } else {
        let before = insert_all(entries, inserts.drop_last());
        let (j, name) = inserts.last();
        if 0 <= j <= before.len() {
            before.insert(j, name)
        } else {
            before
        }
    }
}

/// Any number of files that are no test sources, put anywhere in a listing,
/// change neither the test sources found (so neither the files that
/// `find_files` reports, names and paths) nor the names discovered.
pub proof fn lemma_other_files_change_nothing(
    entries: Seq<Seq<char>>,
    inserts: Seq<(int, Seq<char>)>,
)
    requires
        forall|i: int| 0 <= i < inserts.len() ==> !is_test_source(#[trigger] inserts[i].1),
    ensures
        test_sources(insert_all(entries, inserts)) == test_sources(entries),
        discovered(insert_all(entries, inserts)) == discovered(entries),
    decreases inserts.len(),
{
    if inserts.len() > 0 {
        let rest = inserts.drop_last();
        assert forall|i: int| 0 <= i < rest.len() implies !is_test_source(#[trigger] rest[i].1) by {
            assert(rest[i] == inserts[i]);
        }
        lemma_other_files_change_nothing(entries, rest);
        let before = insert_all(entries, rest);
        let (j, name) = inserts.last();
        assert(!is_test_source(inserts[inserts.len() - 1].1));
        if 0 <= j <= before.len() {
            lemma_discovery_follows_sources(before, j, name);
        }
    }
}

/// The names that a listing yields are the stripped names of its test sources.
proof fn lemma_discovered_members(entries: Seq<Seq<char>>, x: Seq<char>)
    ensures
        discovered(entries).to_set().contains(x) <==> exists|y: Seq<char>|
            #![trigger entries.contains(y)]
            entries.contains(y) && is_test_source(y) && strip_source_suffix(y) == x,
{
    broadcast use {
        Seq::lemma_filter_pred,
        Seq::lemma_filter_contains,
        Seq::lemma_filter_contains_rev,
    };

    let pred = |n: Seq<char>| is_test_source(n);
    let sources = entries.filter(pred);
    if discovered(entries).to_set().contains(x) {
        assert(discovered(entries).contains(x));
        let k = choose|k: int| 0 <= k < discovered(entries).len() && discovered(entries)[k] == x;
        assert(pred(sources[k]));
        assert(sources.contains(sources[k]));
        assert(entries.contains(sources[k]));
    }
    if exists|y: Seq<char>|
        #![trigger entries.contains(y)]
        entries.contains(y) && is_test_source(y) && strip_source_suffix(y) == x {
        let y = choose|y: Seq<char>|
            #![trigger entries.contains(y)]
            entries.contains(y) && is_test_source(y) && strip_source_suffix(y) == x;
        let i = choose|i: int| 0 <= i < entries.len() && entries[i] == y;
        assert(sources.contains(entries[i]));
        let k = choose|k: int| 0 <= k < sources.len() && sources[k] == y;
        assert(discovered(entries)[k] == x);
        assert(discovered(entries).contains(x));
    }
}

/// Discovery depends only on which test sources a listing holds: two listings
/// with the same test sources, in any order and with any number of other
/// files among them, give the same names in the same order.
pub proof fn lemma_discovery_depends_on_sources_only(
    e1: Seq<Seq<char>>,
    e2: Seq<Seq<char>>,
    r1: Seq<Seq<char>>,
    r2: Seq<Seq<char>>,
)
    requires
        forall|y: Seq<char>| is_test_source(y) ==> (e1.contains(y) <==> e2.contains(y)),
        is_discovery_of(r1, e1),
        is_discovery_of(r2, e2),
    ensures
        r1 == r2,
{
    assert forall|x: Seq<char>|
        discovered(e1).to_set().contains(x) == discovered(e2).to_set().contains(x) by {
        lemma_discovered_members(e1, x);
        lemma_discovered_members(e2, x);
    }
    assert(discovered(e1).to_set() =~= discovered(e2).to_set());
    lemma_sorted_unique(r1, r2);
}

} // verus!
