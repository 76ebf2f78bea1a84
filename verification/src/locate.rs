//! Where the tools are looked for.

use vstd::prelude::*;

use crate::text::{cases_by_number, join2, lower, lower_char, owned, same_ignoring_case};

verus! {

/// The directory that a candidate is relative to: the project's directory
/// while developing, or the directory of the running program.
#[derive(Clone, Copy, Debug, PartialEq, Eq)]
pub enum Root {
    Development,
    Installation,
}

/// A place to look for a tool: the directories below the root, then the file.
#[derive(Debug, PartialEq, Eq)]
pub struct Candidate {
    pub root: Root,
    pub parts: Vec<String>,
}

/// A candidate, as contracts speak of it.
pub struct CandidateView {
    pub root: Root,
    pub parts: Seq<Seq<char>>,
}

impl View for Candidate {
    type V = CandidateView;

    open spec fn view(&self) -> CandidateView {
        CandidateView {
            root: self.root,
            parts: self.parts@.map_values(|s: String| s@),
        }
    }
}

/// The file name of a program on this platform.
pub open spec fn executable(name: Seq<char>, windows: bool) -> Seq<char> {
    if windows {
        name + ".exe"@
    } else {
        name
    }
}

/// The file name of a program on this platform.
pub fn executable_name(name: &str, windows: bool) -> (r: String)
    ensures
        r@ == executable(name@, windows),
{
    if windows {
        join2(name, ".exe")
    } else {
        owned(name)
    }
}

/// PDAL comes with a directory tree of its own.
pub open spec fn has_own_tree(name: Seq<char>) -> bool {
    lower(name) == lower("pdal"@)
}

/// Where a program is looked for while developing.
pub open spec fn development_places(name: Seq<char>, exe: Seq<char>) -> Seq<CandidateView> {
    let root = Root::Development;
    if has_own_tree(name) {
        seq![CandidateView { root, parts: seq!["binaries"@, "pdal"@, "bin"@, exe] }]
    } else {
        seq![CandidateView { root, parts: seq!["binaries"@, exe] }]
    }
}

/// Where a program is looked for when installed, in order.
pub open spec fn installation_places(name: Seq<char>, exe: Seq<char>) -> Seq<CandidateView> {
    let root = Root::Installation;
    if has_own_tree(name) {
        seq![
            CandidateView { root, parts: seq!["binaries"@, "pdal"@, "bin"@, exe] },
            CandidateView { root, parts: seq!["resources"@, "binaries"@, "pdal"@, "bin"@, exe] },
            CandidateView { root, parts: seq![exe] },
        ]
    } else {
        seq![
            CandidateView { root, parts: seq![exe] },
            CandidateView { root, parts: seq!["binaries"@, exe] },
            CandidateView { root, parts: seq!["resources"@, "binaries"@, exe] },
        ]
    }
}

/// All places where a program is looked for, in order: first those of the
/// development root, then those of the installation, as far as they are known.
pub open spec fn search_order(
    name: Seq<char>,
    windows: bool,
    development: bool,
    installation: bool,
) -> Seq<CandidateView> {
    let exe = executable(name, windows);
    (if development {
        development_places(name, exe)
    } else {
        Seq::empty()
    }) + (if installation {
        installation_places(name, exe)
    } else {
        Seq::empty()
    })
}

/// Candidates with their texts as sequences.
pub open spec fn places(v: Seq<Candidate>) -> Seq<CandidateView> {
    v.map_values(|c: Candidate| c@)
}

fn candidate(root: Root, dirs: &Vec<&'static str>, exe: &str) -> (c: Candidate)
    ensures
        c@.root == root,
        c@.parts == dirs@.map_values(|d: &'static str| d@).push(exe@),
{
    let mut parts: Vec<String> = Vec::new();
    let mut i: usize = 0;
    while i < dirs.len()
        invariant
            i <= dirs.len(),
            parts@.len() == i,
            forall|j: int| 0 <= j < i ==> (#[trigger] parts@[j])@ == dirs@[j]@,
        decreases dirs.len() - i,
    {
        parts.push(owned(dirs[i]));
        i += 1;
    }
    parts.push(owned(exe));
    let c = Candidate { root, parts };
    assert(c@.parts =~= dirs@.map_values(|d: &'static str| d@).push(exe@));
    c
}

/// The places where a program is looked for, in order. `development` and
/// `installation` say whether the directories that they are relative to are
/// known.
pub fn search_places(name: &str, windows: bool, development: bool, installation: bool) -> (r: Vec<
    Candidate,
>)
    ensures
        places(r@) == search_order(name@, windows, development, installation),
{
    let exe = executable_name(name, windows);
    let own_tree = same_ignoring_case(name, "pdal");
    let mut r: Vec<Candidate> = Vec::new();
    if development {
        let c = if own_tree {
            candidate(Root::Development, &vec!["binaries", "pdal", "bin"], exe.as_str())
        } else {
            candidate(Root::Development, &vec!["binaries"], exe.as_str())
        };
        assert(c@.parts =~= development_places(name@, exe@)[0].parts);
        r.push(c);
    }
    assert(places(r@) =~= search_order(name@, windows, development, false));
    if installation {
        let (first, second, third) = if own_tree {
            (
                candidate(Root::Installation, &vec!["binaries", "pdal", "bin"], exe.as_str()),
                candidate(
                    Root::Installation,
                    &vec!["resources", "binaries", "pdal", "bin"],
                    exe.as_str(),
                ),
                candidate(Root::Installation, &Vec::new(), exe.as_str()),
            )
        } else {
            (
                candidate(Root::Installation, &Vec::new(), exe.as_str()),
                candidate(Root::Installation, &vec!["binaries"], exe.as_str()),
                candidate(Root::Installation, &vec!["resources", "binaries"], exe.as_str()),
            )
        };
        proof {
            let all = installation_places(name@, exe@);
            assert(first@.parts =~= all[0].parts);
            assert(second@.parts =~= all[1].parts);
            assert(third@.parts =~= all[2].parts);
        }
        r.push(first);
        r.push(second);
        r.push(third);
    }
    assert(places(r@) =~= search_order(name@, windows, development, installation));
    r
}

/// What to do next in a search.
#[derive(Clone, Copy, Debug, PartialEq, Eq)]
pub enum SearchAction {
    /// See whether the place at this index exists.
    Probe(usize),
    /// The place at this index is the one.
    Found(usize),
    /// There is none.
    NotFound,
}

/// The next action once `probed` places were looked at, of which all but
/// perhaps the last do not exist.
pub open spec fn search_next(total: usize, probed: usize, last_exists: bool) -> SearchAction {
    if probed > 0 && last_exists {
        SearchAction::Found((probed - 1) as usize)
    } else if probed < total {
        SearchAction::Probe(probed)
    } else {
        SearchAction::NotFound
    }
}

/// Says what to do next once `probed` of `total` places were looked at, the
/// last with the given answer and those before it in vain.
pub fn search_step(total: usize, probed: usize, last_exists: bool) -> (r: SearchAction)
    ensures
        r == search_next(total, probed, last_exists),
{
    if probed > 0 && last_exists {
        SearchAction::Found(probed - 1)
    } else if probed < total {
        SearchAction::Probe(probed)
    } else {
        SearchAction::NotFound
    }
}

// ---------------------------------------------------------------------------
// Laws
// ---------------------------------------------------------------------------

/// What a search comes to once `probed` places were looked at, where `present`
/// says which places exist.
pub open spec fn search_result(present: Seq<bool>, probed: nat) -> Option<int>
    recommends
        present.len() <= usize::MAX,
    decreases present.len() + 1 - probed,
{
    match search_next(
        present.len() as usize,
        probed as usize,
        probed > 0 && present[probed - 1],
    ) {
        SearchAction::Found(i) => Some(i as int),
        SearchAction::NotFound => None,
        SearchAction::Probe(_) => if probed < present.len() {
            search_result(present, probed + 1)
        } else {
            None
        },
    }
}

/// A search finds the first place that exists, and none exactly when none
/// exists.
pub proof fn a_search_finds_the_first_place(present: Seq<bool>)
    requires
        present.len() <= usize::MAX,
    ensures
        match search_result(present, 0) {
            Some(i) => 0 <= i < present.len() && present[i] && (forall|j: int|
                0 <= j < i ==> !#[trigger] present[j]),
            None => forall|j: int| 0 <= j < present.len() ==> !#[trigger] present[j],
        },
{
    search_from(present, 0);
}

proof fn search_from(present: Seq<bool>, probed: nat)
    requires
        present.len() <= usize::MAX,
        probed <= present.len(),
        forall|j: int| 0 <= j < probed - 1 ==> !#[trigger] present[j],
    ensures
        match search_result(present, probed) {
            Some(i) => 0 <= i < present.len() && present[i] && (forall|j: int|
                0 <= j < i ==> !#[trigger] present[j]),
            None => forall|j: int| 0 <= j < present.len() ==> !#[trigger] present[j],
        },
    decreases present.len() - probed,
{
    if !(probed > 0 && present[probed - 1]) && probed < present.len() {
        search_from(present, probed + 1);
    }
}

/// A place of the development root is preferred to every place of the
/// installation: it comes before them.
pub proof fn development_comes_first(name: Seq<char>, windows: bool)
    ensures
        search_order(name, windows, true, true).len() == 4,
        search_order(name, windows, true, true)[0].root is Development,
        forall|i: int| 1 <= i < 4 ==> (#[trigger] search_order(name, windows, true, true)[i]).root
            is Installation,
        search_order(name, windows, false, false).len() == 0,
{
}

/// Every place ends with the program's file name.
pub proof fn every_place_ends_with_the_program(
    name: Seq<char>,
    windows: bool,
    development: bool,
    installation: bool,
    i: int,
)
    requires
        0 <= i < search_order(name, windows, development, installation).len(),
    ensures
        search_order(name, windows, development, installation)[i].parts.len() > 0,
        search_order(name, windows, development, installation)[i].parts.last() == executable(
            name,
            windows,
        ),
{
}

/// What a program is called: by its name, with `.exe` behind it on Windows.
pub proof fn what_a_program_is_called(name: Seq<char>)
    ensures
        executable(name, false) == name,
        executable(name, true) == name + ".exe"@,
        executable(name, true).len() == name.len() + 4,
        executable(name, true).take(name.len() as int) == name,
{
    reveal_strlit(".exe");
    assert((name + ".exe"@).take(name.len() as int) =~= name);
}

/// Only PDAL, whatever the case of its name, has a directory tree of its own.
pub proof fn only_pdal_has_a_tree(name: Seq<char>)
    ensures
        has_own_tree(name) <==> name.len() == 4 && (name[0] == 'p' || name[0] == 'P') && (name[1]
            == 'd' || name[1] == 'D') && (name[2] == 'a' || name[2] == 'A') && (name[3] == 'l'
            || name[3] == 'L'),
{
    reveal_strlit("pdal");
    let low = lower(name);
    let pdal = lower("pdal"@);
    assert(pdal =~= seq!['p', 'd', 'a', 'l']);
    if name.len() == 4 {
        cases_by_number(name[0]);
        cases_by_number(name[1]);
        cases_by_number(name[2]);
        cases_by_number(name[3]);
        assert(low[0] == lower_char(name[0]) && low[1] == lower_char(name[1]) && low[2]
            == lower_char(name[2]) && low[3] == lower_char(name[3]));
        if low[0] == 'p' && low[1] == 'd' && low[2] == 'a' && low[3] == 'l' {
            assert(low =~= pdal);
        }
    } else {
        assert(low.len() == name.len());
    }
}

/// Where PDAL is looked for: in its tree below the development root, in the
/// same tree beside the running program and in its resources, and last beside
/// the running program itself.
pub proof fn where_pdal_is_looked_for(
    name: Seq<char>,
    windows: bool,
    development: bool,
    installation: bool,
)
    requires
        has_own_tree(name),
    ensures
        ({
            let all = search_order(name, windows, development, installation);
            let exe = executable(name, windows);
            let n = if development {
                1int
            } else {
                0
            };
            &&& all.len() == n + if installation {
                3int
            } else {
                0
            }
            &&& development ==> all[0].root is Development && all[0].parts == seq![
                "binaries"@,
                "pdal"@,
                "bin"@,
                exe,
            ]
            &&& installation ==> {
                &&& all[n].root is Installation && all[n + 1].root is Installation && all[n
                    + 2].root is Installation
                &&& all[n].parts == seq!["binaries"@, "pdal"@, "bin"@, exe]
                &&& all[n + 1].parts == seq!["resources"@, "binaries"@, "pdal"@, "bin"@, exe]
                &&& all[n + 2].parts == seq![exe]
            }
        }),
{
}

/// Where any other program is looked for: among the binaries of the development
/// root, beside the running program, among its binaries, and among those of its
/// resources.
pub proof fn where_other_programs_are_looked_for(
    name: Seq<char>,
    windows: bool,
    development: bool,
    installation: bool,
)
    requires
        !has_own_tree(name),
    ensures
        ({
            let all = search_order(name, windows, development, installation);
            let exe = executable(name, windows);
            let n = if development {
                1int
            } else {
                0
            };
            &&& all.len() == n + if installation {
                3int
            } else {
                0
            }
            &&& development ==> all[0].root is Development && all[0].parts == seq![
                "binaries"@,
                exe,
            ]
            &&& installation ==> {
                &&& all[n].root is Installation && all[n + 1].root is Installation && all[n
                    + 2].root is Installation
                &&& all[n].parts == seq![exe]
                &&& all[n + 1].parts == seq!["binaries"@, exe]
                &&& all[n + 2].parts == seq!["resources"@, "binaries"@, exe]
            }
        }),
{
}

/// A search goes from place to place: the place that was looked at last is the
/// one where it exists, else the next one is looked at, and there is none once
/// all were looked at in vain.
pub proof fn a_search_goes_from_place_to_place(total: usize, probed: usize, last_exists: bool)
    ensures
        probed > 0 && last_exists <==> search_next(total, probed, last_exists) is Found,
        search_next(total, probed, last_exists) matches SearchAction::Found(i) ==> i + 1 == probed,
        search_next(total, probed, last_exists) matches SearchAction::Probe(i) ==> i == probed && i
            < total,
        search_next(total, probed, last_exists) is NotFound ==> probed >= total,
{
}

/// A place shows all of its parts in order.
pub proof fn places_are_shown_whole(v: Seq<Candidate>, i: int, j: int)
    requires
        0 <= i < v.len(),
        0 <= j < v[i].parts@.len(),
    ensures
        places(v).len() == v.len(),
        places(v)[i].root == v[i].root,
        places(v)[i].parts.len() == v[i].parts@.len(),
        places(v)[i].parts[j] == v[i].parts@[j]@,
{
}

} // verus!
