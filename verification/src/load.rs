//! The locator: which directories may hold the driver library, and which
//! file to load.
//!
//! The locator works in three steps, and between them the caller looks at
//! the file system. `candidate_roots` lists the installation roots to look
//! at. For each root the caller reports in a `RootProbe` whether
//! `lib64_dir` is a directory and `target_header` is a file, and
//! `find_cuda_lib_dirs` lists the library directories of the roots that
//! passed. For each of those the caller reports in a `DirProbe` whether
//! `library_file` exists, and `resolve_library_file` names the file to load.

use vstd::prelude::*;
use vstd::string::*;
use crate::platform::Platform;
use crate::text::{join_path, joined_path, split, split_text};

pub mod windows;

verus! {

/// The environment variable that lists installation roots to try first.
pub const LIBRARY_PATH_VARIABLE: &'static str = "CUDA_LIBRARY_PATH";

/// The pattern of the versioned installation roots beside the default one.
pub const VERSIONED_ROOT_PATTERN: &'static str = "/usr/local/cuda-*";

/// The file name of the driver library.
pub const LIBRARY_FILE: &'static str = "libcuda.so";

/// The installation roots that the value of `LIBRARY_PATH_VARIABLE` names:
/// the entries of the list, in order, or none where the variable is unset.
pub fn read_env(value: Option<&str>, platform: Platform) -> (dirs: Vec<String>)
    ensures
        value matches Some(list) ==> dirs.deep_view() == split(list@, platform.list_separator()),
        value is None ==> dirs.deep_view() == Seq::<Seq<char>>::empty(),
{
    match value {
        Some(list) => split_text(list, platform.list_separator()),
        None => {
            let dirs: Vec<String> = Vec::new();
            assert(dirs.deep_view() =~= Seq::<Seq<char>>::empty());
            dirs
        },
    }
}

/// The installation roots in the order in which they are tried: the
/// overrides, the two default roots, their versioned siblings, and the
/// distribution's own directory last.
pub open spec fn all_roots(overrides: Seq<Seq<char>>, versioned: Seq<Seq<char>>) -> Seq<Seq<char>> {
    overrides + seq!["/opt/cuda"@, "/usr/local/cuda"@] + versioned + seq!["/usr/lib/cuda"@]
}

/// Lists the installation roots to look at, first to last. `overrides` are
/// the roots from the environment, `versioned` the paths that matched
/// `VERSIONED_ROOT_PATTERN`.
pub fn candidate_roots(overrides: Vec<String>, versioned: Vec<String>) -> (roots: Vec<String>)
    ensures
        roots.deep_view() == all_roots(overrides.deep_view(), versioned.deep_view()),
{
    let mut roots = overrides;
    let mut versioned = versioned;
    let ghost first = roots.deep_view();
    let ghost middle = versioned.deep_view();
    roots.push(String::from_str("/opt/cuda"));
    roots.push(String::from_str("/usr/local/cuda"));
    assert(roots.deep_view() =~= first + seq!["/opt/cuda"@, "/usr/local/cuda"@]);
    roots.append(&mut versioned);
    assert(roots.deep_view() =~= first + seq!["/opt/cuda"@, "/usr/local/cuda"@] + middle);
    roots.push(String::from_str("/usr/lib/cuda"));
    assert(roots.deep_view() =~= all_roots(first, middle));
    roots
}

/// The directory `lib64` of an installation root.
pub open spec fn lib64_path(root: Seq<char>) -> Seq<char> {
    joined_path(root, "lib64"@, Platform::Posix)
}

/// The directory of an installation root that holds what belongs to the
/// target `x86_64-linux`.
pub open spec fn target_path(root: Seq<char>) -> Seq<char> {
    joined_path(root, "targets/x86_64-linux"@, Platform::Posix)
}

/// The header whose presence marks the target directory of a root as a
/// valid installation.
pub open spec fn target_header_path(root: Seq<char>) -> Seq<char> {
    joined_path(target_path(root), "include/cuda.h"@, Platform::Posix)
}

/// The path of the driver library in a library directory.
pub open spec fn library_path(dir: Seq<char>) -> Seq<char> {
    joined_path(dir, LIBRARY_FILE@, Platform::Posix)
}

/// The directory `lib64` of an installation root: the caller reports in
/// `RootProbe::has_lib64` whether it is a directory.
pub fn lib64_dir(root: &str) -> (path: String)
    ensures
        path@ == lib64_path(root@),
{
    join_path(root, "lib64", Platform::Posix)
}

/// The header of the target directory of an installation root: the caller
/// reports in `RootProbe::has_target_header` whether it is a file.
pub fn target_header(root: &str) -> (path: String)
    ensures
        path@ == target_header_path(root@),
{
    let target = join_path(root, "targets/x86_64-linux", Platform::Posix);
    join_path(target.as_str(), "include/cuda.h", Platform::Posix)
}

/// The path of the driver library in a library directory: the caller
/// reports in `DirProbe::has_library` whether it exists.
pub fn library_file(dir: &str) -> (path: String)
    ensures
        path@ == library_path(dir@),
{
    join_path(dir, LIBRARY_FILE, Platform::Posix)
}

/// An installation root and what the caller found under it.
#[derive(Debug)]
pub struct RootProbe {
    /// The installation root.
    pub root: String,
    /// Whether `lib64_dir` of the root is a directory.
    pub has_lib64: bool,
    /// Whether `target_header` of the root is a file.
    pub has_target_header: bool,
}

/// A `RootProbe` with its root as a sequence of characters.
pub struct RootProbeView {
    pub root: Seq<char>,
    pub has_lib64: bool,
    pub has_target_header: bool,
}

impl View for RootProbe {
    type V = RootProbeView;

    open spec fn view(&self) -> RootProbeView {
        RootProbeView {
            root: self.root@,
            has_lib64: self.has_lib64,
            has_target_header: self.has_target_header,
        }
    }
}

impl DeepView for RootProbe {
    type V = RootProbeView;

    open spec fn deep_view(&self) -> RootProbeView {
        self@
    }
}

/// The library directories of one installation root: `lib64` and its
/// `stubs` where `lib64` is a directory, then `lib` and `lib/stubs` of the
/// target directory where its header is there.
pub open spec fn root_lib_dirs(probe: RootProbeView) -> Seq<Seq<char>> {
    let lib64 = lib64_path(probe.root);
    let target = target_path(probe.root);
    let plain = if probe.has_lib64 {
        seq![lib64, joined_path(lib64, "stubs"@, Platform::Posix)]
    } else {
        Seq::empty()
    };
    let targeted = if probe.has_target_header {
        seq![
            joined_path(target, "lib"@, Platform::Posix),
            joined_path(target, "lib/stubs"@, Platform::Posix),
        ]
    } else {
        Seq::empty()
    };
    plain + targeted
}

/// The library directories of a list of installation roots, root by root in
/// the order of the list.
pub open spec fn lib_dirs(probes: Seq<RootProbeView>) -> Seq<Seq<char>>
    decreases probes.len(),
{
    if probes.len() == 0 {
        Seq::empty()
    } else {
        lib_dirs(probes.drop_last()) + root_lib_dirs(probes.last())
    }
}

/// Lists the directories that may hold the driver library, in the order in
/// which they are to be tried.
pub fn find_cuda_lib_dirs(probes: &Vec<RootProbe>) -> (dirs: Vec<String>)
    ensures
        dirs.deep_view() == lib_dirs(probes.deep_view()),
{
    let mut dirs: Vec<String> = Vec::new();
    let mut i: usize = 0;
    assert(probes.deep_view().subrange(0, 0) =~= Seq::<RootProbeView>::empty());
    assert(dirs.deep_view() =~= Seq::<Seq<char>>::empty());
    while i < probes.len()
        invariant
            i <= probes.len(),
            dirs.deep_view() == lib_dirs(probes.deep_view().subrange(0, i as int)),
        decreases probes.len() - i,
    {
        let probe = &probes[i];
        let ghost before = dirs.deep_view();
        let ghost done = probes.deep_view().subrange(0, i as int);
        let ghost next = probes.deep_view().subrange(0, i + 1);
        assert(next.drop_last() =~= done);
        assert(next.last() == probe@);
        if probe.has_lib64 {
            let lib64 = join_path(probe.root.as_str(), "lib64", Platform::Posix);
            let stubs = join_path(lib64.as_str(), "stubs", Platform::Posix);
            dirs.push(lib64);
            dirs.push(stubs);
        }
        let ghost middle = dirs.deep_view();
        if probe.has_target_header {
            let target = join_path(probe.root.as_str(), "targets/x86_64-linux", Platform::Posix);
            dirs.push(join_path(target.as_str(), "lib", Platform::Posix));
            dirs.push(join_path(target.as_str(), "lib/stubs", Platform::Posix));
        }
        assert(dirs.deep_view() =~= before + root_lib_dirs(probe@));
        i = i + 1;
    }
    assert(probes.deep_view().subrange(0, i as int) =~= probes.deep_view());
    dirs
}

/// A library directory and whether the caller found the driver library in
/// it.
#[derive(Debug)]
pub struct DirProbe {
    /// The library directory.
    pub dir: String,
    /// Whether `library_file` of the directory exists.
    pub has_library: bool,
}

/// A `DirProbe` with its directory as a sequence of characters.
pub struct DirProbeView {
    pub dir: Seq<char>,
    pub has_library: bool,
}

impl View for DirProbe {
    type V = DirProbeView;

    open spec fn view(&self) -> DirProbeView {
        DirProbeView { dir: self.dir@, has_library: self.has_library }
    }
}

impl DeepView for DirProbe {
    type V = DirProbeView;

    open spec fn deep_view(&self) -> DirProbeView {
        self@
    }
}

/// The file to load: the driver library of the first directory that holds
/// one. A later directory counts only where no earlier one has the library.
pub open spec fn resolved(probes: Seq<DirProbeView>) -> Option<Seq<char>>
    decreases probes.len(),
{
    if probes.len() == 0 {
        None
    } else {
        match resolved(probes.drop_last()) {
            Some(path) => Some(path),
            None => if probes.last().has_library {
                Some(library_path(probes.last().dir))
            } else {
                None
            },
        }
    }
}

/// Whether `at` is the first of `probes` that has the library.
pub open spec fn is_first_match(probes: Seq<DirProbeView>, at: int) -> bool {
    &&& 0 <= at < probes.len()
    &&& probes[at].has_library
    &&& forall|j: int| 0 <= j < at ==> !(#[trigger] probes[j]).has_library
}

/// What `resolved` comes to: nothing where no directory has the library,
/// else the library of the first directory that has it.
pub proof fn lemma_resolved_first_match(probes: Seq<DirProbeView>)
    ensures
        resolved(probes) is None <==> forall|i: int|
            0 <= i < probes.len() ==> !(#[trigger] probes[i]).has_library,
        forall|at: int|
            is_first_match(probes, at) ==> resolved(probes) == Some(library_path(probes[at].dir)),
    decreases probes.len(),
{
    if probes.len() > 0 {
        let front = probes.drop_last();
        lemma_resolved_first_match(front);
        assert forall|at: int| is_first_match(probes, at) implies resolved(probes) == Some(
            library_path(probes[at].dir),
        ) by {
            if at < front.len() {
                assert(front[at] == probes[at]);
                assert(is_first_match(front, at));
            } else {
                assert forall|i: int| 0 <= i < front.len() implies !(#[trigger] front[i]).has_library by {
                    assert(front[i] == probes[i]);
                }
            }
        }
        if resolved(probes) is None {
            assert forall|i: int| 0 <= i < probes.len() implies !(#[trigger] probes[i]).has_library by {
                if i < front.len() {
                    assert(front[i] == probes[i]);
                }
            }
        } else if resolved(front) is Some {
            let i = choose|i: int| 0 <= i < front.len() && (#[trigger] front[i]).has_library;
            assert(probes[i] == front[i]);
        }
    }
}

/// Names the file to load, or nothing where no directory holds the
/// library: the first match wins.
pub fn resolve_library_file(probes: &Vec<DirProbe>) -> (file: Option<String>)
    ensures
        match file {
            Some(path) => resolved(probes.deep_view()) == Some(path@),
            None => resolved(probes.deep_view()) is None,
        },
        file is None <==> forall|i: int| 0 <= i < probes.len() ==> !(#[trigger] probes[i]).has_library,
        file matches Some(path) ==> exists|at: int|
            is_first_match(probes.deep_view(), at) && path@ == library_path(
                #[trigger] probes[at].dir@,
            ),
{
    let ghost all = probes.deep_view();
    let mut i: usize = 0;
    while i < probes.len()
        invariant
            i <= probes.len(),
            all == probes.deep_view(),
            forall|j: int| 0 <= j < i ==> !(#[trigger] all[j]).has_library,
        decreases probes.len() - i,
    {
        if probes[i].has_library {
            let path = join_path(probes[i].dir.as_str(), LIBRARY_FILE, Platform::Posix);
            proof {
                assert(all[i as int] == probes[i as int]@);
                assert(is_first_match(all, i as int));
                lemma_resolved_first_match(all);
            }
            return Some(path);
        }
        assert(all[i as int] == probes[i as int]@);
        i = i + 1;
    }
    proof {
        lemma_resolved_first_match(all);
        assert forall|k: int| 0 <= k < probes.len() implies !(#[trigger] probes[k]).has_library by {
            assert(all[k] == probes[k]@);
        }
    }
    None
}

/// The library directories of the roots that come first come first: the
/// directories of a list of roots are those of its front part, then those
/// of the rest.
pub proof fn lemma_lib_dirs_in_root_order(front: Seq<RootProbeView>, rest: Seq<RootProbeView>)
    ensures
        lib_dirs(front + rest) == lib_dirs(front) + lib_dirs(rest),
    decreases rest.len(),
{
    if rest.len() == 0 {
        assert(front + rest =~= front);
        assert(lib_dirs(front) + lib_dirs(rest) =~= lib_dirs(front));
    } else {
        lemma_lib_dirs_in_root_order(front, rest.drop_last());
        assert((front + rest).drop_last() =~= front + rest.drop_last());
        assert((front + rest).last() == rest.last());
        assert(lib_dirs(front + rest) =~= lib_dirs(front) + lib_dirs(rest));
    }
}

/// Directories in front decide: where one of the directories in front has
/// the library, the file to load is the one that they alone give, whatever
/// the directories after them hold.
pub proof fn lemma_earlier_dirs_win(front: Seq<DirProbeView>, rest: Seq<DirProbeView>)
    requires
        exists|i: int| 0 <= i < front.len() && (#[trigger] front[i]).has_library,
    ensures
        resolved(front) is Some,
        resolved(front + rest) == resolved(front),
    decreases rest.len(),
{
    lemma_resolved_first_match(front);
    if rest.len() == 0 {
        assert(front + rest =~= front);
    } else {
        lemma_earlier_dirs_win(front, rest.drop_last());
        assert((front + rest).drop_last() =~= front + rest.drop_last());
    }
}

/// The override wins. Take the roots from the environment, `overrides`,
/// and the roots after them, `others`, each with what was found under it,
/// and in `found` their library directories, each with what was found in
/// it. Where a directory of an override root has the library, the file to
/// load is the library of the first such directory, whatever the
/// directories of the other roots hold.
pub proof fn lemma_override_wins(
    overrides: Seq<RootProbeView>,
    others: Seq<RootProbeView>,
    found: Seq<DirProbeView>,
)
    requires
        found.len() == lib_dirs(overrides + others).len(),
        forall|i: int|
            0 <= i < found.len() ==> (#[trigger] found[i]).dir == lib_dirs(overrides + others)[i],
        exists|i: int| 0 <= i < lib_dirs(overrides).len() && (#[trigger] found[i]).has_library,
    ensures
        lib_dirs(overrides).len() <= found.len(),
        resolved(found) == resolved(found.subrange(0, lib_dirs(overrides).len() as int)),
        exists|at: int|
            0 <= at < lib_dirs(overrides).len() && is_first_match(found, at) && resolved(found)
                == Some(library_path(lib_dirs(overrides)[at])),
{
    lemma_lib_dirs_in_root_order(overrides, others);
    let n = lib_dirs(overrides).len() as int;
    let front = found.subrange(0, n);
    let rest = found.subrange(n, found.len() as int);
    assert(front + rest =~= found);
    let i = choose|i: int| 0 <= i < n && (#[trigger] found[i]).has_library;
    assert(front[i] == found[i]);
    lemma_earlier_dirs_win(front, rest);
    lemma_nothing_found(front);
    let at = choose|at: int|
        is_first_match(front, at) && resolved(front)->0 == library_path(front[at].dir);
    assert(front[at] == found[at]);
    assert forall|j: int| 0 <= j < at implies !(#[trigger] found[j]).has_library by {
        assert(front[j] == found[j]);
    }
    assert(is_first_match(found, at));
    assert(found[at].dir == lib_dirs(overrides + others)[at]);
    assert(lib_dirs(overrides + others)[at] == lib_dirs(overrides)[at]);
}

/// No library anywhere gives no file to load, and a file to load is always
/// the library of one of the directories that has it.
pub proof fn lemma_nothing_found(probes: Seq<DirProbeView>)
    ensures
        (forall|i: int| 0 <= i < probes.len() ==> !(#[trigger] probes[i]).has_library)
            ==> resolved(probes) is None,
        resolved(Seq::<DirProbeView>::empty()) is None,
        resolved(probes) matches Some(path) ==> exists|at: int|
            is_first_match(probes, at) && path == library_path(probes[at].dir),
    decreases probes.len(),
{
    lemma_resolved_first_match(probes);
    if probes.len() > 0 {
        let front = probes.drop_last();
        lemma_nothing_found(front);
        lemma_resolved_first_match(front);
        match resolved(front) {
            Some(path) => {
                let at = choose|at: int|
                    is_first_match(front, at) && path == library_path(front[at].dir);
                assert(probes[at] == front[at]);
                assert forall|j: int| 0 <= j < at implies !(#[trigger] probes[j]).has_library by {
                    assert(probes[j] == front[j]);
                }
                assert(is_first_match(probes, at));
            },
            None => {
                if probes.last().has_library {
                    let at = probes.len() - 1;
                    assert forall|j: int| 0 <= j < at implies !(#[trigger] probes[j]).has_library by {
                        assert(probes[j] == front[j]);
                    }
                    assert(is_first_match(probes, at));
                }
            },
        }
    }
}

} // verus!
