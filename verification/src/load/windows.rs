//! The locator on Windows: one installation root, and under it the one
//! library directory that belongs to the target the program is built for.
//!
//! The caller reads the root from `ROOT_VARIABLE` and the target triple
//! from `TARGET_VARIABLE`, reports whether `lib_dir` is a directory, and
//! gets the list of library directories from `find_cuda_lib_dirs`.

use vstd::prelude::*;
use vstd::string::*;
use crate::platform::Platform;
use crate::text::{join_path, joined_path, split, split_text};

verus! {

/// The environment variable that holds the installation root.
pub const ROOT_VARIABLE: &'static str = "CUDA_PATH";

/// The environment variable that holds the target triple of the build.
pub const TARGET_VARIABLE: &'static str = "TARGET";

/// Why a target triple has no library directory.
#[derive(Clone, Copy, Debug, PartialEq, Eq, Structural)]
pub enum TargetError {
    /// The triple has fewer than three parts between its hyphens.
    Malformed,
    /// The third part is not `windows`.
    NotWindows,
    /// The second part is not `pc`.
    NotPc,
    /// The architecture is `i686`, whose libraries are not supported.
    Unsupported32Bit,
    /// The architecture is neither `x86_64` nor `i686`.
    UnsupportedArchitecture,
}

/// The name of the library directory for a target triple. The checks come
/// in this order: three parts, `windows`, `pc`, the architecture.
pub open spec fn lib_subdir_spec(target: Seq<char>) -> Result<Seq<char>, TargetError> {
    let parts = split(target, '-');
    if parts.len() < 3 {
        Err(TargetError::Malformed)
    } else if parts[2] != "windows"@ {
        Err(TargetError::NotWindows)
    } else if parts[1] != "pc"@ {
        Err(TargetError::NotPc)
    } else if parts[0] == "x86_64"@ {
        Ok("x64"@)
    } else if parts[0] == "i686"@ {
        Err(TargetError::Unsupported32Bit)
    } else {
        Err(TargetError::UnsupportedArchitecture)
    }
}

/// Whether a piece of text is the given word.
fn is_word(piece: &String, word: &str) -> (same: bool)
    ensures
        same == (piece@ == word@),
{
    let word = String::from_str(word);
    *piece == word
}

/// Validates a target triple and names its library directory under `lib`.
pub fn lib_subdir(target: &str) -> (subdir: Result<&'static str, TargetError>)
    ensures
        match subdir {
            Ok(name) => lib_subdir_spec(target@) == Ok::<Seq<char>, TargetError>(name@),
            Err(e) => lib_subdir_spec(target@) == Err::<Seq<char>, TargetError>(e),
        },
{
    let parts = split_text(target, '-');
    assert(forall|i: int| 0 <= i < parts.len() ==> parts[i]@ == #[trigger] parts.deep_view()[i]);
    if parts.len() < 3 {
        Err(TargetError::Malformed)
    } else if !is_word(&parts[2], "windows") {
        Err(TargetError::NotWindows)
    } else if !is_word(&parts[1], "pc") {
        Err(TargetError::NotPc)
    } else if is_word(&parts[0], "x86_64") {
        Ok("x64")
    } else if is_word(&parts[0], "i686") {
        Err(TargetError::Unsupported32Bit)
    } else {
        Err(TargetError::UnsupportedArchitecture)
    }
}

/// The library directory `subdir` under `lib` in an installation root.
pub open spec fn lib_dir_path(root: Seq<char>, subdir: Seq<char>) -> Seq<char> {
    joined_path(joined_path(root, "lib"@, Platform::Windows), subdir, Platform::Windows)
}

/// The library directories for an installation root, a target triple and
/// the caller's report on `lib_dir`: none without a root, whatever the
/// target; with a root, the target's error, or the library directory where
/// it is there.
pub open spec fn lib_dirs(root: Option<Seq<char>>, target: Seq<char>, has_lib_dir: bool) -> Result<
    Seq<Seq<char>>,
    TargetError,
> {
    match root {
        None => Ok(Seq::empty()),
        Some(root) => match lib_subdir_spec(target) {
            Err(e) => Err(e),
            Ok(subdir) => if has_lib_dir {
                Ok(seq![lib_dir_path(root, subdir)])
            } else {
                Ok(Seq::empty())
            },
        },
    }
}

/// The library directory of an installation root for a target triple: the
/// caller reports to `find_cuda_lib_dirs` whether it is a directory.
pub fn lib_dir(root: &str, target: &str) -> (dir: Result<String, TargetError>)
    ensures
        match dir {
            Ok(path) => lib_subdir_spec(target@) matches Ok(subdir) && path@ == lib_dir_path(
                root@,
                subdir,
            ),
            Err(e) => lib_subdir_spec(target@) == Err::<Seq<char>, TargetError>(e),
        },
{
    match lib_subdir(target) {
        Ok(subdir) => {
            let lib = join_path(root, "lib", Platform::Windows);
            Ok(join_path(lib.as_str(), subdir, Platform::Windows))
        },
        Err(e) => Err(e),
    }
}

/// Lists the directories that may hold the driver library. `root` is the
/// installation root, if one is configured, `target` the target triple of
/// the build, and `has_lib_dir` says whether `lib_dir` is a directory.
pub fn find_cuda_lib_dirs(root: Option<&str>, target: &str, has_lib_dir: bool) -> (dirs: Result<
    Vec<String>,
    TargetError,
>)
    ensures
        match dirs {
            Ok(list) => lib_dirs(
                match root {
                    Some(r) => Some(r@),
                    None => None,
                },
                target@,
                has_lib_dir,
            ) == Ok::<Seq<Seq<char>>, TargetError>(list.deep_view()),
            Err(e) => lib_dirs(
                match root {
                    Some(r) => Some(r@),
                    None => None,
                },
                target@,
                has_lib_dir,
            ) == Err::<Seq<Seq<char>>, TargetError>(e),
        },
{
    let mut list: Vec<String> = Vec::new();
    assert(list.deep_view() =~= Seq::<Seq<char>>::empty());
    match root {
        None => Ok(list),
        Some(root) => match lib_dir(root, target) {
            Err(e) => Err(e),
            Ok(path) => {
                if has_lib_dir {
                    list.push(path);
                    assert(list.deep_view() =~= seq![path@]);
                }
                Ok(list)
            },
        },
    }
}

} // verus!
