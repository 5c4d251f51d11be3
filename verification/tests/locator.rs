use cuda_driver::load::windows;
use cuda_driver::load::windows::TargetError;
use cuda_driver::load::{
    candidate_roots, find_cuda_lib_dirs, lib64_dir, library_file, read_env, resolve_library_file,
    target_header, DirProbe, RootProbe, LIBRARY_FILE, LIBRARY_PATH_VARIABLE, VERSIONED_ROOT_PATTERN,
};
use cuda_driver::platform::Platform;
use cuda_driver::text::{join_path, split_text};

fn strings(items: &[&str]) -> Vec<String> {
    items.iter().map(|s| s.to_string()).collect()
}

fn root(path: &str, has_lib64: bool, has_target_header: bool) -> RootProbe {
    RootProbe { root: path.to_string(), has_lib64, has_target_header }
}

fn dir(path: &str, has_library: bool) -> DirProbe {
    DirProbe { dir: path.to_string(), has_library }
}

#[test]
fn posix_override_splits_at_colons() {
    let dirs = read_env(Some("/a/dir1:/a/dir2"), Platform::Posix);
    assert_eq!(dirs, strings(&["/a/dir1", "/a/dir2"]));
}

#[test]
fn windows_override_splits_at_semicolons() {
    let dirs = read_env(Some("C:\\cuda\\a;D:\\cuda\\b"), Platform::Windows);
    assert_eq!(dirs, strings(&["C:\\cuda\\a", "D:\\cuda\\b"]));
    let dirs = read_env(Some("/a/dir1:/a/dir2"), Platform::Windows);
    assert_eq!(dirs, strings(&["/a/dir1:/a/dir2"]));
    let dirs = read_env(Some("/a;/b"), Platform::Posix);
    assert_eq!(dirs, strings(&["/a;/b"]));
}

#[test]
fn unset_override_gives_no_directory() {
    assert!(read_env(None, Platform::Posix).is_empty());
    assert!(read_env(None, Platform::Windows).is_empty());
}

#[test]
fn override_keeps_empty_entries() {
    assert_eq!(read_env(Some(""), Platform::Posix), strings(&[""]));
    assert_eq!(read_env(Some(":"), Platform::Posix), strings(&["", ""]));
    assert_eq!(read_env(Some("/a:"), Platform::Posix), strings(&["/a", ""]));
    assert_eq!(read_env(Some(":/a"), Platform::Posix), strings(&["", "/a"]));
    assert_eq!(read_env(Some("/a::/b"), Platform::Posix), strings(&["/a", "", "/b"]));
    assert_eq!(read_env(Some("/only"), Platform::Posix), strings(&["/only"]));
}

#[test]
fn split_agrees_with_the_standard_split() {
    for text in ["", "a", "-", "a-b", "x86_64-pc-windows-msvc", "--", "a--b-", "-a", "\u{e9}-\u{4e2d}\u{6587}-z"] {
        let expected: Vec<String> = text.split('-').map(|s| s.to_string()).collect();
        assert_eq!(split_text(text, '-'), expected, "splitting {:?}", text);
    }
}

#[test]
fn list_and_path_separators() {
    assert_eq!(Platform::Posix.list_separator(), ':');
    assert_eq!(Platform::Windows.list_separator(), ';');
    assert_eq!(Platform::Posix.path_separator(), '/');
    assert_eq!(Platform::Windows.path_separator(), '\\');
    assert_eq!(Platform::Posix.path_separator_str(), "/");
    assert_eq!(Platform::Windows.path_separator_str(), "\\");
    assert!(Platform::Posix.is_path_separator('/'));
    assert!(!Platform::Posix.is_path_separator('\\'));
    assert!(Platform::Windows.is_path_separator('/'));
    assert!(Platform::Windows.is_path_separator('\\'));
    assert!(!Platform::Windows.is_path_separator(':'));
}

#[test]
fn joining_path_components() {
    assert_eq!(join_path("/opt/cuda", "lib64", Platform::Posix), "/opt/cuda/lib64");
    assert_eq!(join_path("/opt/cuda/", "lib64", Platform::Posix), "/opt/cuda/lib64");
    assert_eq!(join_path("", "lib64", Platform::Posix), "lib64");
    assert_eq!(join_path("/", "lib64", Platform::Posix), "/lib64");
    assert_eq!(join_path("rel\\", "x", Platform::Posix), "rel\\/x");
    assert_eq!(join_path("C:\\CUDA", "lib", Platform::Windows), "C:\\CUDA\\lib");
    assert_eq!(join_path("C:\\CUDA\\", "lib", Platform::Windows), "C:\\CUDA\\lib");
    assert_eq!(join_path("C:/CUDA/", "lib", Platform::Windows), "C:/CUDA/lib");
    assert_eq!(join_path("/opt/caf\u{e9}", "lib64", Platform::Posix), "/opt/caf\u{e9}/lib64");
}

#[test]
fn names_that_the_caller_reads() {
    assert_eq!(LIBRARY_PATH_VARIABLE, "CUDA_LIBRARY_PATH");
    assert_eq!(VERSIONED_ROOT_PATTERN, "/usr/local/cuda-*");
    assert_eq!(LIBRARY_FILE, "libcuda.so");
    assert_eq!(windows::ROOT_VARIABLE, "CUDA_PATH");
    assert_eq!(windows::TARGET_VARIABLE, "TARGET");
}

#[test]
fn candidate_roots_without_override() {
    let roots = candidate_roots(Vec::new(), Vec::new());
    assert_eq!(roots, strings(&["/opt/cuda", "/usr/local/cuda", "/usr/lib/cuda"]));
}

#[test]
fn candidate_roots_put_the_override_first() {
    let overrides = read_env(Some("/a/dir1:/a/dir2"), Platform::Posix);
    let versioned = strings(&["/usr/local/cuda-11.8", "/usr/local/cuda-12.4"]);
    let roots = candidate_roots(overrides, versioned);
    assert_eq!(
        roots,
        strings(&[
            "/a/dir1",
            "/a/dir2",
            "/opt/cuda",
            "/usr/local/cuda",
            "/usr/local/cuda-11.8",
            "/usr/local/cuda-12.4",
            "/usr/lib/cuda",
        ])
    );
}

#[test]
fn paths_to_probe() {
    assert_eq!(lib64_dir("/opt/cuda"), "/opt/cuda/lib64");
    assert_eq!(lib64_dir("/opt/cuda/"), "/opt/cuda/lib64");
    assert_eq!(lib64_dir(""), "lib64");
    assert_eq!(
        target_header("/usr/local/cuda"),
        "/usr/local/cuda/targets/x86_64-linux/include/cuda.h"
    );
    assert_eq!(target_header(""), "targets/x86_64-linux/include/cuda.h");
    assert_eq!(library_file("/opt/cuda/lib64"), "/opt/cuda/lib64/libcuda.so");
    assert_eq!(library_file("/opt/cuda/lib64/stubs"), "/opt/cuda/lib64/stubs/libcuda.so");
}

#[test]
fn lib_dirs_of_one_root() {
    assert!(find_cuda_lib_dirs(&vec![root("/opt/cuda", false, false)]).is_empty());
    assert_eq!(
        find_cuda_lib_dirs(&vec![root("/opt/cuda", true, false)]),
        strings(&["/opt/cuda/lib64", "/opt/cuda/lib64/stubs"])
    );
    assert_eq!(
        find_cuda_lib_dirs(&vec![root("/opt/cuda", false, true)]),
        strings(&[
            "/opt/cuda/targets/x86_64-linux/lib",
            "/opt/cuda/targets/x86_64-linux/lib/stubs",
        ])
    );
    assert_eq!(
        find_cuda_lib_dirs(&vec![root("/opt/cuda", true, true)]),
        strings(&[
            "/opt/cuda/lib64",
            "/opt/cuda/lib64/stubs",
            "/opt/cuda/targets/x86_64-linux/lib",
            "/opt/cuda/targets/x86_64-linux/lib/stubs",
        ])
    );
}

#[test]
fn lib_dirs_follow_the_order_of_the_roots() {
    let probes = vec![
        root("/a", false, true),
        root("/opt/cuda", false, false),
        root("/usr/local/cuda", true, false),
        root("/usr/lib/cuda", true, true),
    ];
    assert_eq!(
        find_cuda_lib_dirs(&probes),
        strings(&[
            "/a/targets/x86_64-linux/lib",
            "/a/targets/x86_64-linux/lib/stubs",
            "/usr/local/cuda/lib64",
            "/usr/local/cuda/lib64/stubs",
            "/usr/lib/cuda/lib64",
            "/usr/lib/cuda/lib64/stubs",
            "/usr/lib/cuda/targets/x86_64-linux/lib",
            "/usr/lib/cuda/targets/x86_64-linux/lib/stubs",
        ])
    );
    assert!(find_cuda_lib_dirs(&Vec::new()).is_empty());
}

#[test]
fn first_directory_with_the_library_wins() {
    let probes = vec![
        dir("/a/lib64", false),
        dir("/a/lib64/stubs", true),
        dir("/opt/cuda/lib64", true),
    ];
    assert_eq!(resolve_library_file(&probes), Some("/a/lib64/stubs/libcuda.so".to_string()));
}

#[test]
fn override_wins_over_conventional_directories() {
    let roots = candidate_roots(read_env(Some("/home/me/cuda"), Platform::Posix), Vec::new());
    let probes: Vec<RootProbe> = roots.iter().map(|r| root(r, true, false)).collect();
    let dirs = find_cuda_lib_dirs(&probes);
    assert_eq!(dirs[0], "/home/me/cuda/lib64");
    let found: Vec<DirProbe> = dirs.iter().map(|d| dir(d, !d.ends_with("stubs"))).collect();
    assert_eq!(
        resolve_library_file(&found),
        Some("/home/me/cuda/lib64/libcuda.so".to_string())
    );
}

#[test]
fn no_library_anywhere_resolves_to_nothing() {
    assert_eq!(resolve_library_file(&Vec::new()), None);
    let roots = candidate_roots(read_env(None, Platform::Posix), Vec::new());
    let probes: Vec<RootProbe> = roots.iter().map(|r| root(r, true, true)).collect();
    let dirs = find_cuda_lib_dirs(&probes);
    assert_eq!(dirs.len(), 12);
    let found: Vec<DirProbe> = dirs.iter().map(|d| dir(d, false)).collect();
    assert_eq!(resolve_library_file(&found), None);
}

#[test]
fn a_directory_alone_is_not_enough() {
    let dirs = find_cuda_lib_dirs(&vec![root("/opt/cuda", true, true)]);
    assert_eq!(dirs.len(), 4);
    let found: Vec<DirProbe> = dirs
        .iter()
        .map(|d| dir(d, d == "/opt/cuda/targets/x86_64-linux/lib"))
        .collect();
    assert_eq!(
        resolve_library_file(&found),
        Some("/opt/cuda/targets/x86_64-linux/lib/libcuda.so".to_string())
    );
}

#[test]
fn override_directory_with_a_stub_is_the_file_to_load() {
    let stub_root = "/tmp/cuda-stub";
    let roots = candidate_roots(read_env(Some(stub_root), Platform::Posix), Vec::new());
    assert_eq!(roots[0], stub_root);
    let probes: Vec<RootProbe> = roots.iter().map(|r| root(r, r == stub_root, false)).collect();
    assert_eq!(lib64_dir(&roots[0]), "/tmp/cuda-stub/lib64");
    let dirs = find_cuda_lib_dirs(&probes);
    assert_eq!(dirs, strings(&["/tmp/cuda-stub/lib64", "/tmp/cuda-stub/lib64/stubs"]));
    let found: Vec<DirProbe> = dirs.iter().map(|d| dir(d, d == "/tmp/cuda-stub/lib64")).collect();
    let file = resolve_library_file(&found);
    assert_eq!(file, Some("/tmp/cuda-stub/lib64/libcuda.so".to_string()));
    assert_eq!(file, Some(library_file("/tmp/cuda-stub/lib64")));
}

#[test]
fn windows_target_names_its_library_directory() {
    assert_eq!(windows::lib_subdir("x86_64-pc-windows-msvc"), Ok("x64"));
    assert_eq!(windows::lib_subdir("x86_64-pc-windows-gnu"), Ok("x64"));
    assert_eq!(windows::lib_subdir("x86_64-pc-windows"), Ok("x64"));
    assert_eq!(
        windows::lib_dir("C:\\CUDA\\v12.4", "x86_64-pc-windows-msvc"),
        Ok("C:\\CUDA\\v12.4\\lib\\x64".to_string())
    );
    assert_eq!(
        windows::lib_dir("C:\\CUDA\\v12.4\\", "x86_64-pc-windows-msvc"),
        Ok("C:\\CUDA\\v12.4\\lib\\x64".to_string())
    );
}

#[test]
fn windows_target_errors() {
    assert_eq!(windows::lib_subdir(""), Err(TargetError::Malformed));
    assert_eq!(windows::lib_subdir("x86_64"), Err(TargetError::Malformed));
    assert_eq!(windows::lib_subdir("x86_64-pc"), Err(TargetError::Malformed));
    assert_eq!(windows::lib_subdir("x86_64-unknown-linux-gnu"), Err(TargetError::NotWindows));
    assert_eq!(windows::lib_subdir("i686-apple-darwin"), Err(TargetError::NotWindows));
    assert_eq!(windows::lib_subdir("x86_64-pc-Windows-msvc"), Err(TargetError::NotWindows));
    assert_eq!(windows::lib_subdir("x86_64-uwp-windows-msvc"), Err(TargetError::NotPc));
    assert_eq!(windows::lib_subdir("i686-pc-windows-msvc"), Err(TargetError::Unsupported32Bit));
    assert_eq!(
        windows::lib_subdir("aarch64-pc-windows-msvc"),
        Err(TargetError::UnsupportedArchitecture)
    );
    assert_eq!(windows::lib_subdir("-pc-windows"), Err(TargetError::UnsupportedArchitecture));
    assert_eq!(
        windows::lib_dir("C:\\CUDA", "i686-pc-windows-msvc"),
        Err(TargetError::Unsupported32Bit)
    );
}

#[test]
fn windows_lib_dirs() {
    let target = "x86_64-pc-windows-msvc";
    assert_eq!(
        windows::find_cuda_lib_dirs(Some("C:\\CUDA"), target, true),
        Ok(strings(&["C:\\CUDA\\lib\\x64"]))
    );
    assert_eq!(windows::find_cuda_lib_dirs(Some("C:\\CUDA"), target, false), Ok(Vec::new()));
    assert_eq!(windows::find_cuda_lib_dirs(None, target, true), Ok(Vec::new()));
    assert_eq!(windows::find_cuda_lib_dirs(None, "not a target", false), Ok(Vec::new()));
    assert_eq!(
        windows::find_cuda_lib_dirs(Some("C:\\CUDA"), "x86_64-unknown-linux-gnu", true),
        Err(TargetError::NotWindows)
    );
    assert_eq!(
        windows::find_cuda_lib_dirs(Some("C:\\CUDA"), "i686-pc-windows-msvc", false),
        Err(TargetError::Unsupported32Bit)
    );
}
