use examparse::fspath::FsPath;
use examparse::resolver::{choose_python_exec, find_repo_root, resolve_dev, resolve_packaged, FsSnapshot, Platform, ResolutionError};

fn path(segments: &[&str]) -> FsPath {
    FsPath { segments: segments.iter().map(|s| s.to_string()).collect() }
}

#[test]
fn root_found_six_levels_up() {
    let root = path(&["home", "user", "proj"]);
    let mut fs = FsSnapshot::new();
    fs.add_file(root.child("pyproject.toml"));
    let start = path(&["home", "user", "proj", "a", "b", "c", "d", "e", "f"]);
    let found = find_repo_root(&start, &fs).expect("the marker is within the bound");
    assert_eq!(found.segments, root.segments);
}

#[test]
fn root_one_level_beyond_the_bound_is_not_found() {
    let root = path(&["home", "user", "proj"]);
    let mut fs = FsSnapshot::new();
    fs.add_file(root.child("pyproject.toml"));
    let start = path(&["home", "user", "proj", "a", "b", "c", "d", "e", "f", "g"]);
    assert!(find_repo_root(&start, &fs).is_none());
    let r = resolve_dev(&start, &fs);
    assert!(matches!(r, Err(ResolutionError::RootNotFound)));
}

#[test]
fn package_directory_also_marks_the_root() {
    let root = path(&["work", "repo"]);
    let mut fs = FsSnapshot::new();
    fs.add_dir(root.child("sidecar"));
    let start = root.child("apps").child("desktop");
    let found = find_repo_root(&start, &fs).expect("the package directory marks the root");
    assert_eq!(found.segments, root.segments);
}

#[test]
fn interpreter_prefers_windows_venv_then_unix_then_bare() {
    let root = path(&["repo"]);
    let win = root.child(".venv").child("Scripts").child("python.exe");
    let unix = root.child(".venv").child("bin").child("python");

    let mut fs = FsSnapshot::new();
    fs.add_file(win.clone());
    fs.add_file(unix.clone());
    assert_eq!(choose_python_exec(&root, &fs).segments, win.segments);

    let mut fs = FsSnapshot::new();
    fs.add_file(unix.clone());
    assert_eq!(choose_python_exec(&root, &fs).segments, unix.segments);

    let fs = FsSnapshot::new();
    assert_eq!(choose_python_exec(&root, &fs).segments, vec!["python"]);
}

#[test]
fn packaged_probes_candidates_in_order() {
    let resource = path(&["opt", "app", "resources"]);
    let data = path(&["home", "user", "data"]);
    let in_resource = resource.child("sidecar-dist").child("examparse-sidecar");
    let in_data = data.child("sidecar-dist").child("examparse-sidecar");

    let mut fs = FsSnapshot::new();
    fs.add_file(in_resource.clone());
    fs.add_file(in_data.clone());
    let r = resolve_packaged(&Platform::Unix, Some(&resource), Some(&data), &fs).unwrap();
    assert_eq!(r.segments, in_resource.segments);

    let mut fs = FsSnapshot::new();
    fs.add_file(in_data.clone());
    let r = resolve_packaged(&Platform::Unix, Some(&resource), Some(&data), &fs).unwrap();
    assert_eq!(r.segments, in_data.segments);

    let rel = FsPath::root().child("sidecar-dist").child("examparse-sidecar");
    let mut fs = FsSnapshot::new();
    fs.add_file(rel.clone());
    let r = resolve_packaged(&Platform::Unix, Some(&resource), Some(&data), &fs).unwrap();
    assert_eq!(r.segments, rel.segments);
}

#[test]
fn packaged_missing_everywhere_fails() {
    let fs = FsSnapshot::new();
    let r = resolve_packaged(&Platform::Unix, None, None, &fs);
    assert!(matches!(r, Err(ResolutionError::SidecarNotFound)));
}

#[test]
fn windows_uses_the_exe_name() {
    let resource = path(&["res"]);
    let exe = resource.child("sidecar-dist").child("examparse-sidecar.exe");
    let mut fs = FsSnapshot::new();
    fs.add_file(exe.clone());
    let r = resolve_packaged(&Platform::Windows, Some(&resource), None, &fs).unwrap();
    assert_eq!(r.segments, exe.segments);
}
