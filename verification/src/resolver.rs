//! Choosing which executable to invoke: an upward search for the project root
//! and an interpreter pick in development mode, a probe over fixed candidate
//! directories in packaged mode. All decisions are made against an injected
//! snapshot of filesystem facts, never against ambient process state.

use vstd::prelude::*;
use crate::fspath::FsPath;

verus! {

/// Resolution failures: the upward search exhausted its bound, or no
/// candidate location holds the bundled worker executable.
#[derive(Debug)]
pub enum ResolutionError {
    RootNotFound,
    SidecarNotFound,
}

/// Which platform-specific file names and interpreter locations apply.
pub enum Platform {
    Windows,
    Unix,
}

/// The filesystem facts that resolution reads: which paths exist as files and
/// which as directories. Callers fill it by probing the candidate locations.
pub struct FsSnapshot {
    pub files: Vec<FsPath>,
    pub dirs: Vec<FsPath>,
}

impl FsSnapshot {
    /// The path exists as a file in this snapshot.
    pub open spec fn has_file(&self, p: Seq<Seq<char>>) -> bool {
        exists|i: int| 0 <= i < self.files@.len() && self.files@[i]@ == p
    }

    /// The path exists as a directory in this snapshot.
    pub open spec fn has_dir(&self, p: Seq<Seq<char>>) -> bool {
        exists|i: int| 0 <= i < self.dirs@.len() && self.dirs@[i]@ == p
    }

    /// The path exists at all in this snapshot.
    pub open spec fn has_path(&self, p: Seq<Seq<char>>) -> bool {
        self.has_file(p) || self.has_dir(p)
    }

    pub fn new() -> (r: FsSnapshot)
        ensures
            r.files@.len() == 0,
            r.dirs@.len() == 0,
    {
        FsSnapshot { files: Vec::new(), dirs: Vec::new() }
    }

    /// Records that the path exists as a file.
    pub fn add_file(&mut self, p: FsPath)
        ensures
            final(self).files@ == old(self).files@.push(p),
            final(self).dirs@ == old(self).dirs@,
    {
        self.files.push(p);
    }

    /// Records that the path exists as a directory.
    pub fn add_dir(&mut self, p: FsPath)
        ensures
            final(self).dirs@ == old(self).dirs@.push(p),
            final(self).files@ == old(self).files@,
    {
        self.dirs.push(p);
    }

    /// Tests whether the path is a file of this snapshot.
    pub fn is_file(&self, p: &FsPath) -> (r: bool)
        ensures
            r == self.has_file(p@),
    {
        let mut i: usize = 0;
        while i < self.files.len()
            invariant
                i <= self.files@.len(),
                forall|j: int| 0 <= j < i ==> self.files@[j]@ != p@,
            decreases self.files@.len() - i,
        {
            if self.files[i].same_as(p) {
                return true;
            }
            i += 1;
        }
        false
    }

    /// Tests whether the path is a directory of this snapshot.
    pub fn is_dir(&self, p: &FsPath) -> (r: bool)
        ensures
            r == self.has_dir(p@),
    {
        let mut i: usize = 0;
        while i < self.dirs.len()
            invariant
                i <= self.dirs@.len(),
                forall|j: int| 0 <= j < i ==> self.dirs@[j]@ != p@,
            decreases self.dirs@.len() - i,
        {
            if self.dirs[i].same_as(p) {
                return true;
            }
            i += 1;
        }
        false
    }

    /// Tests whether the path exists at all in this snapshot.
    pub fn path_exists(&self, p: &FsPath) -> (r: bool)
        ensures
            r == self.has_path(p@),
    {
        self.is_file(p) || self.is_dir(p)
    }
}

/// How many upward steps the project-root search may take beyond the
/// starting directory.
pub const SEARCH_BOUND: usize = 6;

/// A directory is recognizable as the project root when it holds the marker
/// file or the worker's package directory.
pub open spec fn is_project_root(fs: FsSnapshot, dir: Seq<Seq<char>>) -> bool {
    fs.has_file(dir.push("pyproject.toml"@)) || fs.has_dir(dir.push("sidecar"@))
}

/// The result of searching upward from `dir` with `ups` upward steps left:
/// the first recognizable directory on the way to the root, or nothing once
/// the bound or the root is passed.
pub open spec fn repo_root_from(fs: FsSnapshot, dir: Seq<Seq<char>>, ups: nat) -> Option<
    Seq<Seq<char>>,
>
    decreases ups,
{
    if is_project_root(fs, dir) {
        Some(dir)
    } else if ups == 0 || dir.len() == 0 {
        None
    } else {
        repo_root_from(fs, dir.drop_last(), (ups - 1) as nat)
    }
}

/// Searches upward from the starting directory, at most `SEARCH_BOUND` levels
/// above it, for a directory holding the project marker.
pub fn find_repo_root(start: &FsPath, fs: &FsSnapshot) -> (r: Option<FsPath>)
    ensures
        match repo_root_from(*fs, start@, SEARCH_BOUND as nat) {
            Some(root) => r matches Some(p) && p@ == root,
            None => r is None,
        },
{
    let mut cur = FsPath { segments: start.segments.clone() };
    let mut ups: usize = SEARCH_BOUND;
    loop
        invariant
            ups <= SEARCH_BOUND,
            repo_root_from(*fs, start@, SEARCH_BOUND as nat) == repo_root_from(
                *fs,
                cur@,
                ups as nat,
            ),
        decreases ups,
    {
        let marker = cur.child("pyproject.toml");
        let pkg = cur.child("sidecar");
        if fs.is_file(&marker) || fs.is_dir(&pkg) {
            return Some(cur);
        }
        if ups == 0 {
            return None;
        }
        match cur.parent() {
            None => {
                return None;
            },
            Some(up) => {
                cur = up;
            },
        }
        ups -= 1;
    }
}

/// The interpreter for a development run: the project-local virtual
/// environment's interpreter, probed first at the Windows-style location and
/// then at the Unix-style one, falling back to the bare name resolved via the
/// caller's search path. The fallback never fails here; a missing interpreter
/// surfaces only at spawn time.
pub open spec fn python_exec_choice(fs: FsSnapshot, root: Seq<Seq<char>>) -> Seq<Seq<char>> {
    let win = root.push(".venv"@).push("Scripts"@).push("python.exe"@);
    let unix = root.push(".venv"@).push("bin"@).push("python"@);
    if fs.has_path(win) {
        win
    } else if fs.has_path(unix) {
        unix
    } else {
        seq!["python"@]
    }
}

/// Picks the interpreter that `python_exec_choice` describes.
pub fn choose_python_exec(repo_root: &FsPath, fs: &FsSnapshot) -> (r: FsPath)
    ensures
        r@ == python_exec_choice(*fs, repo_root@),
{
    let win = repo_root.child(".venv").child("Scripts").child("python.exe");
    if fs.path_exists(&win) {
        return win;
    }
    let unix = repo_root.child(".venv").child("bin").child("python");
    if fs.path_exists(&unix) {
        return unix;
    }
    let bare = FsPath::root().child("python");
    proof {
        assert(bare@ =~= seq!["python"@]);
    }
    bare
}

/// The platform-specific file name of the bundled worker executable.
pub fn sidecar_file_name(platform: &Platform) -> (r: &'static str)
    ensures
        *platform is Windows ==> r@ == "examparse-sidecar.exe"@,
        *platform is Unix ==> r@ == "examparse-sidecar"@,
{
    match platform {
        Platform::Windows => "examparse-sidecar.exe",
        Platform::Unix => "examparse-sidecar",
    }
}

/// The candidate paths a packaged worker is probed at, in priority order:
/// under the bundled-resource directory, under the per-user application-data
/// directory, and relative to the working directory.
pub open spec fn packaged_candidates(
    resource_dir: Option<Seq<Seq<char>>>,
    data_dir: Option<Seq<Seq<char>>>,
    name: Seq<char>,
) -> Seq<Seq<Seq<char>>> {
    let rel = seq!["sidecar-dist"@, name];
    let from_resource: Seq<Seq<Seq<char>>> = match resource_dir {
        Some(d) => seq![d.push("sidecar-dist"@).push(name)],
        None => seq![],
    };
    let from_data: Seq<Seq<Seq<char>>> = match data_dir {
        Some(d) => seq![d.push("sidecar-dist"@).push(name)],
        None => seq![],
    };
    from_resource + from_data + seq![rel]
}

/// The first candidate that exists in the snapshot, if any.
pub open spec fn first_existing(fs: FsSnapshot, candidates: Seq<Seq<Seq<char>>>) -> Option<
    Seq<Seq<char>>,
>
    decreases candidates.len(),
{
    if candidates.len() == 0 {
        None
    } else if fs.has_path(candidates[0]) {
        Some(candidates[0])
    } else {
        first_existing(fs, candidates.skip(1))
    }
}

/// Probes the fixed candidate locations for the bundled worker and returns
/// the first that exists, or fails when none does.
pub fn resolve_packaged(
    platform: &Platform,
    resource_dir: Option<&FsPath>,
    data_dir: Option<&FsPath>,
    fs: &FsSnapshot,
) -> (r: Result<FsPath, ResolutionError>)
    ensures
        ({
            let name = match *platform {
                Platform::Windows => "examparse-sidecar.exe"@,
                Platform::Unix => "examparse-sidecar"@,
            };
            let cands = packaged_candidates(
                match resource_dir {
                    Some(d) => Some(d@),
                    None => None,
                },
                match data_dir {
                    Some(d) => Some(d@),
                    None => None,
                },
                name,
            );
            match first_existing(*fs, cands) {
                Some(p) => r matches Ok(q) && q@ == p,
                None => r matches Err(e) && e is SidecarNotFound,
            }
        }),
{
    let name = sidecar_file_name(platform);
    let ghost spec_name = name@;
    let ghost cands = packaged_candidates(
        match resource_dir {
            Some(d) => Some(d@),
            None => None,
        },
        match data_dir {
            Some(d) => Some(d@),
            None => None,
        },
        spec_name,
    );
    let ghost cands2 = packaged_candidates(
        None,
        match data_dir {
            Some(d2) => Some(d2@),
            None => None,
        },
        spec_name,
    );
    let ghost cands3 = packaged_candidates(None, None, spec_name);
    match resource_dir {
        Some(d) => {
            let p = d.child("sidecar-dist").child(name);
            if fs.path_exists(&p) {
                proof {
                    assert(cands[0] == p@);
                    assert(first_existing(*fs, cands) == Some(p@));
                }
                return Ok(p);
            }
            proof {
                assert(cands[0] == p@);
                assert(cands.skip(1) =~= cands2);
                assert(first_existing(*fs, cands) == first_existing(*fs, cands2));
            }
        },
        None => {
            proof {
                assert(cands =~= cands2);
            }
        },
    }
    match data_dir {
        Some(d) => {
            let p = d.child("sidecar-dist").child(name);
            if fs.path_exists(&p) {
                proof {
                    assert(cands2[0] == p@);
                    assert(first_existing(*fs, cands2) == Some(p@));
                }
                return Ok(p);
            }
            proof {
                assert(cands2[0] == p@);
                assert(cands2.skip(1) =~= cands3);
                assert(first_existing(*fs, cands2) == first_existing(*fs, cands3));
            }
        },
        None => {
            proof {
                assert(cands2 =~= cands3);
            }
        },
    }
    let rel = FsPath::root().child("sidecar-dist").child(name);
    proof {
        assert(rel@ =~= seq!["sidecar-dist"@, spec_name]);
        assert(cands3[0] == rel@);
        assert(cands3.skip(1) =~= Seq::<Seq<Seq<char>>>::empty());
    }
    if fs.path_exists(&rel) {
        proof {
            assert(first_existing(*fs, cands3) == Some(rel@));
        }
        return Ok(rel);
    }
    proof {
        assert(first_existing(*fs, cands3.skip(1)) is None);
        assert(first_existing(*fs, cands3) is None);
    }
    Err(ResolutionError::SidecarNotFound)
}

/// Resolves a development run from the starting directory: finds the project
/// root within the search bound and picks the interpreter, or fails with
/// `RootNotFound` when the bound is exhausted without a marker.
pub fn resolve_dev(start: &FsPath, fs: &FsSnapshot) -> (r: Result<
    (FsPath, FsPath),
    ResolutionError,
>)
    ensures
        match repo_root_from(*fs, start@, SEARCH_BOUND as nat) {
            Some(root) => r matches Ok((py, rt)) && rt@ == root && py@ == python_exec_choice(
                *fs,
                root,
            ),
            None => r matches Err(e) && e is RootNotFound,
        },
{
    match find_repo_root(start, fs) {
        None => Err(ResolutionError::RootNotFound),
        Some(root) => {
            let python = choose_python_exec(&root, fs);
            Ok((python, root))
        },
    }
}

} // verus!
