//! Paths modeled as ordered lists of name segments, and a snapshot of the
//! filesystem facts (which files and directories exist) that resolution
//! decisions are made against.

use vstd::prelude::*;

verus! {

/// A filesystem path as an ordered list of segments, root first.
/// An empty list stands for the filesystem root; a single segment with no
/// ancestors stands for a bare name to be resolved via the search path.
#[derive(Clone)]
pub struct FsPath {
    pub segments: Vec<String>,
}

impl View for FsPath {
    type V = Seq<Seq<char>>;

    open spec fn view(&self) -> Seq<Seq<char>> {
        self.segments.deep_view()
    }
}

impl FsPath {
    /// An empty path (the filesystem root).
    pub fn root() -> (r: FsPath)
        ensures
            r@ == Seq::<Seq<char>>::empty(),
    {
        FsPath { segments: Vec::new() }
    }

    /// The path extended by one child segment.
    pub fn child(&self, name: &str) -> (r: FsPath)
        ensures
            r@ == self@.push(name@),
    {
        let mut segments: Vec<String> = self.segments.clone();
        segments.push(name.to_owned());
        let r = FsPath { segments };
        proof {
            assert(r@ =~= self@.push(name@));
        }
        r
    }

    /// The parent directory, or `None` at the root.
    pub fn parent(&self) -> (r: Option<FsPath>)
        ensures
            self@.len() == 0 ==> r is None,
            self@.len() > 0 ==> (r matches Some(p) && p@ == self@.drop_last()),
    {
        if self.segments.len() == 0 {
            None
        } else {
            let mut segments = self.segments.clone();
            segments.pop();
            let p = FsPath { segments };
            proof {
                assert(p@ =~= self@.drop_last());
            }
            Some(p)
        }
    }

    /// Segment-wise equality.
    pub fn same_as(&self, other: &FsPath) -> (r: bool)
        ensures
            r == (self@ == other@),
    {
        if self.segments.len() != other.segments.len() {
            proof {
                assert(self@.len() == self.segments@.len());
                assert(other@.len() == other.segments@.len());
            }
            return false;
        }
        let n = self.segments.len();
        let mut i: usize = 0;
        while i < n
            invariant
                n == self.segments@.len(),
                n == other.segments@.len(),
                i <= n,
                forall|j: int| 0 <= j < i ==> self@[j] == other@[j],
            decreases n - i,
        {
            if !(self.segments[i] == other.segments[i]) {
                proof {
                    assert(self@[i as int] != other@[i as int]);
                }
                return false;
            }
            i += 1;
        }
        proof {
            assert(self@ =~= other@);
        }
        true
    }
}

} // verus!
