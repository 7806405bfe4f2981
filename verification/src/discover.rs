//! Discovery: which entries of a directory walk become candidates, and how
//! many of each kind there are.
//!
//! The walk itself is the caller's. It reports each entry it could read, in
//! the order in which it met them; entries it could not read it leaves out.

use crate::classify::{classify, is_image_path, kind_of, ImageKind};
use vstd::prelude::*;

verus! {

/// A heartbeat is due whenever the number of candidates reaches a multiple
/// of this.
pub const HEARTBEAT_INTERVAL: usize = 100;

/// What a directory walk reports of one entry.
#[derive(Debug)]
pub struct Entry {
    /// The entry's path, the root of the walk included.
    pub path: String,
    /// Whether the entry is a regular file.
    pub is_file: bool,
}

/// The totals that the closing message of a discovery shows.
#[derive(Clone, Copy, Debug, PartialEq, Eq, Structural)]
pub struct Summary {
    /// How many candidates are PNG files.
    pub png: usize,
    /// How many candidates are JPEG files, under either extension.
    pub jpeg: usize,
}

/// Whether an entry becomes a candidate: it is a regular file and its path
/// names an image.
pub open spec fn is_candidate(path: Seq<char>, is_file: bool) -> bool {
    is_file && is_image_path(path)
}

/// The candidates among the entries of a walk, in the order of the walk.
pub open spec fn candidates_of(entries: Seq<Entry>) -> Seq<Seq<char>>
    decreases entries.len(),
{
    if entries.len() == 0 {
        Seq::empty()
    } else {
        let earlier = candidates_of(entries.drop_last());
        if is_candidate(entries.last().path@, entries.last().is_file) {
            earlier.push(entries.last().path@)
        } else {
            earlier
        }
    }
}

/// How many of `paths` name an image of the kind `kind`.
pub open spec fn count_of(paths: Seq<Seq<char>>, kind: ImageKind) -> nat
    decreases paths.len(),
{
    if paths.len() == 0 {
        0
    } else if kind_of(paths.last()) == Some(kind) {
        count_of(paths.drop_last(), kind) + 1
    } else {
        count_of(paths.drop_last(), kind)
    }
}

/// Where every path names an image, the three kinds account for all of them.
pub proof fn lemma_kinds_cover_candidates(paths: Seq<Seq<char>>)
    requires
        forall|i: int| 0 <= i < paths.len() ==> is_image_path(#[trigger] paths[i]),
    ensures
        count_of(paths, ImageKind::Png) + count_of(paths, ImageKind::Jpg) + count_of(
            paths,
            ImageKind::Jpeg,
        ) == paths.len(),
    decreases paths.len(),
{
    if paths.len() > 0 {
        let earlier = paths.drop_last();
        assert forall|i: int| 0 <= i < earlier.len() implies is_image_path(
            #[trigger] earlier[i],
        ) by {
            assert(earlier[i] == paths[i]);
        }
        lemma_kinds_cover_candidates(earlier);
        assert(is_image_path(paths[paths.len() - 1]));
    }
}

/// Every candidate of a walk names an image, and there are no more
/// candidates than entries.
pub proof fn lemma_candidates_are_images(entries: Seq<Entry>)
    ensures
        candidates_of(entries).len() <= entries.len(),
        forall|i: int|
            0 <= i < candidates_of(entries).len() ==> is_image_path(
                #[trigger] candidates_of(entries)[i],
            ),
    decreases entries.len(),
{
    if entries.len() > 0 {
        lemma_candidates_are_images(entries.drop_last());
    }
}

/// The candidates found so far in a walk, with a tally by kind.
#[derive(Debug)]
pub struct Discovery {
    candidates: Vec<String>,
    png: usize,
    jpg: usize,
    jpeg: usize,
}

impl Discovery {
    /// The paths of the candidates found so far, in the order in which they
    /// were found.
    pub closed spec fn paths(&self) -> Seq<Seq<char>> {
        self.candidates.deep_view()
    }

    /// The tally agrees with the candidates, and every candidate names an
    /// image.
    #[verifier::type_invariant]
    spec fn consistent(&self) -> bool {
        &&& forall|i: int|
            0 <= i < self.candidates.deep_view().len() ==> is_image_path(
                #[trigger] self.candidates.deep_view()[i],
            )
        &&& self.png == count_of(self.candidates.deep_view(), ImageKind::Png)
        &&& self.jpg == count_of(self.candidates.deep_view(), ImageKind::Jpg)
        &&& self.jpeg == count_of(self.candidates.deep_view(), ImageKind::Jpeg)
    }

    /// The discovery with one more candidate, of the given kind.
    fn with_candidate(self, path: &str, kind: ImageKind) -> (next: Discovery)
        requires
            kind_of(path@) == Some(kind),
        ensures
            next.paths() == self.paths().push(path@),
    {
        proof {
            use_type_invariant(&self);
        }
        let ghost before = self.candidates.deep_view();
        let Discovery { mut candidates, mut png, mut jpg, mut jpeg } = self;
        candidates.push(path.to_owned());
        proof {
            assert(candidates.deep_view() == before.push(path@));
            assert(candidates.deep_view().drop_last() == before);
            assert(before.len() + 1 == candidates.len());
            lemma_kinds_cover_candidates(before);
        }
        match kind {
            ImageKind::Png => {
                png = png + 1;
            },
            ImageKind::Jpg => {
                jpg = jpg + 1;
            },
            ImageKind::Jpeg => {
                jpeg = jpeg + 1;
            },
        }
        Discovery { candidates, png, jpg, jpeg }
    }

    /// A discovery that has seen no entry yet.
    pub fn new() -> (fresh: Discovery)
        ensures
            fresh.paths() == Seq::<Seq<char>>::empty(),
    {
        let candidates: Vec<String> = Vec::new();
        assert(candidates.deep_view() == Seq::<Seq<char>>::empty());
        Discovery { candidates, png: 0, jpg: 0, jpeg: 0 }
    }

    /// Takes in one entry of the walk. A regular file whose path names an
    /// image becomes the next candidate; any other entry changes nothing.
    /// Returns the number of candidates where a heartbeat is due: the entry
    /// became a candidate and brought their number to a multiple of
    /// `HEARTBEAT_INTERVAL`.
    pub fn visit(&mut self, path: &str, is_file: bool) -> (heartbeat: Option<usize>)
        ensures
            is_candidate(path@, is_file) ==> final(self).paths() == old(self).paths().push(path@),
            !is_candidate(path@, is_file) ==> final(self).paths() == old(self).paths(),
            heartbeat == if is_candidate(path@, is_file) && final(self).paths().len()
                % (HEARTBEAT_INTERVAL as nat) == 0 {
                Some(final(self).paths().len() as usize)
            } else {
                None
            },
    {
        if !is_file {
            return None;
        }
        let kind = match classify(path) {
            Some(kind) => kind,
            None => {
                return None;
            },
        };
        // The list and the tally change together: the discovery is taken
        // out, extended as a whole, and put back.
        let mut current = Discovery::new();
        core::mem::swap(self, &mut current);
        *self = current.with_candidate(path, kind);
        let found = self.candidates.len();
        if found % HEARTBEAT_INTERVAL == 0 {
            Some(found)
        } else {
            None
        }
    }

    /// The number of candidates found so far.
    pub fn len(&self) -> (found: usize)
        ensures
            found == self.paths().len(),
    {
        self.candidates.len()
    }

    /// The totals for the closing message: PNG files, and JPEG files under
    /// either extension. Together they are all the candidates.
    pub fn summary(&self) -> (totals: Summary)
        ensures
            totals.png == count_of(self.paths(), ImageKind::Png),
            totals.jpeg == count_of(self.paths(), ImageKind::Jpg) + count_of(
                self.paths(),
                ImageKind::Jpeg,
            ),
            totals.png + totals.jpeg == self.paths().len(),
    {
        proof {
            use_type_invariant(self);
            assert(self.paths().len() == self.candidates.len());
            lemma_kinds_cover_candidates(self.paths());
        }
        Summary { png: self.png, jpeg: self.jpg + self.jpeg }
    }

    /// The candidates, in the order in which they were found.
    pub fn candidates(&self) -> (found: &Vec<String>)
        ensures
            found.deep_view() == self.paths(),
    {
        &self.candidates
    }

    /// Ends the discovery and hands out its candidates.
    pub fn into_candidates(self) -> (found: Vec<String>)
        ensures
            found.deep_view() == self.paths(),
    {
        self.candidates
    }
}

/// Runs a whole discovery over the entries that a walk reported: the
/// candidates are the regular files whose path names an image, in the order
/// of the walk.
pub fn discover(entries: &Vec<Entry>) -> (found: Discovery)
    ensures
        found.paths() == candidates_of(entries@),
{
    let mut found = Discovery::new();
    let mut i: usize = 0;
    assert(entries@.take(0) == Seq::<Entry>::empty());
    while i < entries.len()
        invariant
            i <= entries.len(),
            found.paths() == candidates_of(entries@.take(i as int)),
        decreases entries.len() - i,
    {
        assert(entries@.take(i + 1).drop_last() == entries@.take(i as int));
        found.visit(entries[i].path.as_str(), entries[i].is_file);
        i += 1;
    }
    assert(entries@.take(entries.len() as int) == entries@);
    found
}

} // verus!
