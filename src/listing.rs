use vstd::prelude::*;

verus! {

/// What a directory entry is, as the platform classified it.
#[derive(Clone, Copy, Debug, PartialEq, Eq, Structural)]
pub enum EntryKind {
    Dir,
    File,
    Other,
}

/// Number of entries of the given kind in a listing.
pub open spec fn count_kind(kinds: Seq<EntryKind>, k: EntryKind) -> nat
    decreases kinds.len(),
{
    if kinds.len() == 0 {
        0
    } else {
        count_kind(kinds.drop_last(), k) + if kinds.last() == k {
            1nat
        } else {
            0nat
        }
    }
}

/// Counts the entries of kind `k`.
pub fn count_of_kind(kinds: &Vec<EntryKind>, k: EntryKind) -> (n: usize)
    ensures
        n == count_kind(kinds@, k),
{
    let mut n: usize = 0;
    let mut i: usize = 0;
    while i < kinds.len()
        invariant
            i <= kinds@.len(),
            n == count_kind(kinds@.take(i as int), k),
            n <= i,
        decreases kinds.len() - i,
    {
        assert(kinds@.take(i as int + 1).drop_last() == kinds@.take(i as int));
        if kinds[i] == k {
            n = n + 1;
        }
        i = i + 1;
    }
    assert(kinds@.take(i as int) == kinds@);
    n
}

/// A directory that could not be listed, named by its path.
pub struct ScanError {
    pub path: String,
}

impl View for ScanError {
    type V = Seq<char>;

    open spec fn view(&self) -> Seq<char> {
        self.path@
    }
}

/// An entry of a show directory. Where `kind` is `Dir`, `contents` holds the kinds of
/// the entries directly under it, or the error met while listing it; otherwise it is
/// not looked at.
pub struct SeasonEntry {
    /// The entry's name; a name that is not valid text has its bad parts replaced.
    pub name: String,
    pub kind: EntryKind,
    pub contents: Result<Vec<EntryKind>, ScanError>,
}

/// An entry of the library's root directory. `name` is `None` where the name is not
/// valid text. Where `kind` is `Dir`, `contents` holds its own entries, or the error
/// met while listing it.
pub struct ShowEntry {
    pub name: Option<String>,
    pub kind: EntryKind,
    pub contents: Result<Vec<SeasonEntry>, ScanError>,
}

} // verus!
