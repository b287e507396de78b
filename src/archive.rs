//! Unpacking the bot archive: each entry goes below the target directory
//! without the archive's own top directory.

use std::io::Read;
use vstd::prelude::*;

verus! {

/// `i` is the position of the first '/' in `s`.
pub open spec fn is_first_slash(s: Seq<char>, i: int) -> bool {
    &&& 0 <= i < s.len()
    &&& s[i] == '/'
    &&& forall|j: int| 0 <= j < i ==> s[j] != '/'
}

/// What follows the first '/' of `s`; nothing when `s` has no '/' or ends
/// with its first one.
pub open spec fn below_top_dir(s: Seq<char>) -> Option<Seq<char>> {
    if exists|i: int| is_first_slash(s, i) {
        let i = choose|i: int| is_first_slash(s, i);
        if i == s.len() - 1 {
            None
        } else {
            Some(s.subrange(i + 1, s.len() as int))
        }
    } else {
        None
    }
}

pub open spec fn chars_opt(v: Option<Vec<char>>) -> Option<Seq<char>> {
    match v {
        Some(v) => Some(v@),
        None => None,
    }
}

/// The path of an archive entry below the archive's top directory: what
/// follows the first '/'. There is none when the name has no '/' or ends
/// with its first one (the top directory itself).
pub fn strip_top_dir(name: &Vec<char>) -> (r: Option<Vec<char>>)
    ensures
        chars_opt(r) == below_top_dir(name@),
{
    let mut i: usize = 0;
    while i < name.len()
        invariant
            i <= name@.len(),
            forall|j: int| 0 <= j < i ==> name@[j] != '/',
        decreases name@.len() - i,
    {
        if name[i] == '/' {
            assert(is_first_slash(name@, i as int));
            assert forall|k: int| is_first_slash(name@, k) implies k == i by {
                if k < i {
                } else if k > i {
                    assert(name@[i as int] == '/');
                }
            }
            assert(below_top_dir(name@) == (if i == name@.len() - 1 {
                None::<Seq<char>>
            } else {
                Some(name@.subrange(i + 1, name@.len() as int))
            }));
            if i + 1 == name.len() {
                return None;
            }
            let mut rest: Vec<char> = Vec::new();
            let mut j: usize = i + 1;
            while j < name.len()
                invariant
                    i < j <= name@.len(),
                    rest@ == name@.subrange(i + 1, j as int),
                decreases name@.len() - j,
            {
                rest.push(name[j]);
                j += 1;
            }
            return Some(rest);
        }
        i += 1;
    }
    assert(!exists|k: int| is_first_slash(name@, k));
    None
}

/// One entry of an archive as it is stored: its name, whether it is a
/// directory, and its contents.
pub struct ArchiveEntry {
    pub name: Vec<char>,
    pub is_dir: bool,
    pub data: Vec<u8>,
}

impl ArchiveEntry {
    pub open spec fn view(&self) -> (Seq<char>, bool, Seq<u8>) {
        (self.name@, self.is_dir, self.data@)
    }
}

/// What unpacking writes for one entry: a path below the target directory,
/// whether it is a directory, and the contents of a file.
pub struct PlannedFile {
    pub path: Vec<char>,
    pub is_dir: bool,
    pub data: Vec<u8>,
}

impl PlannedFile {
    pub open spec fn view(&self) -> (Seq<char>, bool, Seq<u8>) {
        (self.path@, self.is_dir, self.data@)
    }
}

/// Why an archive could not be unpacked.
#[derive(PartialEq, Eq, Structural, Clone, Copy, Debug)]
pub enum ArchiveError {
    /// The bytes are not an archive that can be read.
    Unreadable,
}

#[verifier::external_type_specification]
#[verifier::external_body]
pub struct ExZipError(zip::result::ZipError);

/// The entries of the zip archive held in `bytes`, in the archive's order:
/// name, whether it is a directory, contents.
pub uninterp spec fn zip_entries(bytes: Seq<u8>) -> Seq<(Seq<char>, bool, Seq<u8>)>;

pub open spec fn entries_view(v: Seq<ArchiveEntry>) -> Seq<(Seq<char>, bool, Seq<u8>)> {
    v.map_values(|e: ArchiveEntry| e.view())
}

pub open spec fn planned_view(v: Seq<PlannedFile>) -> Seq<(Seq<char>, bool, Seq<u8>)> {
    v.map_values(|f: PlannedFile| f.view())
}

/// Relies on zip's `ZipArchive::new`, `len` and `by_index`, and on the
/// `name`, `is_dir` and `Read` of the entries it hands out: when the archive
/// can be read, its entries, which depend on the bytes alone.
#[verifier::external_body]
fn read_zip(bytes: Vec<u8>) -> (r: Result<Vec<ArchiveEntry>, zip::result::ZipError>)
    ensures
        r is Ok ==> entries_view(r->Ok_0@) == zip_entries(bytes@),
{
    let mut archive = zip::ZipArchive::new(std::io::Cursor::new(bytes))?;
    let mut entries = Vec::new();
    for i in 0..archive.len() {
        let mut entry = archive.by_index(i)?;
        let name = entry.name()?.chars().collect();
        let is_dir = entry.is_dir();
        let mut data = Vec::new();
        entry.read_to_end(&mut data)?;
        entries.push(ArchiveEntry { name, is_dir, data });
    }
    Ok(entries)
}

/// What is written for `entries`: each entry below the top directory, under
/// its path there, in order; the top directory itself and names outside it
/// are left out.
pub open spec fn plan_of(entries: Seq<(Seq<char>, bool, Seq<u8>)>) -> Seq<(Seq<char>, bool, Seq<u8>)>
    decreases entries.len(),
{
    if entries.len() == 0 {
        Seq::empty()
    } else {
        let e = entries.last();
        match below_top_dir(e.0) {
            Some(p) => plan_of(entries.drop_last()).push((p, e.1, e.2)),
            None => plan_of(entries.drop_last()),
        }
    }
}

/// Lays out the entries read from an archive below a target directory,
/// dropping the archive's top directory from each path.
pub fn plan_entries(entries: Vec<ArchiveEntry>) -> (r: Vec<PlannedFile>)
    ensures
        planned_view(r@) == plan_of(entries_view(entries@)),
{
    let ghost all = entries_view(entries@);
    let mut rest = entries;
    let mut out: Vec<PlannedFile> = Vec::new();
    let ghost n = all.len();
    while rest.len() > 0
        invariant
            rest@.len() <= n,
            n == all.len(),
            entries_view(rest@) == all.subrange(n - rest@.len(), n as int),
            planned_view(out@) == plan_of(all.subrange(0, n - rest@.len())),
        decreases rest@.len(),
    {
        let ghost done = n - rest@.len();
        let ghost old_rest = rest@;
        assert(entries_view(old_rest)[0] == all.subrange(done, n as int)[0]);
        let e = rest.remove(0);
        assert(e.view() == all[done]);
        assert(all.subrange(0, done + 1).drop_last() =~= all.subrange(0, done));
        assert forall|j: int| 0 <= j < rest@.len() implies entries_view(rest@)[j]
            == all.subrange(n - rest@.len(), n as int)[j] by {
            assert(rest@[j] == old_rest[j + 1]);
            assert(entries_view(old_rest)[j + 1] == all.subrange(done, n as int)[j + 1]);
        }
        assert(entries_view(rest@) =~= all.subrange(n - rest@.len(), n as int));
        let ghost before = out@;
        match strip_top_dir(&e.name) {
            Some(path) => {
                out.push(PlannedFile { path, is_dir: e.is_dir, data: e.data });
                assert(planned_view(out@) =~= planned_view(before).push(out@.last().view()));
            },
            None => {},
        }
    }
    assert(all.subrange(0, n as int) =~= all);
    out
}

/// Reads the zip archive in `bytes` and lays its entries out below a target
/// directory, as `plan_entries` does; fails when zip cannot read it.
pub fn plan_extraction(bytes: Vec<u8>) -> (r: Result<Vec<PlannedFile>, ArchiveError>)
    ensures
        r is Ok ==> planned_view(r->Ok_0@) == plan_of(zip_entries(bytes@)),
{
    match read_zip(bytes) {
        Ok(entries) => Ok(plan_entries(entries)),
        Err(_) => Err(ArchiveError::Unreadable),
    }
}

} // verus!
