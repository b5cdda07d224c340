//! Unpacking of an uploaded archive: what to create, in which order.
use crate::error::Error;
use crate::paths::{join_path, spec_join_path};
use crate::text::{is_prefix, starts_with};
use vstd::prelude::*;

verus! {

#[verifier::external_type_specification]
#[verifier::external_body]
pub struct ExZipError(zip::result::ZipError);

/// An entry of an archive: its name, whether it is a directory, and its bytes.
#[derive(Debug, Clone)]
pub struct ArchiveEntry {
    pub name: String,
    pub is_dir: bool,
    pub data: Vec<u8>,
}

/// An entry as plain values.
pub open spec fn entry_view(e: ArchiveEntry) -> (Seq<char>, bool, Seq<u8>) {
    (e.name@, e.is_dir, e.data@)
}

/// What unpacking writes: a directory, or a file with its bytes.
#[derive(Debug, Clone, PartialEq)]
pub enum Extraction {
    Dir(String),
    File(String, Vec<u8>),
}

/// The number of entries that the zip archive `bytes` lists, if it can be read.
pub uninterp spec fn zip_len(bytes: Seq<u8>) -> Option<nat>;

/// Entry `i` of the zip archive `bytes`, if it can be read: name, whether it is
/// a directory, and its decompressed bytes.
pub uninterp spec fn zip_entry(bytes: Seq<u8>, i: int) -> Option<(Seq<char>, bool, Seq<u8>)>;

/// Relies on zip::ZipArchive::new over the bytes and ZipArchive::len: the
/// number of entries of the central directory; the result depends on the
/// bytes alone.
#[verifier::external_body]
fn archive_len(bytes: &Vec<u8>) -> (r: Result<usize, zip::result::ZipError>)
    ensures
        r is Ok <==> zip_len(bytes@) is Some,
        r is Ok ==> r->Ok_0 as nat == zip_len(bytes@)->Some_0,
{
    Ok(zip::ZipArchive::new(std::io::Cursor::new(bytes.as_slice()))?.len())
}

/// Relies on zip::ZipArchive::new, ZipArchive::by_index, ZipFile::name,
/// ZipFile::is_dir and reading the entry to its end: the result depends on the
/// bytes alone, and an entry is a directory when its name ends with a slash or
/// a backslash.
#[verifier::external_body]
fn archive_entry(bytes: &Vec<u8>, i: usize) -> (r: Result<ArchiveEntry, zip::result::ZipError>)
    ensures
        r is Ok <==> zip_entry(bytes@, i as int) is Some,
        r is Ok ==> entry_view(r->Ok_0) == zip_entry(bytes@, i as int)->Some_0,
        r is Ok ==> r->Ok_0.is_dir == (r->Ok_0.name@.len() > 0 && (r->Ok_0.name@.last() == '/'
            || r->Ok_0.name@.last() == '\\')),
{
    let mut a = zip::ZipArchive::new(std::io::Cursor::new(bytes.as_slice()))?;
    let mut f = a.by_index(i)?;
    let mut data = Vec::new();
    std::io::Read::read_to_end(&mut f, &mut data)?;
    Ok(ArchiveEntry { name: f.name().to_owned(), is_dir: f.is_dir(), data })
}

/// The entries of the archive `bytes`, when it and every entry can be read.
pub open spec fn decoded(bytes: Seq<u8>) -> Option<Seq<(Seq<char>, bool, Seq<u8>)>> {
    match zip_len(bytes) {
        None => None,
        Some(n) => if forall|i: int| 0 <= i < n ==> (#[trigger] zip_entry(bytes, i)) is Some {
            Some(Seq::new(n, |i: int| zip_entry(bytes, i)->Some_0))
        } else {
            None
        },
    }
}

/// Entries under this prefix hold platform metadata and are not unpacked.
pub open spec fn metadata_prefix() -> Seq<char> {
    "__MACOSX"@
}

/// The entries that are unpacked, of one kind, in order.
pub open spec fn unpacked(entries: Seq<(Seq<char>, bool, Seq<u8>)>, dirs: bool) -> Seq<(Seq<char>, bool, Seq<u8>)>
    decreases entries.len(),
{
    if entries.len() == 0 {
        entries
    } else {
        let e = entries.last();
        if !is_prefix(metadata_prefix(), e.0) && e.1 == dirs {
            unpacked(entries.drop_last(), dirs).push(e)
        } else {
            unpacked(entries.drop_last(), dirs)
        }
    }
}

/// The extraction of an entry into `out_dir`.
pub open spec fn extraction_of(e: (Seq<char>, bool, Seq<u8>), out_dir: Seq<char>, x: Extraction) -> bool {
    if e.1 {
        x is Dir && x->Dir_0@ == spec_join_path(out_dir, e.0)
    } else {
        x is File && x->File_0@ == spec_join_path(out_dir, e.0) && x->File_1@ == e.2
    }
}

/// The plan writes the directories, then the files, each in archive order.
pub open spec fn plan_of(entries: Seq<(Seq<char>, bool, Seq<u8>)>, out_dir: Seq<char>, plan: Seq<Extraction>) -> bool {
    let dirs = unpacked(entries, true);
    let files = unpacked(entries, false);
    &&& plan.len() == dirs.len() + files.len()
    &&& forall|i: int| 0 <= i < dirs.len() ==> extraction_of(dirs[i], out_dir, #[trigger] plan[i])
    &&& forall|i: int|
        0 <= i < files.len() ==> extraction_of(files[i], out_dir, #[trigger] plan[dirs.len() + i])
}

fn collect_kind(entries: &Vec<ArchiveEntry>, out_dir: &str, dirs: bool, plan: &mut Vec<Extraction>)
    ensures
        final(plan)@.len() == old(plan)@.len() + unpacked(entries@.map_values(|e: ArchiveEntry| entry_view(e)), dirs).len(),
        forall|i: int| 0 <= i < old(plan)@.len() ==> final(plan)@[i] == old(plan)@[i],
        forall|i: int|
            0 <= i < unpacked(entries@.map_values(|e: ArchiveEntry| entry_view(e)), dirs).len() ==> extraction_of(
                unpacked(entries@.map_values(|e: ArchiveEntry| entry_view(e)), dirs)[i],
                out_dir@,
                #[trigger] final(plan)@[old(plan)@.len() + i],
            ),
{
    let ghost start = plan@;
    let n = entries.len();
    let mut i: usize = 0;
    assert(entries@.subrange(0, 0) =~= Seq::<ArchiveEntry>::empty());
    while i < n
        invariant
            n == entries@.len(),
            i <= n,
            plan@.len() == start.len() + unpacked(entries@.subrange(0, i as int).map_values(|e: ArchiveEntry| entry_view(e)), dirs).len(),
            forall|k: int| 0 <= k < start.len() ==> plan@[k] == start[k],
            forall|k: int|
                0 <= k < unpacked(entries@.subrange(0, i as int).map_values(|e: ArchiveEntry| entry_view(e)), dirs).len() ==> extraction_of(
                    unpacked(entries@.subrange(0, i as int).map_values(|e: ArchiveEntry| entry_view(e)), dirs)[k],
                    out_dir@,
                    #[trigger] plan@[start.len() + k],
                ),
        decreases n - i,
    {
        let e = &entries[i];
        let ghost pre = entries@.subrange(0, i + 1);
        assert(pre.drop_last() =~= entries@.subrange(0, i as int));
        assert(pre.last() == entries@[i as int]);
        assert(pre.map_values(|e: ArchiveEntry| entry_view(e)).drop_last() =~= entries@.subrange(0, i as int).map_values(
            |e: ArchiveEntry| entry_view(e),
        ));
        if !starts_with(e.name.as_str(), "__MACOSX") && e.is_dir == dirs {
            let path = join_path(out_dir, e.name.as_str());
            if e.is_dir {
                plan.push(Extraction::Dir(path));
            } else {
                plan.push(Extraction::File(path, e.data.clone()));
            }
        }
        i = i + 1;
    }
    assert(entries@.subrange(0, n as int) =~= entries@);
}

/// What unpacking the entries into `out_dir` writes: every directory entry,
/// then every file entry, in archive order, leaving out the entries under the
/// platform metadata prefix.
pub fn unpack_plan(entries: &Vec<ArchiveEntry>, out_dir: &str) -> (r: Vec<Extraction>)
    ensures
        plan_of(entries@.map_values(|e: ArchiveEntry| entry_view(e)), out_dir@, r@),
{
    let mut plan: Vec<Extraction> = Vec::new();
    collect_kind(entries, out_dir, true, &mut plan);
    let ghost first = plan@;
    let ghost dirs = unpacked(entries@.map_values(|e: ArchiveEntry| entry_view(e)), true);
    assert forall|i: int| 0 <= i < dirs.len() implies extraction_of(dirs[i], out_dir@, #[trigger] first[i]) by {
        assert(first[0 + i] == first[i]);
    }
    collect_kind(entries, out_dir, false, &mut plan);
    assert forall|i: int| 0 <= i < dirs.len() implies extraction_of(dirs[i], out_dir@, #[trigger] plan@[i]) by {
        assert(plan@[i] == first[i]);
    }
    plan
}

/// Decodes an archive and says what unpacking it into `out_dir` writes; an
/// archive that cannot be decoded, or an entry that cannot be read, is a
/// decompression error.
pub fn decompress(archive: Vec<u8>, out_dir: &str) -> (r: Result<Vec<Extraction>, Error>)
    ensures
        r is Ok <==> decoded(archive@) is Some,
        r is Err ==> r->Err_0 is DecompressionError,
        r is Ok ==> plan_of(decoded(archive@)->Some_0, out_dir@, r->Ok_0@),
{
    let n = match archive_len(&archive) {
        Ok(n) => n,
        Err(_) => return Err(Error::DecompressionError("failed to decompress zip archive".to_owned())),
    };
    let mut entries: Vec<ArchiveEntry> = Vec::new();
    let mut i: usize = 0;
    while i < n
        invariant
            i <= n,
            zip_len(archive@) == Some(n as nat),
            entries@.len() == i,
            forall|k: int| 0 <= k < i ==> (#[trigger] zip_entry(archive@, k)) is Some,
            forall|k: int| 0 <= k < i ==> #[trigger] entry_view(entries@[k]) == zip_entry(archive@, k)->Some_0,
        decreases n - i,
    {
        match archive_entry(&archive, i) {
            Ok(e) => {
                let ghost before = entries@;
                let ghost ge = e;
                assert(zip_entry(archive@, i as int) is Some && entry_view(ge) == zip_entry(archive@, i as int)->Some_0);
                entries.push(e);
                assert(entries@[i as int] == ge);
                assert forall|k: int| 0 <= k < i + 1 implies (#[trigger] zip_entry(archive@, k)) is Some by {
                    if k < i {
                        assert(entry_view(before[k]) == zip_entry(archive@, k)->Some_0);
                    }
                }
                assert forall|k: int| 0 <= k < i + 1 implies #[trigger] entry_view(entries@[k]) == zip_entry(
                    archive@,
                    k,
                )->Some_0 by {
                    if k < i {
                        assert(entries@[k] == before[k]);
                        assert(entry_view(before[k]) == zip_entry(archive@, k)->Some_0);
                    } else {
                        assert(entries@[k] == ge);
                    }
                }
            },
            Err(_) => {
                assert(!(zip_entry(archive@, i as int) is Some));
                return Err(Error::DecompressionError("decompression failure".to_owned()));
            },
        }
        i = i + 1;
    }
    let plan = unpack_plan(&entries, out_dir);
    proof {
        assert(entries@.map_values(|e: ArchiveEntry| entry_view(e)) =~= decoded(archive@)->Some_0);
    }
    Ok(plan)
}

} // verus!
