//! Picking the lbrynet executable out of the downloaded release archive.
use vstd::prelude::*;
use std::io::Read;

use crate::daemon::AppError;
use crate::text::{ascii_lower_chars, ascii_lower_seq, ends_with_chars, has_suffix, str_chars, to_owned};

verus! {

broadcast use vstd::string::group_string_axioms;

#[verifier::external_type_specification]
#[verifier::external_body]
#[verifier::reject_recursive_types(R)]
pub struct ExZipArchive<R>(zip::ZipArchive<R>);

#[verifier::external_type_specification]
#[verifier::external_body]
#[verifier::reject_recursive_types(T)]
pub struct ExCursor<T>(std::io::Cursor<T>);

#[verifier::external_type_specification]
#[verifier::external_body]
pub struct ExZipError(zip::result::ZipError);

/// An archive read from memory.
pub type MemArchive = zip::ZipArchive<std::io::Cursor<Vec<u8>>>;

/// The entries of an archive, in index order. An entry is `None` when the
/// zip crate cannot open it (`by_index` fails: an encrypted entry, an
/// unsupported compression method, a damaged local header); otherwise it is
/// the name the crate reports and the uncompressed contents, `None` when
/// reading them fails (a decompression or checksum error).
pub uninterp spec fn archive_entries(a: zip::ZipArchive<std::io::Cursor<Vec<u8>>>) -> Seq<Option<(Seq<char>, Option<Seq<u8>>)>>;

/// The entries, as above, of the zip archive held by `bytes`; `None` when
/// `bytes` cannot be read as a zip archive at all.
pub uninterp spec fn zip_entries(bytes: Seq<u8>) -> Option<Seq<Option<(Seq<char>, Option<Seq<u8>>)>>>;

/// `zip::ZipArchive::new` on an in-memory cursor: reads the central
/// directory of `bytes`. It succeeds exactly when `bytes` holds a readable
/// zip archive, and the archive it returns has the entries that `bytes`
/// holds (the parse depends on the bytes alone).
#[verifier::external_body]
fn open_archive(bytes: Vec<u8>) -> (r: Result<MemArchive, zip::result::ZipError>)
    ensures
        r is Ok <==> zip_entries(bytes@) is Some,
        r matches Ok(a) ==> zip_entries(bytes@) == Some(archive_entries(a)),
{
    zip::ZipArchive::new(std::io::Cursor::new(bytes))
}

/// `ZipArchive::len`: the number of entries.
#[verifier::external_body]
fn archive_len(a: &MemArchive) -> (n: usize)
    ensures
        n == archive_entries(*a).len(),
{
    a.len()
}

/// `ZipArchive::by_index` followed by `ZipFile::name`: the name of entry `i`.
/// Opening an entry moves the reader but leaves the entries as they are; it
/// fails for an index past the end and for an entry that cannot be opened.
#[verifier::external_body]
fn entry_name(a: &mut MemArchive, i: usize) -> (r: Result<String, zip::result::ZipError>)
    ensures
        archive_entries(*final(a)) == archive_entries(*old(a)),
        r is Ok <==> i < archive_entries(*old(a)).len() && archive_entries(*old(a))[i as int] is Some,
        r matches Ok(s) ==> archive_entries(*old(a))[i as int] matches Some(e) && s@ == e.0,
{
    match a.by_index(i) {
        Ok(f) => Ok(f.name().to_string()),
        Err(e) => Err(e),
    }
}

/// `ZipArchive::by_index` followed by `Read::read_to_end` on the entry: the
/// uncompressed contents of entry `i`. The outer error is the zip crate's
/// (the entry cannot be opened), the inner one a read (decompression or
/// checksum) error.
#[verifier::external_body]
fn entry_data(a: &mut MemArchive, i: usize) -> (r: Result<
    Result<Vec<u8>, std::io::Error>,
    zip::result::ZipError,
>)
    ensures
        archive_entries(*final(a)) == archive_entries(*old(a)),
        r is Ok <==> i < archive_entries(*old(a)).len() && archive_entries(*old(a))[i as int] is Some,
        r matches Ok(x) ==> archive_entries(*old(a))[i as int] matches Some(e) && (x is Ok <==> e.1 is Some),
        r matches Ok(Ok(d)) ==> archive_entries(*old(a))[i as int] matches Some(e) && e.1 == Some(d@),
{
    match a.by_index(i) {
        Ok(mut f) => {
            let mut buf: Vec<u8> = Vec::new();
            match f.read_to_end(&mut buf) {
                Ok(_) => Ok(Ok(buf)),
                Err(e) => Ok(Err(e)),
            }
        },
        Err(e) => Err(e),
    }
}

/// `<ZipError as Display>::fmt` through `to_string`. Nothing is claimed of the text.
#[verifier::external_body]
fn zip_error_text(e: &zip::result::ZipError) -> String {
    e.to_string()
}

/// Message when the archive holds no lbrynet executable.
pub const MSG_BINARY_MISSING: &'static str = "could not find lbrynet binary inside archive";

/// An archive entry that is the lbrynet executable (by name, case-insensitively).
pub open spec fn is_lbrynet_entry(name: Seq<char>) -> bool {
    let l = ascii_lower_seq(name);
    has_suffix(l, "lbrynet.exe"@) || has_suffix(l, "/lbrynet.exe"@) || l == "lbrynet"@ || has_suffix(
        l,
        "/lbrynet"@,
    )
}

/// Whether an archive entry name denotes the lbrynet executable.
pub fn is_lbrynet_entry_exec(name: &str) -> (b: bool)
    ensures
        b == is_lbrynet_entry(name@),
{
    let v = str_chars(name);
    let l = ascii_lower_chars(&v);
    let exe = str_chars("lbrynet.exe");
    let slash_exe = str_chars("/lbrynet.exe");
    let bare = str_chars("lbrynet");
    let slash_bare = str_chars("/lbrynet");
    if ends_with_chars(&l, &exe) || ends_with_chars(&l, &slash_exe) {
        return true;
    }
    let same = l.len() == bare.len() && ends_with_chars(&l, &bare);
    assert(same == (l@ == "lbrynet"@)) by {
        if l@.len() == bare@.len() {
            assert(l@.subrange(0, l@.len() as int) =~= l@);
        }
    }
    same || ends_with_chars(&l, &slash_bare)
}

/// An entry that the search for the executable passes over: it opens, and
/// its name does not denote lbrynet.
pub open spec fn passed_over(e: Option<(Seq<char>, Option<Seq<u8>>)>) -> bool {
    e matches Some(p) && !is_lbrynet_entry(p.0)
}

/// Where the search for the executable, going through the entries from
/// index `from` on, stops: at the first entry that cannot be opened or is
/// named like lbrynet, or at the end (`es.len()`).
pub open spec fn first_stop(es: Seq<Option<(Seq<char>, Option<Seq<u8>>)>>, from: int) -> int
    decreases es.len() - from,
{
    if from < 0 || from >= es.len() {
        es.len() as int
    } else if passed_over(es[from]) {
        first_stop(es, from + 1)
    } else {
        from
    }
}

/// Finds the first entry of `archive` named like the lbrynet executable,
/// opening the entries in order. Fails with the zip crate's error at the
/// first entry that cannot be opened, and with `MSG_BINARY_MISSING` when no
/// entry matches.
pub fn select_binary_entry(archive: &mut MemArchive) -> (r: Result<usize, AppError>)
    ensures
        archive_entries(*final(archive)) == archive_entries(*old(archive)),
        ({
            let es = archive_entries(*old(archive));
            let k = first_stop(es, 0);
            &&& (k == es.len() ==> (r matches Err(AppError::Zip(m)) && m@ == MSG_BINARY_MISSING@))
            &&& (k < es.len() && es[k] is None ==> (r matches Err(AppError::Zip(_))))
            &&& (k < es.len() && es[k] is Some ==> (r matches Ok(x) && x == k))
        }),
{
    let ghost es = archive_entries(*archive);
    let n = archive_len(archive);
    let mut i: usize = 0;
    let mut found: Option<Result<usize, AppError>> = None;
    while i < n && found.is_none()
        invariant
            n == es.len(),
            i <= n,
            archive_entries(*archive) == es,
            found is None ==> first_stop(es, 0) == first_stop(es, i as int),
            found matches Some(Ok(k)) ==> k == first_stop(es, 0) && k < n && es[k as int] is Some,
            found matches Some(Err(e)) ==> e is Zip && first_stop(es, 0) < n && es[first_stop(
                es,
                0,
            )] is None,
        decreases n - i, if found is None { 1int } else { 0int },
    {
        match entry_name(archive, i) {
            Ok(name) => {
                if is_lbrynet_entry_exec(name.as_str()) {
                    found = Some(Ok(i));
                } else {
                    i = i + 1;
                }
            },
            Err(e) => {
                found = Some(Err(AppError::Zip(zip_error_text(&e))));
            },
        }
    }
    match found {
        Some(r) => r,
        None => Err(AppError::Zip(to_owned(MSG_BINARY_MISSING))),
    }
}

/// Extracts the lbrynet executable from the downloaded release archive: the
/// contents of the first entry whose name denotes it. An archive that cannot
/// be read, an entry met on the way that cannot be opened, or an archive
/// without the executable gives `AppError::Zip` (the last with
/// `MSG_BINARY_MISSING`); a failure to read the executable's contents gives
/// `AppError::Io`.
pub fn extract_binary(bytes: Vec<u8>) -> (r: Result<Vec<u8>, AppError>)
    ensures
        zip_entries(bytes@) is None ==> r matches Err(AppError::Zip(_)),
        zip_entries(bytes@) matches Some(es) ==> ({
            let k = first_stop(es, 0);
            &&& (k == es.len() ==> (r matches Err(AppError::Zip(m)) && m@ == MSG_BINARY_MISSING@))
            &&& (k < es.len() && es[k] is None ==> (r matches Err(AppError::Zip(_))))
            &&& (k < es.len() && es[k] is Some && es[k]->Some_0.1 is None ==> (r matches Err(AppError::Io(_))))
            &&& (k < es.len() && es[k] is Some && es[k]->Some_0.1 is Some ==> (r matches Ok(x) && Some(x@)
                == es[k]->Some_0.1))
        }),
{
    let mut archive = match open_archive(bytes) {
        Ok(a) => a,
        Err(e) => {
            return Err(AppError::Zip(zip_error_text(&e)));
        },
    };
    let idx = match select_binary_entry(&mut archive) {
        Ok(i) => i,
        Err(e) => {
            return Err(e);
        },
    };
    match entry_data(&mut archive, idx) {
        Ok(Ok(d)) => Ok(d),
        Ok(Err(e)) => Err(AppError::Io(e)),
        Err(e) => Err(AppError::Zip(zip_error_text(&e))),
    }
}

/// Law: the search stops at an entry that cannot be opened or is named like
/// lbrynet, having passed over every entry before it; or it passes over all
/// of them.
pub proof fn law_first_stop(es: Seq<Option<(Seq<char>, Option<Seq<u8>>)>>)
    ensures
        0 <= first_stop(es, 0) <= es.len(),
        forall|j: int| 0 <= j < first_stop(es, 0) ==> passed_over(#[trigger] es[j]),
        first_stop(es, 0) < es.len() ==> !passed_over(es[first_stop(es, 0)]),
{
    lemma_first_stop_from(es, 0);
}

proof fn lemma_first_stop_from(es: Seq<Option<(Seq<char>, Option<Seq<u8>>)>>, from: int)
    requires
        0 <= from <= es.len(),
    ensures
        from <= first_stop(es, from) <= es.len(),
        forall|j: int| from <= j < first_stop(es, from) ==> passed_over(#[trigger] es[j]),
        first_stop(es, from) < es.len() ==> !passed_over(es[first_stop(es, from)]),
    decreases es.len() - from,
{
    if from < es.len() && passed_over(es[from]) {
        lemma_first_stop_from(es, from + 1);
    }
}

} // verus!
