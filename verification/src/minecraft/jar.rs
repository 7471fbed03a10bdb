//! Reading the native libraries out of a jar: the archive is parsed by the
//! `zip` crate; which entries are kept, under which names, and the errors are
//! decided here. Reading the jar from disk and writing the files out run
//! outside this library.

use std::io::Cursor;
use std::io::Read;
use vstd::prelude::*;

use crate::minecraft::launcher::{native_entry_target, spec_is_native_entry};
use crate::minecraft::{custom_error_with, spec_custom_error, McError};
use crate::text::{chars_of, extend_str, spec_last_segment, string_of};

verus! {

/// A zip archive of the `zip` crate, read from bytes in memory. It is held in
/// a private field of this struct, and the bytes it was opened on are named
/// by `spec_archive_bytes`.
#[verifier::external_body]
pub struct JarArchive {
    inner: zip::ZipArchive<Cursor<Vec<u8>>>,
}

/// The bytes an archive was opened on.
pub uninterp spec fn spec_archive_bytes(a: JarArchive) -> Seq<u8>;

/// What `zip::ZipArchive::new` gives on these bytes: nothing wrong, or the
/// text of its error.
pub uninterp spec fn spec_zip_open(bytes: Seq<u8>) -> Result<(), Seq<char>>;

/// The number of entries `zip::ZipArchive::len` reports for an archive
/// opened on these bytes.
pub uninterp spec fn spec_zip_len(bytes: Seq<u8>) -> nat;

/// The name of entry `i` (`ZipArchive::by_index`, then `ZipFile::name`), or
/// the text of the error `by_index` gives.
pub uninterp spec fn spec_zip_entry_name(bytes: Seq<u8>, i: int) -> Result<Seq<char>, Seq<char>>;

/// The content of entry `i` (`ZipArchive::by_index`, then
/// `Read::read_to_end`), or the text of the error.
pub uninterp spec fn spec_zip_entry_data(bytes: Seq<u8>, i: int) -> Result<Seq<u8>, Seq<char>>;

/// Calls `zip::ZipArchive::new` on the bytes. Claimed: it succeeds exactly
/// when `spec_zip_open` says so, with that error text otherwise, and the
/// archive is the one of these bytes.
#[verifier::external_body]
fn zip_open(bytes: Vec<u8>) -> (r: Result<JarArchive, String>)
    ensures
        match r {
            Ok(a) => spec_zip_open(bytes@) == Ok::<(), Seq<char>>(()) && spec_archive_bytes(a)
                == bytes@,
            Err(m) => spec_zip_open(bytes@) == Err::<(), Seq<char>>(m@),
        },
{
    match zip::ZipArchive::new(Cursor::new(bytes)) {
        Ok(inner) => Ok(JarArchive { inner }),
        Err(e) => Err(e.to_string()),
    }
}

/// Calls `zip::ZipArchive::len`. Claimed: the number of entries named
/// `spec_zip_len`.
#[verifier::external_body]
fn zip_len(a: &JarArchive) -> (n: usize)
    ensures
        n == spec_zip_len(spec_archive_bytes(*a)),
{
    a.inner.len()
}

/// Calls `ZipArchive::by_index` and `ZipFile::name`. Claimed: the result
/// named `spec_zip_entry_name`; the archive stays the one of its bytes.
#[verifier::external_body]
fn zip_entry_name(a: &mut JarArchive, i: usize) -> (r: Result<String, String>)
    ensures
        spec_archive_bytes(*final(a)) == spec_archive_bytes(*old(a)),
        match r {
            Ok(n) => spec_zip_entry_name(spec_archive_bytes(*old(a)), i as int) == Ok::<
                Seq<char>,
                Seq<char>,
            >(n@),
            Err(m) => spec_zip_entry_name(spec_archive_bytes(*old(a)), i as int) == Err::<
                Seq<char>,
                Seq<char>,
            >(m@),
        },
{
    match a.inner.by_index(i) {
        Ok(entry) => Ok(entry.name().to_string()),
        Err(e) => Err(e.to_string()),
    }
}

/// Calls `ZipArchive::by_index` and `Read::read_to_end` on the entry.
/// Claimed: the result named `spec_zip_entry_data`; the archive stays the one
/// of its bytes.
#[verifier::external_body]
fn zip_entry_data(a: &mut JarArchive, i: usize) -> (r: Result<Vec<u8>, String>)
    ensures
        spec_archive_bytes(*final(a)) == spec_archive_bytes(*old(a)),
        match r {
            Ok(d) => spec_zip_entry_data(spec_archive_bytes(*old(a)), i as int) == Ok::<
                Seq<u8>,
                Seq<char>,
            >(d@),
            Err(m) => spec_zip_entry_data(spec_archive_bytes(*old(a)), i as int) == Err::<
                Seq<u8>,
                Seq<char>,
            >(m@),
        },
{
    let mut buffer = Vec::new();
    match a.inner.by_index(i) {
        Ok(mut entry) => match entry.read_to_end(&mut buffer) {
            Ok(_) => Ok(buffer),
            Err(e) => Err(e.to_string()),
        },
        Err(e) => Err(e.to_string()),
    }
}

/// The files as text: their names and contents.
pub open spec fn spec_file_views(v: Seq<(String, Vec<u8>)>) -> Seq<(Seq<char>, Seq<u8>)> {
    v.map_values(|f: (String, Vec<u8>)| (f.0@, f.1@))
}

/// The native files among the first `k` entries of the archive on `bytes`,
/// in order, each under the name after its last `/`; or the message of the
/// first error: `Zip entry: <error>` when an entry cannot be opened,
/// `Read <name>: <error>` when a native entry cannot be read.
pub open spec fn spec_native_files(bytes: Seq<u8>, k: nat) -> Result<Seq<(Seq<char>, Seq<u8>)>, Seq<char>>
    decreases k,
{
    if k == 0 {
        Ok(Seq::empty())
    } else {
        match spec_native_files(bytes, (k - 1) as nat) {
            Err(m) => Err(m),
            Ok(acc) => match spec_zip_entry_name(bytes, k - 1) {
                Err(e) => Err("Zip entry: "@ + e),
                Ok(name) => if spec_is_native_entry(name) {
                    match spec_zip_entry_data(bytes, k - 1) {
                        Err(e) => Err("Read "@ + name + ": "@ + e),
                        Ok(d) => Ok(acc.push((spec_last_segment(name), d))),
                    }
                } else {
                    Ok(acc)
                },
            },
        }
    }
}

/// The native files taken out of the first `k` entries before the first
/// error, if any.
pub open spec fn spec_extracted(bytes: Seq<u8>, k: nat) -> Seq<(Seq<char>, Seq<u8>)>
    decreases k,
{
    match spec_native_files(bytes, k) {
        Ok(files) => files,
        Err(_) => if k == 0 {
            Seq::empty()
        } else {
            spec_extracted(bytes, (k - 1) as nat)
        },
    }
}

proof fn lemma_native_files_error_stays(bytes: Seq<u8>, k: nat, l: nat)
    requires
        k <= l,
        spec_native_files(bytes, k) is Err,
    ensures
        spec_native_files(bytes, l) == spec_native_files(bytes, k),
        spec_extracted(bytes, l) == spec_extracted(bytes, k),
    decreases l - k,
{
    if k < l {
        lemma_native_files_error_stays(bytes, k, (l - 1) as nat);
    }
}

/// What was taken out of a jar: the native files read before the first
/// error, and that error, if any.
#[derive(Debug)]
pub struct NativeFiles {
    pub files: Vec<(String, Vec<u8>)>,
    pub error: Option<McError>,
}

/// The native library files of a jar whose content is `jar` (`display` is how
/// the jar is named in errors): every entry that is a native library, in
/// archive order, under the name after its last `/`, with its content, up to
/// the first error, and that error. An archive that cannot be read gives no
/// file and `Zip <display>: <error>`; the entries' errors are those of
/// `spec_native_files`.
pub fn native_files(jar: Vec<u8>, display: &str) -> (r: NativeFiles)
    ensures
        match spec_zip_open(jar@) {
            Err(e) => {
                &&& r.files@.len() == 0
                &&& r.error matches Some(err) && spec_custom_error(err, "Zip "@ + display@ + ": "@ + e)
            },
            Ok(()) => {
                &&& spec_file_views(r.files@) == spec_extracted(jar@, spec_zip_len(jar@))
                &&& match spec_native_files(jar@, spec_zip_len(jar@)) {
                    Ok(_) => r.error is None,
                    Err(m) => r.error matches Some(err) && spec_custom_error(err, m),
                }
            },
        },
{
    let ghost bytes = jar@;
    let mut archive = match zip_open(jar) {
        Ok(a) => a,
        Err(e) => {
            let mut m = chars_of("Zip ");
            extend_str(&mut m, display);
            extend_str(&mut m, ": ");
            let err = custom_error_with(string_of(&m).as_str(), e.as_str());
            return NativeFiles { files: Vec::new(), error: Some(err) };
        },
    };
    let n = zip_len(&archive);
    let mut out: Vec<(String, Vec<u8>)> = Vec::new();
    assert(spec_file_views(out@) =~= Seq::<(Seq<char>, Seq<u8>)>::empty());
    let mut i: usize = 0;
    while i < n
        invariant
            i <= n,
            n == spec_zip_len(bytes),
            spec_archive_bytes(archive) == bytes,
            bytes == jar@,
            spec_zip_open(bytes) == Ok::<(), Seq<char>>(()),
            spec_native_files(bytes, i as nat) == Ok::<Seq<(Seq<char>, Seq<u8>)>, Seq<char>>(
                spec_file_views(out@),
            ),
        decreases n - i,
    {
        let name = match zip_entry_name(&mut archive, i) {
            Ok(name) => name,
            Err(e) => {
                proof {
                    assert(spec_native_files(bytes, (i + 1) as nat) == Err::<
                        Seq<(Seq<char>, Seq<u8>)>,
                        Seq<char>,
                    >("Zip entry: "@ + e@));
                    assert(spec_extracted(bytes, i as nat) == spec_file_views(out@));
                            assert(((i + 1) as nat - 1) as nat == i as nat);
                            assert(spec_extracted(bytes, (i + 1) as nat) == spec_file_views(out@));
                    lemma_native_files_error_stays(bytes, (i + 1) as nat, n as nat);
                }
                let err = custom_error_with("Zip entry: ", e.as_str());
                return NativeFiles { files: out, error: Some(err) };
            },
        };
        match native_entry_target(name.as_str()) {
            None => {},
            Some(target) => {
                let data = match zip_entry_data(&mut archive, i) {
                    Ok(d) => d,
                    Err(e) => {
                        let mut m = chars_of("Read ");
                        extend_str(&mut m, name.as_str());
                        extend_str(&mut m, ": ");
                        proof {
                            assert(m@ == "Read "@ + name@ + ": "@);
                            assert(spec_native_files(bytes, (i + 1) as nat) == Err::<
                                Seq<(Seq<char>, Seq<u8>)>,
                                Seq<char>,
                            >("Read "@ + name@ + ": "@ + e@));
                            assert(spec_extracted(bytes, i as nat) == spec_file_views(out@));
                            assert(((i + 1) as nat - 1) as nat == i as nat);
                            assert(spec_extracted(bytes, (i + 1) as nat) == spec_file_views(out@));
                            lemma_native_files_error_stays(bytes, (i + 1) as nat, n as nat);
                        }
                        let err = custom_error_with(string_of(&m).as_str(), e.as_str());
                        return NativeFiles { files: out, error: Some(err) };
                    },
                };
                let ghost before = spec_file_views(out@);
                out.push((target, data));
                assert(spec_file_views(out@) =~= before.push((spec_last_segment(name@), data@)));
            },
        }
        i = i + 1;
    }
    NativeFiles { files: out, error: None }
}

} // verus!
