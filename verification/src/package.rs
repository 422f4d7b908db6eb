//! Validation of `.cwidget` archives: resource ceilings, safe paths, the manifest, and
//! the absence of active content, all checked without extracting anything.

use vstd::prelude::*;

use sha2::Digest;
use std::io::Read;

use crate::manifest::{manifest_problem, Manifest};
use crate::text::{
    chars_of, contains_chars, contains_seq, lemma_text_lt_irreflexive, lemma_text_lt_total,
    lemma_text_lt_transitive, text_before, text_lt,
};

verus! {

#[verifier::external_type_specification]
#[verifier::external_body]
#[verifier::reject_recursive_types(R)]
pub struct ExZipArchive<R>(zip::ZipArchive<R>);

#[verifier::external_type_specification]
#[verifier::external_body]
#[verifier::reject_recursive_types(T)]
pub struct ExCursor<T>(std::io::Cursor<T>);

#[verifier::external_type_specification]
#[verifier::external_body]
pub struct ExZipError(zip::result::ZipError);

#[verifier::external_type_specification]
#[verifier::external_body]
pub struct ExIoError(std::io::Error);

#[verifier::external_type_specification]
#[verifier::external_body]
pub struct ExTomlError(toml::de::Error);

#[verifier::external_type_specification]
#[verifier::external_body]
pub struct ExPathBuf(std::path::PathBuf);

/// An archive read from bytes held in memory. It is only ever opened by
/// `zip::ZipArchive::new`, with the crate's default configuration, so what the reads
/// below return depends on the bytes alone.
pub struct Archive {
    inner: zip::ZipArchive<std::io::Cursor<Vec<u8>>>,
}

impl Archive {
    /// The bytes the archive reads from.
    pub closed spec fn bytes(&self) -> Seq<u8> {
        archive_bytes(self.inner)
    }
}

/// Resource ceilings applied before a package is trusted.
#[derive(Debug, Clone, Copy, PartialEq, Eq, Structural)]
pub struct PackageLimits {
    pub max_files: usize,
    pub max_file_bytes: u64,
    pub max_total_bytes: u64,
    pub max_manifest_bytes: u64,
}

impl Default for PackageLimits {
    fn default() -> (res: PackageLimits)
        ensures
            res == (PackageLimits {
                max_files: 128,
                max_file_bytes: 8388608,
                max_total_bytes: 33554432,
                max_manifest_bytes: 65536,
            }),
    {
        PackageLimits {
            max_files: 128,
            max_file_bytes: 8388608,
            max_total_bytes: 33554432,
            max_manifest_bytes: 65536,
        }
    }
}

/// Package validation error.
#[derive(Debug)]
pub enum PackageError {
    Io(std::io::Error),
    Zip(zip::result::ZipError),
    MissingManifest,
    Manifest(toml::de::Error),
    InvalidManifest(String),
    UnsafePath(String),
    Symlink(String),
    TooManyFiles,
    FileTooLarge(String),
    PackageTooLarge,
    MissingFile(String),
    ActiveContent(String),
}

/// What a package validation error says, with names as character sequences.
pub enum PackageFailure {
    Io,
    Zip,
    MissingManifest,
    Manifest,
    InvalidManifest(Seq<char>),
    UnsafePath(Seq<char>),
    Symlink(Seq<char>),
    TooManyFiles,
    FileTooLarge(Seq<char>),
    PackageTooLarge,
    MissingFile(Seq<char>),
    ActiveContent(Seq<char>),
}

impl PackageError {
    pub open spec fn failure(&self) -> PackageFailure {
        match self {
            PackageError::Io(_) => PackageFailure::Io,
            PackageError::Zip(_) => PackageFailure::Zip,
            PackageError::MissingManifest => PackageFailure::MissingManifest,
            PackageError::Manifest(_) => PackageFailure::Manifest,
            PackageError::InvalidManifest(m) => PackageFailure::InvalidManifest(m@),
            PackageError::UnsafePath(n) => PackageFailure::UnsafePath(n@),
            PackageError::Symlink(n) => PackageFailure::Symlink(n@),
            PackageError::TooManyFiles => PackageFailure::TooManyFiles,
            PackageError::FileTooLarge(n) => PackageFailure::FileTooLarge(n@),
            PackageError::PackageTooLarge => PackageFailure::PackageTooLarge,
            PackageError::MissingFile(n) => PackageFailure::MissingFile(n@),
            PackageError::ActiveContent(p) => PackageFailure::ActiveContent(p@),
        }
    }
}

/// What the central directory says of one archive member.
pub struct EntryModel {
    pub name: Seq<char>,
    pub enclosed: bool,
    pub unix_mode: Option<u32>,
    pub is_dir: bool,
    pub size: u64,
}

/// The facts of one archive member that validation reads.
#[derive(Debug)]
pub struct ArchiveEntry {
    pub name: String,
    pub enclosed_name: Option<std::path::PathBuf>,
    pub unix_mode: Option<u32>,
    pub is_dir: bool,
    pub size: u64,
}

impl View for ArchiveEntry {
    type V = EntryModel;

    open spec fn view(&self) -> EntryModel {
        EntryModel {
            name: self.name@,
            enclosed: self.enclosed_name is Some,
            unix_mode: self.unix_mode,
            is_dir: self.is_dir,
            size: self.size,
        }
    }
}

/// The bytes held by the cursor an in-memory archive reads from; reading members
/// moves the cursor and leaves the bytes as they are.
pub uninterp spec fn archive_bytes(archive: zip::ZipArchive<std::io::Cursor<Vec<u8>>>) -> Seq<u8>;

/// Whether `zip::ZipArchive::new` (default configuration) accepts the central directory of `raw`.
pub uninterp spec fn zip_opens(raw: Seq<u8>) -> bool;

/// Number of members `zip::ZipArchive::len` reports for an archive opened over `raw`
/// with `zip::ZipArchive::new` (default configuration).
pub uninterp spec fn zip_entry_count(raw: Seq<u8>) -> nat;

/// Member `index` as `zip::ZipArchive::by_index` reads it from an archive opened over
/// `raw` with `zip::ZipArchive::new` (default configuration); `None` when that call, or
/// decoding the member's name, fails.
pub uninterp spec fn zip_entry(raw: Seq<u8>, index: nat) -> Option<EntryModel>;

/// Uncompressed size of the member that `zip::ZipArchive::by_name` finds under `name`
/// in an archive opened over `raw` with `zip::ZipArchive::new` (default
/// configuration); `None` when it finds none.
pub uninterp spec fn zip_named_size(raw: Seq<u8>, name: Seq<char>) -> Option<u64>;

/// Text that `read_to_string` yields for the member named `name` in an archive opened
/// over `raw` with `zip::ZipArchive::new` (default configuration); `None` when
/// the member cannot be found or its contents cannot be read (a decompression or
/// checksum failure, or text that is not UTF-8).
pub uninterp spec fn zip_named_text(raw: Seq<u8>, name: Seq<char>) -> Option<Seq<char>>;

/// SHA-256 digest of `data`.
pub uninterp spec fn sha256_digest(data: Seq<u8>) -> Seq<u8>;

/// Opens an archive over `raw` with `zip::ZipArchive::new`.
#[verifier::external_body]
fn open_archive(raw: Vec<u8>) -> (res: Result<Archive, zip::result::ZipError>)
    ensures
        res is Ok <==> zip_opens(raw@),
        res matches Ok(archive) ==> archive_bytes(archive.inner) == raw@,
{
    match zip::ZipArchive::new(std::io::Cursor::new(raw)) {
        Ok(inner) => Ok(Archive { inner }),
        Err(error) => Err(error),
    }
}

/// Number of members, from `zip::ZipArchive::len`.
#[verifier::external_body]
fn archive_len(archive: &Archive) -> (res: usize)
    ensures
        res == zip_entry_count(archive_bytes(archive.inner)),
{
    archive.inner.len()
}

/// Reads member `index` with `zip::ZipArchive::by_index`.
#[verifier::external_body]
fn archive_entry(archive: &mut Archive, index: usize) -> (res: Result<
    ArchiveEntry,
    zip::result::ZipError,
>)
    ensures
        archive_bytes(final(archive).inner) == archive_bytes(old(archive).inner),
        res is Ok <==> zip_entry(archive_bytes(old(archive).inner), index as nat) is Some,
        res matches Ok(entry) ==> zip_entry(archive_bytes(old(archive).inner), index as nat) == Some(
            entry@,
        ),
{
    let file = archive.inner.by_index(index)?;
    let name = file.name()?.into_owned();
    Ok(ArchiveEntry {
        name,
        enclosed_name: file.enclosed_name(),
        unix_mode: file.unix_mode(),
        is_dir: file.is_dir(),
        size: file.size(),
    })
}

/// Size of the member named `name`, found with `zip::ZipArchive::by_name`.
#[verifier::external_body]
fn archive_named_size(archive: &mut Archive, name: &str) -> (res: Option<u64>)
    ensures
        archive_bytes(final(archive).inner) == archive_bytes(old(archive).inner),
        res == zip_named_size(archive_bytes(old(archive).inner), name@),
{
    match archive.inner.by_name(name) {
        Ok(file) => Some(file.size()),
        Err(_) => None,
    }
}

/// Reads the member named `name` to a string with `Read::read_to_string`.
#[verifier::external_body]
fn archive_named_text(archive: &mut Archive, name: &str) -> (res: Result<String, std::io::Error>)
    ensures
        archive_bytes(final(archive).inner) == archive_bytes(old(archive).inner),
        res is Ok <==> zip_named_text(archive_bytes(old(archive).inner), name@) is Some,
        res matches Ok(text) ==> zip_named_text(archive_bytes(old(archive).inner), name@) == Some(
            text@,
        ),
{
    let mut file = archive.inner.by_name(name).map_err(std::io::Error::from)?;
    let mut value = String::new();
    file.read_to_string(&mut value)?;
    Ok(value)
}

/// SHA-256 digest of `data`, from `sha2::Sha256::digest`; it is always 32 bytes long.
#[verifier::external_body]
fn sha256(data: &[u8]) -> (res: Vec<u8>)
    ensures
        res@ == sha256_digest(data@),
        res@.len() == 32,
{
    sha2::Sha256::digest(data).to_vec()
}

} // verus!

verus! {

/// The names held by a list of strings, as a set.
pub open spec fn name_set(names: Seq<String>) -> Set<Seq<char>> {
    Set::new(|n: Seq<char>| exists|i: int| 0 <= i < names.len() && (#[trigger] names[i])@ == n)
}

/// No name occurs twice in the list.
pub open spec fn distinct_names(names: Seq<String>) -> bool {
    forall|i: int, j: int|
        0 <= i < names.len() && 0 <= j < names.len() && i != j ==> (#[trigger] names[i])@
            != (#[trigger] names[j])@
}

/// Whether `name` is in the list.
pub fn has_name(names: &Vec<String>, name: &String) -> (res: bool)
    ensures
        res == name_set(names@).contains(name@),
{
    let mut i: usize = 0;
    while i < names.len()
        invariant
            i <= names@.len(),
            forall|k: int| 0 <= k < i ==> (#[trigger] names@[k])@ != name@,
        decreases names@.len() - i,
    {
        if names[i] == *name {
            assert(name_set(names@).contains(name@)) by {
                assert(names@[i as int]@ == name@);
            }
            return true;
        }
        i = i + 1;
    }
    false
}

/// The names are in strictly increasing order, as a `BTreeSet` of strings yields them.
pub open spec fn sorted_names(names: Seq<String>) -> bool {
    forall|i: int, j: int|
        0 <= i < j < names.len() ==> text_lt(#[trigger] names[i]@, #[trigger] names[j]@)
}

/// A strictly increasing list holds no name twice.
pub proof fn lemma_sorted_names_distinct(names: Seq<String>)
    requires
        sorted_names(names),
    ensures
        distinct_names(names),
{
    assert forall|i: int, j: int|
        0 <= i < names.len() && 0 <= j < names.len() && i != j implies (#[trigger] names[i])@
        != (#[trigger] names[j])@ by {
        lemma_text_lt_irreflexive(names[i]@, 0);
    }
}

/// Adds `name` to a sorted list of names, in its place, unless it is there already.
fn insert_name(names: &mut Vec<String>, name: String)
    requires
        sorted_names(old(names)@),
    ensures
        sorted_names(final(names)@),
        name_set(final(names)@) == name_set(old(names)@).insert(name@),
{
    let ghost before = names@;
    let mut k: usize = 0;
    while k < names.len()
        invariant
            names@ == before,
            k <= before.len(),
            forall|i: int| 0 <= i < k ==> text_lt(#[trigger] before[i]@, name@),
        ensures
            names@ == before,
            k <= before.len(),
            forall|i: int| 0 <= i < k ==> text_lt(#[trigger] before[i]@, name@),
            k < before.len() ==> !text_lt(before[k as int]@, name@),
        decreases before.len() - k,
    {
        if !text_before(names[k].as_str(), name.as_str()) {
            break;
        }
        k = k + 1;
    }
    if k < names.len() && names[k] == name {
        assert(name_set(before) =~= name_set(before).insert(name@)) by {
            assert(before[k as int]@ == name@);
        }
        return;
    }
    proof {
        if k < before.len() {
            assert(before[k as int]@ != name@);
            assert(before[k as int]@.skip(0) =~= before[k as int]@);
            assert(name@.skip(0) =~= name@);
            lemma_text_lt_total(before[k as int]@, name@, 0);
            assert(text_lt(name@, before[k as int]@));
        }
    }
    names.insert(k, name);
    assert(names@ == before.insert(k as int, name));
    assert forall|i: int, j: int| 0 <= i < j < names@.len() implies text_lt(
        #[trigger] names@[i]@,
        #[trigger] names@[j]@,
    ) by {
        if j < k {
            assert(names@[i] == before[i] && names@[j] == before[j]);
        } else if j == k {
            assert(names@[i] == before[i]);
        } else if i > k {
            assert(names@[i] == before[i - 1] && names@[j] == before[j - 1]);
        } else if i == k {
            assert(names@[j] == before[j - 1]);
            if j - 1 > k {
                assert(text_lt(before[k as int]@, before[j - 1]@));
                lemma_text_lt_transitive(name@, before[k as int]@, before[j - 1]@, 0);
            }
        } else {
            assert(names@[i] == before[i] && names@[j] == before[j - 1]);
            assert(text_lt(before[i]@, name@));
            if j - 1 > k {
                assert(text_lt(name@, before[j - 1]@)) by {
                    assert(text_lt(before[k as int]@, before[j - 1]@));
                    lemma_text_lt_transitive(name@, before[k as int]@, before[j - 1]@, 0);
                }
            }
            lemma_text_lt_transitive(before[i]@, name@, before[j - 1]@, 0);
        }
    }
    assert forall|n: Seq<char>| name_set(names@).contains(n) <==> name_set(before).insert(
        name@,
    ).contains(n) by {
        if name_set(names@).contains(n) {
            let i = choose|i: int| 0 <= i < names@.len() && (#[trigger] names@[i])@ == n;
            if i < k {
                assert(names@[i] == before[i]);
            } else if i > k {
                assert(names@[i] == before[i - 1]);
            }
        }
        if name_set(before).contains(n) {
            let i = choose|i: int| 0 <= i < before.len() && (#[trigger] before[i])@ == n;
            if i < k {
                assert(names@[i] == before[i]);
            } else {
                assert(names@[i + 1] == before[i]);
            }
        }
        if n == name@ {
            assert(names@[k as int]@ == n);
        }
    }
    assert(name_set(names@) =~= name_set(before).insert(name@));
}

/// Whether a member's name or path is unsafe: it escapes the archive, is absolute, or
/// holds a NUL character.
pub open spec fn is_unsafe_entry(entry: EntryModel) -> bool {
    ||| !entry.enclosed
    ||| (entry.name.len() > 0 && entry.name[0] == '/')
    ||| entry.name.contains('\0')
}

/// Whether a member's Unix mode marks it as a symbolic link.
pub open spec fn is_symlink_entry(entry: EntryModel) -> bool {
    entry.unix_mode matches Some(mode) && mode & 0o170_000u32 == 0o120_000u32
}

/// Progress of the scan over an archive's members.
pub enum ScanState {
    Running { total: u64, files: Set<Seq<char>> },
    Failed(PackageFailure),
}

/// One step of the member scan: the first failing member ends it; directories are
/// skipped; every other member must fit the per-file limit, its size is added to a
/// saturating running total that must fit the package limit, and its name is recorded.
pub open spec fn scan_entry(state: ScanState, entry: Option<EntryModel>, limits: PackageLimits) -> ScanState {
    match state {
        ScanState::Failed(f) => ScanState::Failed(f),
        ScanState::Running { total, files } => match entry {
            None => ScanState::Failed(PackageFailure::Zip),
            Some(e) => if is_unsafe_entry(e) {
                ScanState::Failed(PackageFailure::UnsafePath(e.name))
            } else if is_symlink_entry(e) {
                ScanState::Failed(PackageFailure::Symlink(e.name))
            } else if e.is_dir {
                ScanState::Running { total, files }
            } else if e.size > limits.max_file_bytes {
                ScanState::Failed(PackageFailure::FileTooLarge(e.name))
            } else {
                let next = total.saturating_add(e.size);
                if next > limits.max_total_bytes {
                    ScanState::Failed(PackageFailure::PackageTooLarge)
                } else {
                    ScanState::Running { total: next, files: files.insert(e.name) }
                }
            },
        },
    }
}

/// The scan over the first `n` members of the archive `raw`.
pub open spec fn scan_entries(raw: Seq<u8>, limits: PackageLimits, n: nat) -> ScanState
    decreases n,
{
    if n == 0 {
        ScanState::Running { total: 0, files: Set::empty() }
    } else {
        scan_entry(scan_entries(raw, limits, (n - 1) as nat), zip_entry(raw, (n - 1) as nat), limits)
    }
}

/// The whole member scan of the archive `raw`: too many members fail at once, otherwise
/// every member is scanned in order.
pub open spec fn inspect_outcome(raw: Seq<u8>, limits: PackageLimits) -> ScanState {
    if zip_entry_count(raw) > limits.max_files {
        ScanState::Failed(PackageFailure::TooManyFiles)
    } else {
        scan_entries(raw, limits, zip_entry_count(raw))
    }
}

fn has_nul(name: &String) -> (res: bool)
    ensures
        res == name@.contains('\0'),
{
    let chars = chars_of(name.as_str());
    let mut i: usize = 0;
    while i < chars.len()
        invariant
            chars@ == name@,
            i <= chars@.len(),
            forall|k: int| 0 <= k < i ==> chars@[k] != '\0',
        decreases chars@.len() - i,
    {
        if chars[i] == '\0' {
            return true;
        }
        i = i + 1;
    }
    false
}

fn starts_with_slash(name: &String) -> (res: bool)
    ensures
        res == (name@.len() > 0 && name@[0] == '/'),
{
    let s = name.as_str();
    s.unicode_len() > 0 && s.get_char(0) == '/'
}

/// Checks every member of the archive against the limits and collects the names of its
/// regular files, each once and in sorted order.
///
/// # Errors
///
/// Returns the first violation in member order, as [`scan_entry`] describes it.
pub fn inspect_archive(archive: &mut Archive, limits: PackageLimits) -> (res: Result<
    Vec<String>,
    PackageError,
>)
    ensures
        final(archive).bytes() == old(archive).bytes(),
        match inspect_outcome(old(archive).bytes(), limits) {
            ScanState::Running { files, .. } => res matches Ok(names) && name_set(names@) == files
                && sorted_names(names@) && distinct_names(names@),
            ScanState::Failed(f) => res matches Err(e) && e.failure() == f,
        },
{
    let ghost raw = old(archive).bytes();
    let count = archive_len(archive);
    if count > limits.max_files {
        return Err(PackageError::TooManyFiles);
    }
    let mut total: u64 = 0;
    let mut files: Vec<String> = Vec::new();
    let mut index: usize = 0;
    let mut failure: Option<PackageError> = None;
    assert(name_set(files@) =~= Set::<Seq<char>>::empty());
    while index < count
        invariant_except_break
            failure is None,
            scan_entries(raw, limits, index as nat) == (ScanState::Running {
                total,
                files: name_set(files@),
            }),
        invariant
            archive.bytes() == raw,
            count == zip_entry_count(raw),
            index <= count,
            sorted_names(files@),
        ensures
            failure matches Some(e) ==> scan_entries(raw, limits, (index + 1) as nat)
                == ScanState::Failed(e.failure()) && index < count,
            failure is None ==> index == count && scan_entries(raw, limits, index as nat) == (
            ScanState::Running { total, files: name_set(files@) }),
        decreases count - index,
    {
        let entry = match archive_entry(archive, index) {
            Ok(entry) => entry,
            Err(error) => {
                failure = Some(PackageError::Zip(error));
                break;
            },
        };
        if entry.enclosed_name.is_none() || starts_with_slash(&entry.name) || has_nul(&entry.name) {
            failure = Some(PackageError::UnsafePath(entry.name));
            break;
        }
        let symlink = match entry.unix_mode {
            Some(mode) => mode & 0o170_000u32 == 0o120_000u32,
            None => false,
        };
        if symlink {
            failure = Some(PackageError::Symlink(entry.name));
            break;
        }
        if !entry.is_dir {
            if entry.size > limits.max_file_bytes {
                failure = Some(PackageError::FileTooLarge(entry.name));
                break;
            }
            total = total.saturating_add(entry.size);
            if total > limits.max_total_bytes {
                failure = Some(PackageError::PackageTooLarge);
                break;
            }
            insert_name(&mut files, entry.name);
        }
        index = index + 1;
    }
    match failure {
        Some(error) => {
            proof {
                lemma_scan_stays_failed(raw, limits, (index + 1) as nat, count as nat);
            }
            Err(error)
        },
        None => {
            proof {
                lemma_sorted_names_distinct(files@);
            }
            Ok(files)
        },
    }
}

/// Once the scan has failed, scanning further members keeps the same failure.
pub proof fn lemma_scan_stays_failed(raw: Seq<u8>, limits: PackageLimits, from: nat, to: nat)
    requires
        from <= to,
        scan_entries(raw, limits, from) is Failed,
    ensures
        scan_entries(raw, limits, to) == scan_entries(raw, limits, from),
    decreases to - from,
{
    if from < to {
        lemma_scan_stays_failed(raw, limits, from, (to - 1) as nat);
    }
}

} // verus!

verus! {

/// Lower-case hexadecimal digit of `n < 16`.
pub open spec fn hex_digit(n: nat) -> char {
    if n < 10 {
        crate::text::digit_char(n)
    } else if n == 10 { 'a' }
    else if n == 11 { 'b' }
    else if n == 12 { 'c' }
    else if n == 13 { 'd' }
    else if n == 14 { 'e' }
    else { 'f' }
}

/// Two lower-case hexadecimal digits per byte, as `{:x}` prints a digest.
pub open spec fn lower_hex(bytes: Seq<u8>) -> Seq<char>
    decreases bytes.len(),
{
    if bytes.len() == 0 {
        Seq::empty()
    } else {
        lower_hex(bytes.drop_last()) + seq![
            hex_digit((bytes.last() / 16) as nat),
            hex_digit((bytes.last() % 16) as nat),
        ]
    }
}

fn hex_digit_char(n: u8) -> (res: char)
    requires
        n < 16,
    ensures
        res == hex_digit(n as nat),
{
    if n == 0 { '0' }
    else if n == 1 { '1' }
    else if n == 2 { '2' }
    else if n == 3 { '3' }
    else if n == 4 { '4' }
    else if n == 5 { '5' }
    else if n == 6 { '6' }
    else if n == 7 { '7' }
    else if n == 8 { '8' }
    else if n == 9 { '9' }
    else if n == 10 { 'a' }
    else if n == 11 { 'b' }
    else if n == 12 { 'c' }
    else if n == 13 { 'd' }
    else if n == 14 { 'e' }
    else { 'f' }
}

/// Lower-case hexadecimal form of `bytes`.
pub fn to_lower_hex(bytes: &Vec<u8>) -> (res: String)
    ensures
        res@ == lower_hex(bytes@),
{
    let mut out = String::new();
    let mut i: usize = 0;
    while i < bytes.len()
        invariant
            i <= bytes@.len(),
            out@ == lower_hex(bytes@.take(i as int)),
        decreases bytes@.len() - i,
    {
        let b = bytes[i];
        crate::text::push_char(&mut out, hex_digit_char(b / 16));
        crate::text::push_char(&mut out, hex_digit_char(b % 16));
        proof {
            let next = bytes@.take(i + 1);
            assert(next.drop_last() =~= bytes@.take(i as int));
            assert(next.last() == b);
        }
        assert(out@ =~= lower_hex(bytes@.take(i + 1)));
        i = i + 1;
    }
    assert(bytes@.take(bytes@.len() as int) =~= bytes@);
    out
}

/// Two hexadecimal digits stand for every byte.
pub proof fn lemma_lower_hex_len(bytes: Seq<u8>)
    ensures
        lower_hex(bytes).len() == 2 * bytes.len(),
    decreases bytes.len(),
{
    if bytes.len() > 0 {
        lemma_lower_hex_len(bytes.drop_last());
    }
}

/// What reading one member under a size limit yields.
pub enum ReadOutcome {
    Absent,
    Failed(PackageFailure),
    Text(Seq<char>),
}

/// Reading the member named `name` of `raw` under `limit`: absent when no member has
/// that name, too large when its size exceeds the limit, an I/O failure when it cannot
/// be read as text, and its text otherwise.
pub open spec fn read_outcome(raw: Seq<u8>, name: Seq<char>, limit: u64) -> ReadOutcome {
    match zip_named_size(raw, name) {
        None => ReadOutcome::Absent,
        Some(size) => if size > limit {
            ReadOutcome::Failed(PackageFailure::FileTooLarge(name))
        } else {
            match zip_named_text(raw, name) {
                None => ReadOutcome::Failed(PackageFailure::Io),
                Some(text) => ReadOutcome::Text(text),
            }
        },
    }
}

/// Reads the member named `name` as text, refusing it when it is larger than `limit`.
///
/// # Errors
///
/// Returns [`PackageError::FileTooLarge`] for a member over the limit and
/// [`PackageError::Io`] when its contents cannot be read as text.
pub fn read_limited(archive: &mut Archive, name: &str, limit: u64) -> (res: Result<
    Option<String>,
    PackageError,
>)
    ensures
        final(archive).bytes() == old(archive).bytes(),
        match read_outcome(old(archive).bytes(), name@, limit) {
            ReadOutcome::Absent => res matches Ok(None),
            ReadOutcome::Failed(f) => res matches Err(e) && e.failure() == f,
            ReadOutcome::Text(t) => res matches Ok(Some(text)) && text@ == t,
        },
{
    let size = match archive_named_size(archive, name) {
        Some(size) => size,
        None => return Ok(None),
    };
    if size > limit {
        return Err(PackageError::FileTooLarge(String::from_str(name)));
    }
    match archive_named_text(archive, name) {
        Ok(text) => Ok(Some(text)),
        Err(error) => Err(PackageError::Io(error)),
    }
}

/// Checks that `name` is one of the package's files.
///
/// # Errors
///
/// Returns [`PackageError::MissingFile`] with the name when it is not.
pub fn require_file(files: &Vec<String>, name: &String) -> (res: Result<(), PackageError>)
    ensures
        res is Ok <==> name_set(files@).contains(name@),
        res matches Err(e) ==> e.failure() == PackageFailure::MissingFile(name@),
{
    if has_name(files, name) {
        Ok(())
    } else {
        Err(PackageError::MissingFile(name.clone()))
    }
}

/// ASCII upper-case letters mapped to lower case, every other character kept.
pub open spec fn ascii_lower(c: char) -> char {
    if 'A' <= c && c <= 'Z' {
        ((c as u32) + 32) as char
    } else {
        c
    }
}

/// `text` with every ASCII letter in lower case, as `str::to_ascii_lowercase` gives it.
pub open spec fn ascii_lowercase(text: Seq<char>) -> Seq<char> {
    text.map_values(|c: char| ascii_lower(c))
}

/// The first active-content marker, in the order `<script`, `<iframe`, `javascript:`,
/// `<object`, `<embed`, that occurs in the lower-cased document.
pub open spec fn first_active_content(lower: Seq<char>) -> Option<Seq<char>> {
    if contains_seq(lower, "<script"@) {
        Some("<script"@)
    } else if contains_seq(lower, "<iframe"@) {
        Some("<iframe"@)
    } else if contains_seq(lower, "javascript:"@) {
        Some("javascript:"@)
    } else if contains_seq(lower, "<object"@) {
        Some("<object"@)
    } else if contains_seq(lower, "<embed"@) {
        Some("<embed"@)
    } else {
        None
    }
}

fn lower_char(c: char) -> (res: char)
    ensures
        res == ascii_lower(c),
{
    if 'A' <= c && c <= 'Z' {
        let code = (c as u32) + 32;
        proof {
            assert(0x61 <= code <= 0x7A);
        }
        char_from_ascii(code)
    } else {
        c
    }
}

/// The character with ASCII code `code`.
fn char_from_ascii(code: u32) -> (res: char)
    requires
        code < 128,
    ensures
        res == code as char,
{
    (code as u8) as char
}

/// Lower-cases the ASCII letters of `text`.
pub fn to_ascii_lowercase(text: &str) -> (res: Vec<char>)
    ensures
        res@ == ascii_lowercase(text@),
{
    let mut out: Vec<char> = Vec::new();
    for c in it: text.chars()
        invariant
            it.seq() == text@,
            out@ == ascii_lowercase(text@.take(it.index() as int)),
    {
        let lc = lower_char(c);
        out.push(lc);
        assert(out@ =~= ascii_lowercase(text@.take(it.index() + 1)));
    }
    assert(text@.take(text@.len() as int) =~= text@);
    out
}

fn contains_marker(lower: &Vec<char>, marker: &str) -> (res: bool)
    ensures
        res == contains_seq(lower@, marker@),
{
    let pattern = chars_of(marker);
    contains_chars(lower, &pattern)
}

/// Checks a widget document for active content.
///
/// # Errors
///
/// Returns [`PackageError::ActiveContent`] naming the first marker of
/// [`first_active_content`] found in the lower-cased document.
pub fn check_active_content(html: &str) -> (res: Result<(), PackageError>)
    ensures
        res is Ok <==> first_active_content(ascii_lowercase(html@)) is None,
        res matches Err(e) ==> first_active_content(ascii_lowercase(html@)) matches Some(m)
            && e.failure() == PackageFailure::ActiveContent(m),
{
    let lower = to_ascii_lowercase(html);
    if contains_marker(&lower, "<script") {
        return Err(PackageError::ActiveContent(String::from_str("<script")));
    }
    if contains_marker(&lower, "<iframe") {
        return Err(PackageError::ActiveContent(String::from_str("<iframe")));
    }
    if contains_marker(&lower, "javascript:") {
        return Err(PackageError::ActiveContent(String::from_str("javascript:")));
    }
    if contains_marker(&lower, "<object") {
        return Err(PackageError::ActiveContent(String::from_str("<object")));
    }
    if contains_marker(&lower, "<embed") {
        return Err(PackageError::ActiveContent(String::from_str("<embed")));
    }
    Ok(())
}

/// Reading and checking the entry document `entry` of `raw`: it must be present, within
/// `limit`, readable, and free of active content.
pub open spec fn html_failure(raw: Seq<u8>, entry: Seq<char>, limit: u64) -> Option<PackageFailure> {
    match read_outcome(raw, entry, limit) {
        ReadOutcome::Absent => Some(PackageFailure::MissingFile(entry)),
        ReadOutcome::Failed(f) => Some(f),
        ReadOutcome::Text(text) => match first_active_content(ascii_lowercase(text)) {
            Some(marker) => Some(PackageFailure::ActiveContent(marker)),
            None => None,
        },
    }
}

/// Reads the entry document and rejects active content.
///
/// # Errors
///
/// Returns the failure that [`html_failure`] names.
pub fn validate_html(archive: &mut Archive, entry: &str, limit: u64) -> (res: Result<(), PackageError>)
    ensures
        final(archive).bytes() == old(archive).bytes(),
        res is Ok <==> html_failure(old(archive).bytes(), entry@, limit) is None,
        res matches Err(e) ==> html_failure(old(archive).bytes(), entry@, limit) == Some(
            e.failure(),
        ),
{
    let html = match read_limited(archive, entry, limit) {
        Ok(Some(html)) => html,
        Ok(None) => return Err(PackageError::MissingFile(String::from_str(entry))),
        Err(error) => return Err(error),
    };
    check_active_content(html.as_str())
}

/// An archive whose members passed every check, with its digest, file names (sorted, each
/// once) and the text of its `widget.toml`, ready for the manifest to be parsed.
pub struct OpenedPackage {
    pub archive: Archive,
    pub sha256: String,
    pub files: Vec<String>,
    pub manifest_text: String,
}

/// Metadata returned after all archive and manifest checks pass; the file names keep the
/// sorted order the archive scan gives them.
pub struct ValidatedPackage {
    pub manifest: Manifest,
    pub sha256: String,
    pub files: Vec<String>,
}

/// The first failure of the archive checks that precede manifest parsing: the central
/// directory must open, every member must pass the scan, and `widget.toml` must be
/// present, within the manifest limit and readable.
pub open spec fn open_failure(raw: Seq<u8>, limits: PackageLimits) -> Option<PackageFailure> {
    if !zip_opens(raw) {
        Some(PackageFailure::Zip)
    } else {
        match inspect_outcome(raw, limits) {
            ScanState::Failed(f) => Some(f),
            ScanState::Running { .. } => match read_outcome(
                raw,
                "widget.toml"@,
                limits.max_manifest_bytes,
            ) {
                ReadOutcome::Absent => Some(PackageFailure::MissingManifest),
                ReadOutcome::Failed(f) => Some(f),
                ReadOutcome::Text(_) => None,
            },
        }
    }
}

/// Opens a `.cwidget` archive held in memory and runs every check that does not need
/// the parsed manifest.
///
/// # Errors
///
/// Returns the failure that [`open_failure`] names.
pub fn open_package(raw: Vec<u8>, limits: PackageLimits) -> (res: Result<OpenedPackage, PackageError>)
    ensures
        res is Ok <==> open_failure(raw@, limits) is None,
        res matches Err(e) ==> open_failure(raw@, limits) == Some(e.failure()),
        res matches Ok(p) ==> {
            &&& p.archive.bytes() == raw@
            &&& p.sha256@ == lower_hex(sha256_digest(raw@))
            &&& p.sha256@.len() == 64
            &&& sorted_names(p.files@)
            &&& distinct_names(p.files@)
            &&& inspect_outcome(raw@, limits) == (ScanState::Running {
                total: inspect_outcome(raw@, limits)->total,
                files: name_set(p.files@),
            })
            &&& read_outcome(raw@, "widget.toml"@, limits.max_manifest_bytes) == ReadOutcome::Text(
                p.manifest_text@,
            )
        },
{
    let ghost bytes = raw@;
    let digest = sha256(raw.as_slice());
    let sha256 = to_lower_hex(&digest);
    proof {
        lemma_lower_hex_len(digest@);
    }
    let mut archive = match open_archive(raw) {
        Ok(archive) => archive,
        Err(error) => return Err(PackageError::Zip(error)),
    };
    let files = match inspect_archive(&mut archive, limits) {
        Ok(files) => files,
        Err(error) => return Err(error),
    };
    let manifest_text = match read_limited(&mut archive, "widget.toml", limits.max_manifest_bytes) {
        Ok(Some(text)) => text,
        Ok(None) => return Err(PackageError::MissingManifest),
        Err(error) => return Err(error),
    };
    Ok(OpenedPackage { archive, sha256, files, manifest_text })
}

/// The first failure of the checks that follow manifest parsing: the manifest must be
/// valid, its entry document and any logic module must be package files, and the entry
/// document must pass [`html_failure`].
pub open spec fn finish_failure(
    raw: Seq<u8>,
    files: Set<Seq<char>>,
    manifest: Manifest,
    limits: PackageLimits,
) -> Option<PackageFailure> {
    if manifest_problem(manifest) is Some {
        Some(PackageFailure::InvalidManifest(manifest_problem(manifest)->0))
    } else if !files.contains(manifest.entry@) {
        Some(PackageFailure::MissingFile(manifest.entry@))
    } else if manifest.wasm matches Some(w) && !files.contains(w.module@) {
        Some(PackageFailure::MissingFile(manifest.wasm->0.module@))
    } else {
        html_failure(raw, manifest.entry@, limits.max_file_bytes)
    }
}

/// Completes validation of an opened package once its manifest has been parsed.
///
/// # Errors
///
/// Returns the failure that [`finish_failure`] names.
pub fn finish_package(opened: OpenedPackage, manifest: Manifest, limits: PackageLimits) -> (res:
    Result<ValidatedPackage, PackageError>)
    ensures
        res is Ok <==> finish_failure(
            opened.archive.bytes(),
            name_set(opened.files@),
            manifest,
            limits,
        ) is None,
        res matches Err(e) ==> finish_failure(
            opened.archive.bytes(),
            name_set(opened.files@),
            manifest,
            limits,
        ) == Some(e.failure()),
        res matches Ok(p) ==> p.manifest == manifest && p.sha256@ == opened.sha256@ && p.files@
            == opened.files@,
{
    let OpenedPackage { mut archive, sha256, files, manifest_text: _ } = opened;
    match manifest.validate() {
        Ok(()) => {},
        Err(message) => return Err(PackageError::InvalidManifest(message)),
    }
    match require_file(&files, &manifest.entry) {
        Ok(()) => {},
        Err(error) => return Err(error),
    }
    if let Some(wasm) = &manifest.wasm {
        match require_file(&files, &wasm.module) {
            Ok(()) => {},
            Err(error) => return Err(error),
        }
    }
    match validate_html(&mut archive, manifest.entry.as_str(), limits.max_file_bytes) {
        Ok(()) => {},
        Err(error) => return Err(error),
    }
    Ok(ValidatedPackage { manifest, sha256, files })
}

} // verus!

verus! {

/// A member the scan lets through: readable, enclosed, not absolute, without NUL, not a
/// symbolic link, and either a directory or within the per-file limit.
pub open spec fn entry_accepted(entry: Option<EntryModel>, limits: PackageLimits) -> bool {
    entry matches Some(e) && !is_unsafe_entry(e) && !is_symlink_entry(e) && (e.is_dir || e.size
        <= limits.max_file_bytes)
}

/// A scan that is still running has let every member so far through and kept its total
/// within the package limit.
proof fn lemma_scan_running(raw: Seq<u8>, limits: PackageLimits, n: nat)
    ensures
        scan_entries(raw, limits, n) matches ScanState::Running { total, .. } ==> {
            &&& total <= limits.max_total_bytes
            &&& forall|i: nat| i < n ==> entry_accepted(#[trigger] zip_entry(raw, i), limits)
        },
    decreases n,
{
    if n > 0 {
        lemma_scan_running(raw, limits, (n - 1) as nat);
        if scan_entries(raw, limits, n) is Running {
            assert forall|i: nat| i < n implies entry_accepted(#[trigger] zip_entry(raw, i), limits) by {
                if i < n - 1 {
                } else {
                    assert(i == n - 1);
                }
            }
        }
    }
}

/// Member `index` of `raw` is a regular file (not a directory) named `name`.
pub open spec fn regular_member_named(raw: Seq<u8>, index: nat, name: Seq<char>) -> bool {
    zip_entry(raw, index) matches Some(e) && !e.is_dir && e.name == name
}

proof fn lemma_scan_lists_regular_members(raw: Seq<u8>, limits: PackageLimits, n: nat)
    ensures
        scan_entries(raw, limits, n) matches ScanState::Running { files, .. } ==> forall|
            name: Seq<char>,
        | files.contains(name) <==> exists|i: nat| i < n && #[trigger] regular_member_named(raw, i, name),
    decreases n,
{
    if n > 0 {
        let m = (n - 1) as nat;
        lemma_scan_lists_regular_members(raw, limits, m);
        if scan_entries(raw, limits, n) is Running {
            let prev = scan_entries(raw, limits, m);
            assert(prev is Running);
            let files = scan_entries(raw, limits, n)->files;
            let old_files = prev->files;
            assert forall|name: Seq<char>| files.contains(name) <==> exists|i: nat|
                i < n && #[trigger] regular_member_named(raw, i, name) by {
                if files.contains(name) {
                    if old_files.contains(name) {
                        let i = choose|i: nat| i < m && #[trigger] regular_member_named(raw, i, name);
                        assert(i < n && regular_member_named(raw, i, name));
                    } else {
                        assert(regular_member_named(raw, m, name));
                    }
                }
                if exists|i: nat| i < n && #[trigger] regular_member_named(raw, i, name) {
                    let i = choose|i: nat| i < n && #[trigger] regular_member_named(raw, i, name);
                    if i < m {
                        assert(old_files.contains(name));
                    } else {
                        assert(i == m);
                    }
                }
            }
        }
    }
}

/// The files a successful scan lists are exactly the archive's regular members: every
/// listed name names a member that is not a directory, every such member's name is
/// listed, and no directory entry is listed for its own sake.
pub proof fn lemma_listed_files_are_regular_members(raw: Seq<u8>, limits: PackageLimits)
    requires
        inspect_outcome(raw, limits) is Running,
    ensures
        forall|name: Seq<char>| #[trigger] inspect_outcome(raw, limits)->files.contains(name) <==> exists|
            i: nat,
        |
            i < zip_entry_count(raw) && (#[trigger] zip_entry(raw, i) matches Some(e) && !e.is_dir
                && e.name == name),
{
    lemma_scan_lists_regular_members(raw, limits, zip_entry_count(raw));
    assert forall|name: Seq<char>| #[trigger] inspect_outcome(raw, limits)->files.contains(name) <==> exists|
        i: nat,
    |
        i < zip_entry_count(raw) && (#[trigger] zip_entry(raw, i) matches Some(e) && !e.is_dir
            && e.name == name) by {
        if inspect_outcome(raw, limits)->files.contains(name) {
            let i = choose|i: nat| i < zip_entry_count(raw) && #[trigger] regular_member_named(raw, i, name);
            assert(zip_entry(raw, i) matches Some(e) && !e.is_dir && e.name == name);
        }
        if exists|i: nat|
            i < zip_entry_count(raw) && (#[trigger] zip_entry(raw, i) matches Some(e) && !e.is_dir
                && e.name == name) {
            let i = choose|i: nat|
                i < zip_entry_count(raw) && (#[trigger] zip_entry(raw, i) matches Some(e)
                    && !e.is_dir && e.name == name);
            assert(regular_member_named(raw, i, name));
        }
    }
}

/// Every archive whose member scan succeeds has at most the permitted number of members,
/// lets through only safe members, and expands to no more than the total limit: no
/// member escapes the archive, is absolute, holds NUL, is a symbolic link, or exceeds
/// the per-file limit.
pub proof fn lemma_accepted_archive_is_safe(raw: Seq<u8>, limits: PackageLimits)
    requires
        inspect_outcome(raw, limits) is Running,
    ensures
        zip_entry_count(raw) <= limits.max_files,
        inspect_outcome(raw, limits)->total <= limits.max_total_bytes,
        forall|i: nat| i < zip_entry_count(raw) ==> entry_accepted(#[trigger] zip_entry(raw, i), limits),
{
    lemma_scan_running(raw, limits, zip_entry_count(raw));
}

/// A package that completes validation has a valid manifest, its entry document and any
/// logic module among its files, and an entry document within the file limit in which
/// none of the active-content markers occurs, whatever the letter case.
pub proof fn lemma_validated_package_is_declarative(
    raw: Seq<u8>,
    files: Set<Seq<char>>,
    manifest: Manifest,
    limits: PackageLimits,
)
    requires
        finish_failure(raw, files, manifest, limits) is None,
    ensures
        manifest_problem(manifest) is None,
        files.contains(manifest.entry@),
        manifest.wasm matches Some(w) ==> files.contains(w.module@),
        read_outcome(raw, manifest.entry@, limits.max_file_bytes) matches ReadOutcome::Text(html)
            && {
            let lower = ascii_lowercase(html);
            &&& !contains_seq(lower, "<script"@)
            &&& !contains_seq(lower, "<iframe"@)
            &&& !contains_seq(lower, "javascript:"@)
            &&& !contains_seq(lower, "<object"@)
            &&& !contains_seq(lower, "<embed"@)
        },
{
}

} // verus!
