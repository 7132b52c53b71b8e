//! Planning the extraction of a zip archive held in memory.
//!
//! Every entry is read, directory entries are set aside, and every other
//! entry gets a name by [`crate::name`] and [`crate::path::sanitize`]. Writing
//! the files is left to the caller, which joins each name to the item's
//! destination directory.

use vstd::prelude::*;
use crate::name::{chosen_name, detect_and_decode, detected_decoding, NameChoice};
use crate::path::{is_plain_file_name, sanitize, sanitized, view_opt};

verus! {

/// A zip archive being read, carried through opaque.
#[verifier::external_type_specification]
#[verifier::external_body]
#[verifier::reject_recursive_types(R)]
pub struct ExZipArchive<R>(zip::ZipArchive<R>);

/// An error of the zip reader, carried through opaque.
#[verifier::external_type_specification]
#[verifier::external_body]
pub struct ExZipError(zip::result::ZipError);

/// The in-memory reader under an archive, carried through opaque.
#[verifier::external_type_specification]
#[verifier::external_body]
#[verifier::reject_recursive_types(T)]
pub struct ExCursor<T>(std::io::Cursor<T>);

/// One entry of an archive as the container gives it.
pub struct RawEntry {
    /// The container's reading of the name.
    pub name: String,
    /// The name's bytes as stored.
    pub name_raw: Vec<u8>,
    /// The container's name when it is enclosed.
    pub enclosed: Option<String>,
    pub contents: Vec<u8>,
}

/// What the zip reader gives for one entry: its name as the container reads
/// it, the raw bytes of the name, the container's name when it is enclosed,
/// and the decompressed contents.
pub open spec fn raw_view(e: RawEntry) -> (Seq<char>, Seq<u8>, Option<Seq<char>>, Seq<u8>) {
    (e.name@, e.name_raw@, view_opt(e.enclosed), e.contents@)
}

/// What the zip reader finds in `bytes`: `None` when it cannot open them as an
/// archive, else one item per entry, `None` for an entry it cannot read.
pub uninterp spec fn zip_listing(bytes: Seq<u8>) -> Option<
    Seq<Option<(Seq<char>, Seq<u8>, Option<Seq<char>>, Seq<u8>)>>,
>;

/// The entries of an opened archive, as in [`zip_listing`].
pub uninterp spec fn archive_entries(a: zip::ZipArchive<std::io::Cursor<Vec<u8>>>) -> Seq<
    Option<(Seq<char>, Seq<u8>, Option<Seq<char>>, Seq<u8>)>,
>;

/// Relies on `zip::ZipArchive::new` over a `std::io::Cursor` of the bytes:
/// it reads the central directory, and succeeds or fails on the bytes alone.
#[verifier::external_body]
fn open_archive(bytes: Vec<u8>) -> (r: Result<zip::ZipArchive<std::io::Cursor<Vec<u8>>>, zip::result::ZipError>)
    ensures
        r is Ok <==> zip_listing(bytes@) is Some,
        r matches Ok(a) ==> zip_listing(bytes@) == Some(archive_entries(a)),
{
    zip::ZipArchive::new(std::io::Cursor::new(bytes))
}

/// Relies on `zip::ZipArchive::len`: the number of entries.
#[verifier::external_body]
fn entry_count(archive: &zip::ZipArchive<std::io::Cursor<Vec<u8>>>) -> (r: usize)
    ensures
        r == archive_entries(*archive).len(),
{
    archive.len()
}

/// Relies on `zip::ZipArchive::by_index_decrypt` with an empty password (an
/// entry that asks for one is an error, as is an index past the end) and, on
/// the entry it gives, `ZipFile::name`, `ZipFile::name_raw`,
/// `ZipFile::enclosed_name` and `std::io::Read::read_to_end`. The archive's
/// entries stay as they were; `enclosed_name` gives the name itself or nothing.
#[verifier::external_body]
fn read_entry(
    archive: &mut zip::ZipArchive<std::io::Cursor<Vec<u8>>>,
    index: usize,
) -> (r: Result<RawEntry, zip::result::ZipError>)
    ensures
        archive_entries(*final(archive)) == archive_entries(*old(archive)),
        r is Ok <==> index < archive_entries(*old(archive)).len()
            && archive_entries(*old(archive))[index as int] is Some,
        r matches Ok(e) ==> archive_entries(*old(archive))[index as int] == Some(raw_view(e)),
        r matches Ok(e) ==> (e.enclosed matches Some(p) ==> p@ == e.name@),
{
    let mut file = match archive.by_index_decrypt(index, b"")? {
        Ok(file) => file,
        Err(_) => return Err(zip::result::ZipError::UnsupportedArchive(zip::result::ZipError::PASSWORD_REQUIRED)),
    };
    let name = file.name().to_owned();
    let name_raw = file.name_raw().to_vec();
    let enclosed = file.enclosed_name().and_then(|p| p.to_str()).map(|p| p.to_owned());
    let mut contents = Vec::new();
    std::io::Read::read_to_end(&mut file, &mut contents)?;
    Ok(RawEntry { name, name_raw, enclosed, contents })
}

/// A file to write into the item's destination directory.
pub struct ExtractedFile {
    pub name: String,
    pub contents: Vec<u8>,
}

/// What became of one entry.
pub enum EntryOutcome {
    /// The entry is written under this name.
    Extracted(ExtractedFile),
    /// A directory marker: nothing to write.
    Directory,
    /// No safe name could be found; the container's name is kept for the log.
    BadName(String),
    /// The entry could not be read.
    Unreadable,
}

/// The archive itself could not be opened.
#[derive(PartialEq, Eq, Structural, Debug, Clone, Copy)]
pub enum ArchiveError {
    NotAnArchive,
}

pub open spec fn is_directory_name(name: Seq<char>) -> bool {
    name.len() > 0 && name.last() == '/'
}

/// The on-disk name of a non-directory entry, given the decoding of its raw
/// name and the container's enclosed name.
pub open spec fn entry_target(
    decoded: Seq<char>,
    had_errors: bool,
    container: Option<Seq<char>>,
) -> Option<Seq<char>> {
    match chosen_name(decoded, had_errors, container) {
        Some(n) => sanitized(n),
        None => None,
    }
}

/// What becomes of an entry, given its name, the decoding of its raw name,
/// the container's enclosed name and its contents.
pub open spec fn outcome_of(
    name: Seq<char>,
    decoded: Seq<char>,
    had_errors: bool,
    enclosed: Option<Seq<char>>,
    contents: Seq<u8>,
    o: EntryOutcome,
) -> bool {
    if is_directory_name(name) {
        o is Directory
    } else {
        match entry_target(decoded, had_errors, enclosed) {
            Some(t) => o matches EntryOutcome::Extracted(f) && f.name@ == t && f.contents@ == contents,
            None => o matches EntryOutcome::BadName(n) && n@ == name,
        }
    }
}

/// What becomes of an entry as the zip reader gives it (`None`: unreadable).
pub open spec fn planned(
    m: Option<(Seq<char>, Seq<u8>, Option<Seq<char>>, Seq<u8>)>,
    o: EntryOutcome,
) -> bool {
    match m {
        None => o is Unreadable,
        Some((name, raw, enclosed, contents)) => outcome_of(
            name,
            detected_decoding(raw).0,
            detected_decoding(raw).1,
            enclosed,
            contents,
            o,
        ),
    }
}

/// Decides what becomes of an entry once its raw name has been decoded.
pub fn entry_outcome(
    name: String,
    decoded: String,
    had_errors: bool,
    enclosed: Option<String>,
    contents: Vec<u8>,
) -> (r: EntryOutcome)
    ensures
        outcome_of(name@, decoded@, had_errors, view_opt(enclosed), contents@, r),
        r matches EntryOutcome::Extracted(f) ==> is_plain_file_name(f.name@),
{
    if ends_with_slash(&name) {
        return EntryOutcome::Directory;
    }
    let choice = crate::name::choose_name(decoded, had_errors, enclosed);
    let chosen = match choice {
        NameChoice::Detected(t) => t,
        NameChoice::ContainerFallback(t) => t,
        NameChoice::Rejected => return EntryOutcome::BadName(name),
    };
    match sanitize(chosen.as_str()) {
        Some(file_name) => EntryOutcome::Extracted(ExtractedFile { name: file_name, contents }),
        None => EntryOutcome::BadName(name),
    }
}

fn ends_with_slash(name: &String) -> (r: bool)
    ensures
        r == is_directory_name(name@),
{
    let n = name.as_str().unicode_len();
    n > 0 && name.as_str().get_char(n - 1) == '/'
}

/// Plans the extraction of one entry from what the container gives.
pub fn plan_entry(entry: RawEntry) -> (r: EntryOutcome)
    ensures
        planned(Some(raw_view(entry)), r),
        r matches EntryOutcome::Extracted(f) ==> is_plain_file_name(f.name@),
{
    let RawEntry { name, name_raw, enclosed, contents } = entry;
    let (decoded, had_errors) = detect_and_decode(name_raw.as_slice());
    entry_outcome(name, decoded, had_errors, enclosed, contents)
}

/// An entry whose raw name decodes cleanly to a plain file name is written
/// under exactly that name, whatever the container makes of it.
pub proof fn lemma_clean_decoding_names_the_file(
    decoded: Seq<char>,
    enclosed: Option<Seq<char>>,
)
    requires
        is_plain_file_name(decoded),
    ensures
        entry_target(decoded, false, enclosed) == Some(decoded),
{
    crate::path::lemma_plain_name_is_kept(decoded);
}

/// The extraction succeeded for every entry: none was unreadable.
pub fn fully_extracted(outcomes: &Vec<EntryOutcome>) -> (r: bool)
    ensures
        r == forall|i: int| 0 <= i < outcomes@.len() ==> !(#[trigger] outcomes@[i] is Unreadable),
{
    let mut i: usize = 0;
    while i < outcomes.len()
        invariant
            i <= outcomes@.len(),
            forall|j: int| 0 <= j < i ==> !(#[trigger] outcomes@[j] is Unreadable),
        decreases outcomes@.len() - i,
    {
        if let EntryOutcome::Unreadable = &outcomes[i] {
            return false;
        }
        i = i + 1;
    }
    true
}

/// Every file that a plan writes lands directly inside the destination.
pub open spec fn writes_inside(outcomes: Seq<EntryOutcome>) -> bool {
    forall|i: int|
        0 <= i < outcomes.len() ==> (#[trigger] outcomes[i] matches EntryOutcome::Extracted(f)
            ==> is_plain_file_name(f.name@))
}

/// Opens an archive held in memory and plans the extraction of each of its
/// entries, in order. An entry that cannot be read or named is recorded and
/// passed over; only an archive that cannot be opened fails as a whole.
pub fn plan_extraction(bytes: Vec<u8>) -> (r: Result<Vec<EntryOutcome>, ArchiveError>)
    ensures
        r is Ok <==> zip_listing(bytes@) is Some,
        r matches Ok(outcomes) ==> {
            let listing = zip_listing(bytes@).unwrap();
            &&& outcomes@.len() == listing.len()
            &&& forall|i: int| 0 <= i < listing.len() ==> planned(listing[i], #[trigger] outcomes@[i])
        },
        r matches Ok(outcomes) ==> writes_inside(outcomes@),
{
    let ghost listing = zip_listing(bytes@).unwrap();
    let mut archive = match open_archive(bytes) {
        Ok(a) => a,
        Err(_) => return Err(ArchiveError::NotAnArchive),
    };
    let count = entry_count(&archive);
    let mut outcomes: Vec<EntryOutcome> = Vec::new();
    let mut i: usize = 0;
    while i < count
        invariant
            i <= count,
            count == listing.len(),
            archive_entries(archive) == listing,
            outcomes@.len() == i,
            forall|j: int| 0 <= j < i ==> planned(listing[j], #[trigger] outcomes@[j]),
            writes_inside(outcomes@),
        decreases count - i,
    {
        let outcome = match read_entry(&mut archive, i) {
            Ok(entry) => plan_entry(entry),
            Err(_) => EntryOutcome::Unreadable,
        };
        outcomes.push(outcome);
        i = i + 1;
    }
    Ok(outcomes)
}

} // verus!
