//! A zip container held in memory and read through the `zip` crate.
//!
//! What the container holds is not computed here: it is named, entry by
//! entry, and the functions of this crate say what they do with it.

use std::io::Cursor;
use std::io::Read;
use vstd::prelude::*;
use zip::ZipArchive;

verus! {

/// `std::io::Cursor`, the reader over bytes in memory, as an opaque type.
#[verifier::external_type_specification]
#[verifier::external_body]
#[verifier::reject_recursive_types(T)]
pub struct ExCursor<T>(Cursor<T>);

/// `zip::ZipArchive`, the reader of a zip container, as an opaque type.
#[verifier::external_type_specification]
#[verifier::external_body]
#[verifier::reject_recursive_types(R)]
pub struct ExZipArchive<R>(ZipArchive<R>);

/// Why `ZipArchive::new` refuses a file with these bytes, as the text of
/// its error; `None` where it accepts them.
pub uninterp spec fn zip_open_error(bytes: Seq<u8>) -> Option<Seq<char>>;

/// The entries of the archive that `ZipArchive::new` makes of these bytes,
/// as `archive_names` lists them.
pub uninterp spec fn zip_names(bytes: Seq<u8>) -> Seq<Result<Seq<char>, Seq<char>>>;

/// The entries of the archive that `ZipArchive::new` makes of these bytes,
/// as `archive_payloads` lists them.
pub uninterp spec fn zip_payloads(bytes: Seq<u8>) -> Seq<Result<Seq<u8>, Seq<char>>>;

/// What a search by name finds in the archive that `ZipArchive::new` makes
/// of these bytes, as `archive_named_payload` gives it.
pub uninterp spec fn zip_named_payload(bytes: Seq<u8>, name: Seq<char>) -> Result<
    Result<Seq<u8>, Seq<char>>,
    Seq<char>,
>;

/// For each entry that the archive keeps, in the order of the central
/// directory: the name that `by_index` and then `name` give, or the text of
/// the error of the one that fails. Entries of the central directory whose
/// raw names are equal are kept once.
pub uninterp spec fn archive_names(archive: ZipArchive<Cursor<Vec<u8>>>) -> Seq<
    Result<Seq<char>, Seq<char>>,
>;

/// For each entry that the archive keeps, in the order of the central
/// directory: the bytes that come out when the entry that `by_index` gives
/// is read to its end, or the text of the error of the one that fails.
pub uninterp spec fn archive_payloads(archive: ZipArchive<Cursor<Vec<u8>>>) -> Seq<
    Result<Seq<u8>, Seq<char>>,
>;

/// What `by_name` finds for a name: the text of its error, or else what
/// reading the entry to its end gives, the bytes or the text of that error.
pub uninterp spec fn archive_named_payload(
    archive: ZipArchive<Cursor<Vec<u8>>>,
    name: Seq<char>,
) -> Result<Result<Seq<u8>, Seq<char>>, Seq<char>>;

/// Whether two archive values hold the same entries.
pub open spec fn same_archive(
    before: ZipArchive<Cursor<Vec<u8>>>,
    after: ZipArchive<Cursor<Vec<u8>>>,
) -> bool {
    &&& archive_names(after) == archive_names(before)
    &&& archive_payloads(after) == archive_payloads(before)
    &&& forall|name: Seq<char>| #[trigger]
        archive_named_payload(after, name) == archive_named_payload(before, name)
}

/// A text outcome as plain values.
pub open spec fn text_outcome(outcome: Result<String, String>) -> Result<Seq<char>, Seq<char>> {
    match outcome {
        Ok(text) => Ok(text@),
        Err(cause) => Err(cause@),
    }
}

/// A byte outcome as plain values.
pub open spec fn bytes_outcome(outcome: Result<Vec<u8>, String>) -> Result<Seq<u8>, Seq<char>> {
    match outcome {
        Ok(bytes) => Ok(bytes@),
        Err(cause) => Err(cause@),
    }
}

/// The outcome of a search by name as plain values.
pub open spec fn named_outcome(outcome: Result<Result<Vec<u8>, String>, String>) -> Result<
    Result<Seq<u8>, Seq<char>>,
    Seq<char>,
> {
    match outcome {
        Ok(read) => Ok(bytes_outcome(read)),
        Err(cause) => Err(cause@),
    }
}

/// `ZipArchive::new` on a reader over `bytes` held in memory. It reads the
/// central directory and nothing else. The contract names the outcome:
/// whether the bytes are accepted, and what the archive made of them holds,
/// depends on the bytes alone.
#[verifier::external_body]
fn zip_open(bytes: Vec<u8>) -> (opened: Result<ZipArchive<Cursor<Vec<u8>>>, String>)
    ensures
        match opened {
            Ok(archive) => {
                &&& zip_open_error(bytes@) is None
                &&& archive_names(archive) == zip_names(bytes@)
                &&& archive_payloads(archive) == zip_payloads(bytes@)
                &&& forall|name: Seq<char>| #[trigger]
                    archive_named_payload(archive, name) == zip_named_payload(bytes@, name)
            },
            Err(cause) => zip_open_error(bytes@) == Some(cause@),
        },
{
    ZipArchive::new(Cursor::new(bytes)).map_err(|e| e.to_string())
}

/// `ZipArchive::len`: the number of entries of the central directory.
#[verifier::external_body]
fn zip_len(archive: &ZipArchive<Cursor<Vec<u8>>>) -> (count: usize)
    ensures
        count == archive_names(*archive).len(),
        count == archive_payloads(*archive).len(),
{
    archive.len()
}

/// `ZipArchive::by_index`, then `ZipFile::name`. Past the last entry
/// `by_index` returns an error. Neither call changes what the archive
/// holds: they move the reader and fill a cache of offsets.
#[verifier::external_body]
fn zip_entry_name(archive: &mut ZipArchive<Cursor<Vec<u8>>>, index: usize) -> (found: Result<
    String,
    String,
>)
    ensures
        same_archive(*old(archive), *final(archive)),
        index < archive_names(*old(archive)).len() ==> archive_names(*old(archive))[index as int]
            == text_outcome(found),
        index >= archive_names(*old(archive)).len() ==> found is Err,
{
    let file = archive.by_index(index).map_err(|e| e.to_string())?;
    let name = file.name().map_err(|e| e.to_string())?;
    Ok(name.into_owned())
}

/// `ZipArchive::by_index`, then `Read::read_to_end` on the entry, which
/// decompresses it and checks its checksum at the end. Past the last entry
/// `by_index` returns an error.
#[verifier::external_body]
fn zip_entry_payload(archive: &mut ZipArchive<Cursor<Vec<u8>>>, index: usize) -> (read: Result<
    Vec<u8>,
    String,
>)
    ensures
        same_archive(*old(archive), *final(archive)),
        index < archive_payloads(*old(archive)).len() ==> archive_payloads(*old(archive))[index as int]
            == bytes_outcome(read),
        index >= archive_payloads(*old(archive)).len() ==> read is Err,
{
    let mut file = archive.by_index(index).map_err(|e| e.to_string())?;
    let mut bytes = Vec::new();
    file.read_to_end(&mut bytes).map_err(|e| e.to_string())?;
    Ok(bytes)
}

/// Whether the entry at `index` bears `name` and yields `read`.
pub open spec fn entry_is(
    names: Seq<Result<Seq<char>, Seq<char>>>,
    payloads: Seq<Result<Seq<u8>, Seq<char>>>,
    index: int,
    name: Seq<char>,
    read: Result<Seq<u8>, Seq<char>>,
) -> bool {
    &&& 0 <= index < names.len()
    &&& index < payloads.len()
    &&& names[index] == Ok::<Seq<char>, Seq<char>>(name)
    &&& payloads[index] == read
}

/// `ZipArchive::by_name`, then `Read::read_to_end` on the entry. The outer
/// error is that of `by_name`, the inner one that of reading. `by_name`
/// looks the bytes of the name up among the raw names and then does what
/// `by_index` does at the index it found: the entry there bears the name,
/// and reading it gives what reading by index gives.
#[verifier::external_body]
fn zip_search(archive: &mut ZipArchive<Cursor<Vec<u8>>>, name: &str) -> (found: Result<
    Result<Vec<u8>, String>,
    String,
>)
    ensures
        same_archive(*old(archive), *final(archive)),
        archive_named_payload(*old(archive), name@) == named_outcome(found),
        found matches Ok(read) ==> exists|index: int| #[trigger]
            entry_is(
                archive_names(*old(archive)),
                archive_payloads(*old(archive)),
                index,
                name@,
                bytes_outcome(read),
            ),
{
    let mut file = archive.by_name(name).map_err(|e| e.to_string())?;
    let mut bytes = Vec::new();
    Ok(file.read_to_end(&mut bytes).map(|_| bytes).map_err(|e| e.to_string()))
}

/// An open zip container.
pub struct Archive {
    inner: ZipArchive<Cursor<Vec<u8>>>,
}

impl Archive {
    /// For each entry, in the order of the central directory: its name, or
    /// why it could not be opened.
    pub closed spec fn names(&self) -> Seq<Result<Seq<char>, Seq<char>>> {
        archive_names(self.inner)
    }

    /// For each entry, in the order of the central directory: its
    /// decompressed bytes, or why it could not be read.
    pub closed spec fn payloads(&self) -> Seq<Result<Seq<u8>, Seq<char>>> {
        archive_payloads(self.inner)
    }

    /// What a search for `name` yields: why no entry was opened, or else the
    /// decompressed bytes of the entry or why it could not be read.
    pub closed spec fn named_payload(&self, name: Seq<char>) -> Result<
        Result<Seq<u8>, Seq<char>>,
        Seq<char>,
    > {
        archive_named_payload(self.inner, name)
    }

    /// Whether `self` and `other` hold the same entries.
    pub open spec fn same_entries(&self, other: &Archive) -> bool {
        &&& self.names() == other.names()
        &&& self.payloads() == other.payloads()
        &&& forall|name: Seq<char>| #[trigger]
            self.named_payload(name) == other.named_payload(name)
    }

    /// Whether `self` holds what the bytes hold.
    pub open spec fn holds(&self, bytes: Seq<u8>) -> bool {
        &&& self.names() == zip_names(bytes)
        &&& self.payloads() == zip_payloads(bytes)
        &&& forall|name: Seq<char>| #[trigger]
            self.named_payload(name) == zip_named_payload(bytes, name)
    }

    /// Opens the container that `bytes` hold. Fails with the reader's
    /// message exactly when the bytes are no zip container. The archive
    /// holds what the bytes hold: opening the same bytes again gives the
    /// same entries.
    pub fn open(bytes: Vec<u8>) -> (opened: Result<Archive, String>)
        ensures
            match opened {
                Ok(archive) => zip_open_error(bytes@) is None && archive.holds(bytes@),
                Err(cause) => zip_open_error(bytes@) == Some(cause@),
            },
    {
        match zip_open(bytes) {
            Ok(inner) => Ok(Archive { inner }),
            Err(cause) => Err(cause),
        }
    }

    /// The number of entries.
    pub fn len(&self) -> (count: usize)
        ensures
            count == self.names().len(),
            count == self.payloads().len(),
    {
        zip_len(&self.inner)
    }

    /// The name of the entry at `index`, or why the entry could not be
    /// opened. Past the last entry this is an error.
    pub fn name_at(&mut self, index: usize) -> (found: Result<String, String>)
        ensures
            old(self).same_entries(final(self)),
            index < old(self).names().len() ==> old(self).names()[index as int] == text_outcome(
                found,
            ),
            index >= old(self).names().len() ==> found is Err,
    {
        zip_entry_name(&mut self.inner, index)
    }

    /// The decompressed bytes of the entry at `index`, or why they could
    /// not be read. Past the last entry this is an error.
    pub fn payload_at(&mut self, index: usize) -> (read: Result<Vec<u8>, String>)
        ensures
            old(self).same_entries(final(self)),
            index < old(self).payloads().len() ==> old(self).payloads()[index as int]
                == bytes_outcome(read),
            index >= old(self).payloads().len() ==> read is Err,
    {
        zip_entry_payload(&mut self.inner, index)
    }

    /// Searches the entry called `name` and reads it to its end. Where the
    /// search finds an entry, that entry bears the name, and what is read is
    /// what reading it by its index gives.
    pub fn payload_named(&mut self, name: &str) -> (found: Result<Result<Vec<u8>, String>, String>)
        ensures
            old(self).same_entries(final(self)),
            old(self).named_payload(name@) == named_outcome(found),
            found matches Ok(read) ==> exists|index: int| #[trigger]
                entry_is(
                    old(self).names(),
                    old(self).payloads(),
                    index,
                    name@,
                    bytes_outcome(read),
                ),
    {
        let found = zip_search(&mut self.inner, name);
        proof {
            if found is Ok {
                let read = found->Ok_0;
                let index = choose|index: int| #[trigger]
                    entry_is(
                        archive_names(old(self).inner),
                        archive_payloads(old(self).inner),
                        index,
                        name@,
                        bytes_outcome(read),
                    );
                assert(entry_is(
                    old(self).names(),
                    old(self).payloads(),
                    index,
                    name@,
                    bytes_outcome(read),
                ));
            }
        }
        found
    }
}

} // verus!
