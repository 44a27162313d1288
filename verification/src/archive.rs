use vstd::prelude::*;

use std::io::Read;

use crate::errors::ConvertError;

verus! {

/// The outcome of reading the entry stored under `name` in the zip archive
/// whose bytes are `archive`: `Ok` of the entry's decompressed bytes when
/// the archive parses and holds a readable entry under the name,
/// `Err(EntryNotFound)` when a parsed archive's directory does not list the
/// name, and `Err(IoError)` when the archive cannot be parsed or the
/// entry's data cannot be decompressed.  Parsing, lookup and decompression
/// depend on the two arguments alone, so the outcome is a function of them.
pub uninterp spec fn archive_read(archive: Seq<u8>, name: Seq<char>) -> Result<
    Seq<u8>,
    ConvertError,
>;

/// The archive read succeeds with exactly the bytes `v`.
pub open spec fn read_gives(archive: Seq<u8>, name: Seq<char>, v: Seq<u8>) -> bool {
    archive_read(archive, name) == Ok::<Seq<u8>, ConvertError>(v)
}

/// The archive read fails with exactly the error `e`.
pub open spec fn read_fails(archive: Seq<u8>, name: Seq<char>, e: ConvertError) -> bool {
    archive_read(archive, name) == Err::<Seq<u8>, ConvertError>(e)
}

/// Relies on zip's `ZipArchive::new`, `ZipArchive::by_name` and the entry
/// reader's `Read::read_to_end`: for fixed archive bytes and entry name the
/// outcome is deterministic; `by_name` fails with `FileNotFound` exactly
/// when a parsed archive's directory has no entry under the name; every
/// other failure (unparsable archive, damaged entry data) is an I/O fault.
#[verifier::external_body]
pub(crate) fn entry_bytes(archive: &Vec<u8>, name: &str) -> (r: Result<Vec<u8>, ConvertError>)
    ensures
        r is Ok <==> archive_read(archive@, name@) is Ok,
        r matches Ok(v) ==> read_gives(archive@, name@, v@),
        r matches Err(e) ==> read_fails(archive@, name@, e),
        r matches Err(e) ==> (e == ConvertError::EntryNotFound || e == ConvertError::IoError),
{
    let mut za = match zip::ZipArchive::new(std::io::Cursor::new(archive.as_slice())) {
        Ok(z) => z,
        Err(_) => return Err(ConvertError::IoError),
    };
    let mut file = match za.by_name(name) {
        Ok(f) => f,
        Err(zip::result::ZipError::FileNotFound) => return Err(ConvertError::EntryNotFound),
        Err(_) => return Err(ConvertError::IoError),
    };
    let mut data = Vec::new();
    match file.read_to_end(&mut data) {
        Ok(_) => Ok(data),
        Err(_) => Err(ConvertError::IoError),
    }
}

} // verus!
