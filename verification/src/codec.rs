use crate::credcache::VerificationToken;
use std::io::Cursor;
use vstd::prelude::*;

verus! {

/// `zip::ZipArchive` declared for Verus: values of it are carried opaquely
/// through the library and touched only by the trusted wrappers below.
#[verifier::external_type_specification]
#[verifier::external_body]
#[verifier::reject_recursive_types(R)]
pub struct ExZipArchive<R>(zip::ZipArchive<R>);

/// `std::io::Cursor` declared for Verus: the in-memory reader the archive is
/// parsed from.
#[verifier::external_type_specification]
#[verifier::external_body]
#[verifier::reject_recursive_types(T)]
pub struct ExCursor<T>(Cursor<T>);

/// What one entry access reported, reduced to plain values.
pub enum RawEntry {
    /// The entry opened: its raw stored name and uncompressed size.
    Opened { name: String, size: u64 },
    /// The entry is encrypted and the access carried no password.
    NeedsPassword,
    /// The access failed for another reason; carries the error's rendering.
    Failed { message: String },
}

/// Names what parsing the given bytes as an archive yields: `None` when the
/// container is unreadable, otherwise the passwordless read outcome of each
/// entry, in index order.  The parse works on the bytes alone, so this is a
/// function of them.
pub uninterp spec fn zip_parse(bytes: Seq<u8>) -> Option<Seq<RawEntry>>;

/// Names an archive's per-entry read outcomes: what a passwordless access to
/// each index reports.  Every access seeks absolutely within the in-memory
/// bytes, so this depends on the archive value alone.
pub uninterp spec fn entries_of(a: zip::ZipArchive<Cursor<Vec<u8>>>) -> Seq<RawEntry>;

/// Names an archive's per-entry verification tokens: the two
/// password-verification bytes of each AES-encrypted entry, `None` for the
/// others.
pub uninterp spec fn entry_tokens(a: zip::ZipArchive<Cursor<Vec<u8>>>) -> Seq<
    Option<VerificationToken>,
>;

/// Names an archive's decode outcomes: what an access to the entry at an
/// index with the given password bytes reports.  The domain covers every
/// in-range index with any password.
pub uninterp spec fn decrypt_outcomes(a: zip::ZipArchive<Cursor<Vec<u8>>>) -> Map<
    (int, Seq<u8>),
    RawEntry,
>;

/// Relies on zip::ZipArchive::new: parses the central directory of the
/// archive held in the in-memory bytes; a failure is returned as the error's
/// rendering.  Whether the parse succeeds, and what the entries then report,
/// depends on the bytes alone.
#[verifier::external_body]
pub(crate) fn open_archive(bytes: Vec<u8>) -> (r: Result<
    zip::ZipArchive<Cursor<Vec<u8>>>,
    String,
>)
    ensures
        (r is Ok) == (zip_parse(bytes@) is Some),
        r matches Ok(a) ==> zip_parse(bytes@) == Some(entries_of(a)),
{
    match zip::ZipArchive::new(Cursor::new(bytes)) {
        Ok(a) => Ok(a),
        Err(e) => Err(e.to_string()),
    }
}

/// Relies on zip::ZipArchive::len: the number of entries in the archive.
#[verifier::external_body]
pub(crate) fn archive_len(archive: &zip::ZipArchive<Cursor<Vec<u8>>>) -> (n: usize)
    ensures
        n == entries_of(*archive).len(),
{
    archive.len()
}

/// Relies on zip::ZipArchive::by_index: opens the entry at `index` without a
/// password.  An encrypted entry is reported distinctly through the
/// password-required failure; an opened entry hands out its raw stored name
/// and uncompressed size; an out-of-range index is a file-not-found failure.
/// Reading moves only the reader's position, which no later access depends
/// on, so the named outcomes are preserved.
#[verifier::external_body]
pub(crate) fn read_entry(archive: &mut zip::ZipArchive<Cursor<Vec<u8>>>, index: usize) -> (r:
    RawEntry)
    ensures
        entries_of(*final(archive)) == entries_of(*old(archive)),
        entry_tokens(*final(archive)) == entry_tokens(*old(archive)),
        decrypt_outcomes(*final(archive)) == decrypt_outcomes(*old(archive)),
        index < entries_of(*old(archive)).len() ==> r == entries_of(*old(archive))[index as int],
        index >= entries_of(*old(archive)).len() ==> r is Failed,
{
    match archive.by_index(index) {
        Ok(f) => RawEntry::Opened { name: f.name().to_string(), size: f.size() },
        Err(zip::result::ZipError::UnsupportedArchive(
            zip::result::ZipError::PASSWORD_REQUIRED,
        )) => RawEntry::NeedsPassword,
        Err(e) => RawEntry::Failed { message: e.to_string() },
    }
}

/// Relies on zip::ZipArchive::by_index_decrypt: opens the entry at `index`,
/// decrypting with the given password bytes; an out-of-range index is a
/// file-not-found failure.  The outcome depends on the archive, the index
/// and the password alone, and accesses preserve the named outcomes.
#[verifier::external_body]
pub(crate) fn decrypt_entry(
    archive: &mut zip::ZipArchive<Cursor<Vec<u8>>>,
    index: usize,
    password: &Vec<u8>,
) -> (r: RawEntry)
    ensures
        entries_of(*final(archive)) == entries_of(*old(archive)),
        entry_tokens(*final(archive)) == entry_tokens(*old(archive)),
        decrypt_outcomes(*final(archive)) == decrypt_outcomes(*old(archive)),
        index < entries_of(*old(archive)).len() ==> decrypt_outcomes(
            *old(archive),
        ).contains_key((index as int, password@)) && r == decrypt_outcomes(*old(archive))[(
            index as int,
            password@,
        )],
        index >= entries_of(*old(archive)).len() ==> r is Failed,
{
    match archive.by_index_decrypt(index, password.as_slice()) {
        Ok(f) => RawEntry::Opened { name: f.name().to_string(), size: f.size() },
        Err(zip::result::ZipError::UnsupportedArchive(
            zip::result::ZipError::PASSWORD_REQUIRED,
        )) => RawEntry::NeedsPassword,
        Err(e) => RawEntry::Failed { message: e.to_string() },
    }
}

/// Relies on zip::ZipArchive::get_aes_verification_key_and_salt: the two
/// password-verification bytes of an AES-encrypted entry, absent for
/// plaintext entries, for encryption schemes without them, and for an
/// out-of-range index.  Accesses preserve the named outcomes.
#[verifier::external_body]
pub(crate) fn entry_token(archive: &mut zip::ZipArchive<Cursor<Vec<u8>>>, index: usize) -> (t:
    Option<VerificationToken>)
    ensures
        entries_of(*final(archive)) == entries_of(*old(archive)),
        entry_tokens(*final(archive)) == entry_tokens(*old(archive)),
        decrypt_outcomes(*final(archive)) == decrypt_outcomes(*old(archive)),
        index < entries_of(*old(archive)).len() ==> t == entry_tokens(*old(archive))[index as int],
        index >= entries_of(*old(archive)).len() ==> t is None,
{
    match archive.get_aes_verification_key_and_salt(index) {
        Ok(Some(info)) => Some(
            VerificationToken { b0: info.verification_value[0], b1: info.verification_value[1] },
        ),
        _ => None,
    }
}

} // verus!
