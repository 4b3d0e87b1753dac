//! Turns a resolved registry file into a verified local artefact: the
//! pure checks of the fetch pipeline (declared hash, content type,
//! content length, checksum), with the transfer itself left to the
//! caller.

use vstd::prelude::*;

use crate::lockfile::{Artefact, Sha512Checksum};
use crate::model::File;
use crate::text::str_eq;
use vstd::string::StrSliceExecFns;

verus! {

/// Why a fetch failed.
#[derive(Debug, Clone, Copy, PartialEq, Eq, Structural)]
pub enum FetchError {
    /// The registry declares no SHA-512 hash for the file.
    MissingHash,
    /// The download response carries no content type.
    MissingContentType,
    /// The download response's content type is neither an archive nor a
    /// zip file.
    DisallowedContentType,
    /// The download response carries no content length.
    MissingContentLength,
    /// The download response's content length is not an unsigned decimal
    /// number.
    InvalidContentLength,
    /// The bytes on disk do not hash to the declared checksum.
    ChecksumMismatch,
}

/// Whether a content type is allowed for a downloaded artefact.
pub open spec fn spec_content_type_allowed(ct: Seq<char>) -> bool {
    ct == "application/java-archive"@ || ct == "application/zip"@
}

/// Checks the declared content type of a fresh download: it must be
/// present, and it must name a JAR archive or a ZIP file.
pub fn validate_content_type(content_type: Option<&str>) -> (r: Result<(), FetchError>)
    ensures
        content_type is None ==> r == Result::<(), FetchError>::Err(FetchError::MissingContentType),
        content_type matches Some(ct) ==> r == (if spec_content_type_allowed(ct@) {
            Result::<(), FetchError>::Ok(())
        } else {
            Result::<(), FetchError>::Err(FetchError::DisallowedContentType)
        }),
{
    match content_type {
        None => Err(FetchError::MissingContentType),
        Some(ct) => {
            if str_eq(ct, "application/java-archive") || str_eq(ct, "application/zip") {
                Ok(())
            } else {
                Err(FetchError::DisallowedContentType)
            }
        },
    }
}

/// Whether `c` is a decimal digit.
pub open spec fn is_digit(c: char) -> bool {
    48 <= c as int <= 57
}

/// The numeric value of a digit character.
pub open spec fn digit_val(c: char) -> int {
    c as int - 48
}

/// Whether every character of `s` is a decimal digit.
pub open spec fn all_digits(s: Seq<char>) -> bool {
    forall|i: int| 0 <= i < s.len() ==> is_digit(#[trigger] s[i])
}

/// The value of `s` read as a decimal numeral.
pub open spec fn dec_value(s: Seq<char>) -> int
    decreases s.len(),
{
    if s.len() == 0 {
        0
    } else {
        dec_value(s.drop_last()) * 10 + digit_val(s.last())
    }
}

/// What parsing `s` as an unsigned decimal number yields: a value
/// exactly when `s` is a non-empty, all-digit numeral whose value fits.
pub open spec fn spec_parse_u64(s: Seq<char>) -> Option<u64> {
    if s.len() > 0 && all_digits(s) && dec_value(s) <= u64::MAX {
        Some(dec_value(s) as u64)
    } else {
        None
    }
}

proof fn lemma_dec_value_nonneg(s: Seq<char>)
    requires
        all_digits(s),
    ensures
        dec_value(s) >= 0,
    decreases s.len(),
{
    if s.len() > 0 {
        lemma_dec_value_nonneg(s.drop_last());
    }
}

proof fn lemma_dec_value_prefix_le(s: Seq<char>, j: int)
    requires
        all_digits(s),
        0 <= j <= s.len(),
    ensures
        dec_value(s.take(j)) <= dec_value(s),
    decreases s.len() - j,
{
    if j < s.len() {
        lemma_dec_value_prefix_le(s, j + 1);
        assert(s.take(j + 1).drop_last() =~= s.take(j));
        assert(s.take(j + 1).last() == s[j]);
        assert(forall|i: int| 0 <= i < s.take(j).len() ==> is_digit(#[trigger] s.take(j)[i]));
        lemma_dec_value_nonneg(s.take(j));
    } else {
        assert(s.take(j) =~= s);
    }
}

/// Parses `s` as an unsigned decimal number. Returns a value exactly
/// when `s` is non-empty, all digits, and fits in the result type.
pub fn parse_u64(s: &str) -> (r: Option<u64>)
    ensures
        r == spec_parse_u64(s@),
{
    let len = s.unicode_len();
    if len == 0 {
        return None;
    }
    let mut n: u64 = 0;
    let mut i: usize = 0;
    while i < len
        invariant
            0 < len == s@.len(),
            i <= len,
            all_digits(s@.take(i as int)),
            n == dec_value(s@.take(i as int)),
        decreases len - i,
    {
        let c = s.get_char(i);
        let d = c as u32;
        if d < 48 || d > 57 {
            assert(!is_digit(s@[i as int]));
            return None;
        }
        let digit = (d - 48) as u64;
        if n > (u64::MAX - digit) / 10 {
            proof {
                assert(s@.take(i + 1).drop_last() =~= s@.take(i as int));
                assert(s@.take(i + 1).last() == s@[i as int]);
                assert(dec_value(s@.take(i + 1)) == n * 10 + digit);
                assert(n * 10 + digit > u64::MAX) by (nonlinear_arith)
                    requires
                        n > (u64::MAX - digit) / 10,
                        digit <= 9,
                ;
                if all_digits(s@) {
                    lemma_dec_value_prefix_le(s@, i + 1);
                }
            }
            return None;
        }
        proof {
            assert(n * 10 + digit <= u64::MAX) by (nonlinear_arith)
                requires
                    n <= (u64::MAX - digit) / 10,
                    digit <= 9,
            ;
            assert(s@.take(i + 1).drop_last() =~= s@.take(i as int));
            assert(s@.take(i + 1).last() == s@[i as int]);
        }
        n = n * 10 + digit;
        i += 1;
    }
    proof {
        assert(s@.take(len as int) =~= s@);
    }
    Some(n)
}

/// What the content-length check decides: an error when the header is
/// absent or not a number, otherwise whether the header value equals the
/// known body length (an absent body length counts as zero).
pub open spec fn spec_content_length_verdict(
    body_length: Option<u64>,
    header: Option<Seq<char>>,
) -> Result<bool, FetchError> {
    match header {
        Option::None => Result::Err(FetchError::MissingContentLength),
        Option::Some(h) => match spec_parse_u64(h) {
            Option::None => Result::Err(FetchError::InvalidContentLength),
            Option::Some(n) => Result::Ok(
                n == match body_length {
                    Option::Some(b) => b,
                    Option::None => 0u64,
                },
            ),
        },
    }
}

/// Checks the declared content length of a fresh download against the
/// body length the transport reports. A missing or malformed header is
/// an error; a mere mismatch is reported as `Ok(false)` so the caller
/// can warn without failing the fetch.
pub fn validate_content_length(body_length: Option<u64>, header: Option<&str>) -> (r: Result<
    bool,
    FetchError,
>)
    ensures
        r == spec_content_length_verdict(
            body_length,
            match header {
                Option::Some(h) => Option::Some(h@),
                Option::None => Option::None,
            },
        ),
{
    let header_value = match header {
        None => {
            return Err(FetchError::MissingContentLength);
        },
        Some(h) => match parse_u64(h) {
            None => {
                return Err(FetchError::InvalidContentLength);
            },
            Some(n) => n,
        },
    };
    let body = match body_length {
        Some(b) => b,
        None => 0,
    };
    Ok(header_value == body)
}

/// The SHA-512 digest of a byte sequence; 64 bytes, computed by the
/// hashing library.
pub uninterp spec fn sha512_of(bytes: Seq<u8>) -> Seq<u8>;

/// The lower-case hex character for a nibble.
pub open spec fn hex_digit(n: u8) -> char {
    if n < 10 {
        ((n + 0x30) as u8) as char
    } else {
        ((n + 0x57) as u8) as char
    }
}

/// The lower-case hex encoding of a byte sequence: for each byte the
/// high nibble's digit, then the low nibble's.
pub open spec fn hex_of(bytes: Seq<u8>) -> Seq<char>
    decreases bytes.len(),
{
    if bytes.len() == 0 {
        Seq::empty()
    } else {
        hex_of(bytes.drop_last()).push(hex_digit(bytes.last() / 16)).push(
            hex_digit(bytes.last() % 16),
        )
    }
}

/// Relies on sha2's `Sha512::digest`: the 64-byte SHA-512 digest, a
/// function of the input bytes alone.
#[verifier::external_body]
fn sha512_digest(data: &[u8]) -> (r: Vec<u8>)
    ensures
        r@ == sha512_of(data@),
        r@.len() == 64,
{
    <sha2::Sha512 as sha2::Digest>::digest(data).as_slice().to_vec()
}

/// Relies on `hex::encode`: two lower-case hex digits per byte, high
/// nibble first.
#[verifier::external_body]
fn to_hex(data: &Vec<u8>) -> (r: String)
    ensures
        r@ == hex_of(data@),
{
    hex::encode(data)
}

/// Whether `data` hashes to the checksum `expected`.
pub open spec fn spec_checksum_ok(expected: Sha512Checksum, data: Seq<u8>) -> bool {
    hex_of(sha512_of(data)) == expected.0@
}

/// Compares the SHA-512 digest of `data`, in lower-case hex, against the
/// declared checksum. A mismatch is fatal for the artefact.
pub fn verify_checksum(expected: &Sha512Checksum, data: &[u8]) -> (r: Result<(), FetchError>)
    ensures
        r is Ok <==> spec_checksum_ok(*expected, data@),
        r matches Err(e) ==> e == FetchError::ChecksumMismatch,
{
    let digest = sha512_digest(data);
    let local_hex = to_hex(&digest);
    if local_hex == expected.0 {
        Ok(())
    } else {
        Err(FetchError::ChecksumMismatch)
    }
}

/// How the fetch of one file proceeds.
#[derive(Debug, Clone, Copy, PartialEq, Eq, Structural)]
pub enum FetchPlan {
    /// The file is not on disk yet: it must be downloaded, and the
    /// response's content type and length are checked.
    Download,
    /// The file already exists locally: no network request is made and
    /// the response checks are bypassed; only the checksum still decides.
    ReuseExisting,
}

/// What the fetch of one file decides before any transfer: a file
/// without a declared hash fails at once, an already-present file is
/// reused, anything else is downloaded.
pub open spec fn spec_plan_fetch(file: File, exists: bool) -> Result<FetchPlan, FetchError> {
    if file.hashes.sha512 is None {
        Result::Err(FetchError::MissingHash)
    } else if exists {
        Result::Ok(FetchPlan::ReuseExisting)
    } else {
        Result::Ok(FetchPlan::Download)
    }
}

/// Decides how to fetch `file`, given whether its destination path
/// already exists.
pub fn plan_fetch(file: &File, exists: bool) -> (r: Result<FetchPlan, FetchError>)
    ensures
        r == spec_plan_fetch(*file, exists),
{
    if file.hashes.sha512.is_none() {
        Err(FetchError::MissingHash)
    } else if exists {
        Ok(FetchPlan::ReuseExisting)
    } else {
        Ok(FetchPlan::Download)
    }
}

/// The verdict of the fetch pipeline on local bytes: an error when no
/// hash is declared or the bytes do not match it, success otherwise.
pub open spec fn spec_fetch_verdict(file: File, data: Seq<u8>) -> Result<(), FetchError> {
    match file.hashes.sha512 {
        Option::None => Result::Err(FetchError::MissingHash),
        Option::Some(h) => if hex_of(sha512_of(data)) == h@ {
            Result::Ok(())
        } else {
            Result::Err(FetchError::ChecksumMismatch)
        },
    }
}

/// Finishes the fetch of one file: the bytes now on disk are hashed and
/// compared against the declared checksum, and on success the lock entry
/// for the artefact is produced.
pub fn complete_fetch(
    project_id: &str,
    project_slug: &str,
    version_id: &str,
    version_number: &str,
    file: &File,
    data: &[u8],
) -> (r: Result<Artefact, FetchError>)
    ensures
        r matches Err(e) ==> spec_fetch_verdict(*file, data@) == Result::<(), FetchError>::Err(e),
        r is Ok <==> spec_fetch_verdict(*file, data@) is Ok,
        r matches Ok(a) ==> {
            &&& a.project_id@ == project_id@
            &&& a.project_slug@ == project_slug@
            &&& a.version_id@ == version_id@
            &&& a.version_number@ == version_number@
            &&& a.filename@ == file.filename@
            &&& file.hashes.sha512 matches Some(h) && a.checksum.0@ == h@
            &&& spec_checksum_ok(a.checksum, data@)
        },
{
    let artefact = match Artefact::new(project_id, project_slug, version_id, version_number, file) {
        Ok(a) => a,
        Err(e) => {
            return Err(e);
        },
    };
    match verify_checksum(&artefact.checksum, data) {
        Ok(()) => Ok(artefact),
        Err(e) => Err(e),
    }
}

/// A pre-existing local file is accepted as the download result without
/// any network request, yet a checksum mismatch against the declared
/// hash still fails the fetch.
pub proof fn lemma_stale_existing_file_fails(file: File, data: Seq<u8>)
    requires
        file.hashes.sha512 is Some,
        hex_of(sha512_of(data)) != file.hashes.sha512->0@,
    ensures
        spec_plan_fetch(file, true) == Result::<FetchPlan, FetchError>::Ok(FetchPlan::ReuseExisting),
        spec_fetch_verdict(file, data) == Result::<(), FetchError>::Err(FetchError::ChecksumMismatch),
{
}

} // verus!
