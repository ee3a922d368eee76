//! Calls into outside crates.  Each item here is trusted: Verus takes its
//! contract as given.  The contracts say only what the outside crate's
//! source or documentation shows.
use vstd::prelude::*;
use rand::{Rng, RngCore};

verus! {

/// A fresh random (version 4) UUID, as its 128-bit value.  Calls
/// `uuid::Uuid::new_v4` and `Uuid::as_u128`.  The value is random, so
/// nothing is promised about it.
#[verifier::external_body]
pub(crate) fn new_uuid() -> (id: u128) {
    uuid::Uuid::new_v4().as_u128()
}

/// The current wall-clock time in milliseconds since the Unix epoch.
/// Calls `chrono::Utc::now` and `DateTime::timestamp_millis`.  The value
/// depends on the clock, so nothing is promised about it.
#[verifier::external_body]
pub(crate) fn now_millis() -> (t: i64) {
    chrono::Utc::now().timestamp_millis()
}

/// One step of the CRC-32 (IEEE, reflected, polynomial `0xEDB88320`)
/// register over one bit.
pub open spec fn crc32_bit(crc: u32) -> u32 {
    if crc & 1 == 1 { (crc >> 1) ^ 0xEDB8_8320u32 } else { crc >> 1 }
}

/// The CRC-32 register after eight bit steps.
pub open spec fn crc32_bits(crc: u32, n: nat) -> u32
    decreases n,
{
    if n == 0 { crc } else { crc32_bits(crc32_bit(crc), (n - 1) as nat) }
}

/// The CRC-32 register after the bytes of `data`, starting from `init`.
pub open spec fn crc32_register(init: u32, data: Seq<u8>) -> u32
    decreases data.len(),
{
    if data.len() == 0 {
        init
    } else {
        crc32_bits(crc32_register(init, data.drop_last()) ^ (data.last() as u32), 8)
    }
}

/// The CRC-32 (IEEE) checksum of a byte sequence: the register starts at
/// all ones and the result is its complement.
pub open spec fn crc32_of(data: Seq<u8>) -> u32 {
    !crc32_register(0xFFFF_FFFFu32, data)
}

/// Computes the CRC-32 (IEEE) checksum of `data` with `crc32fast::hash`,
/// which computes the checksum defined by `crc32_of`.
#[verifier::external_body]
pub(crate) fn crc32(data: &[u8]) -> (c: u32)
    ensures
        c == crc32_of(data@),
{
    crc32fast::hash(data)
}

/// `n` random bytes from the thread-local generator.  Calls
/// `rand::thread_rng` and `RngCore::fill_bytes` on a zeroed buffer of `n`
/// bytes; only the length is promised.
#[verifier::external_body]
pub(crate) fn random_bytes(n: usize) -> (v: Vec<u8>)
    ensures
        v@.len() == n,
{
    let mut key = vec![0u8; n];
    rand::thread_rng().fill_bytes(&mut key);
    key
}

/// A random 64-bit number from the thread-local generator.  Calls
/// `rand::thread_rng` and `Rng::gen::<u64>`; nothing is promised about it.
#[verifier::external_body]
pub(crate) fn random_u64() -> (x: u64) {
    rand::thread_rng().gen::<u64>()
}

/// The user's data directory.  Calls `dirs::data_dir`, whose answer
/// depends on the platform and the environment (`$XDG_DATA_HOME` or
/// `$HOME/.local/share` on Linux), so nothing is promised about it.  The
/// path is handed back as text, lossily where it is not UTF-8.
#[verifier::external_body]
pub(crate) fn data_dir() -> (d: Option<String>) {
    match dirs::data_dir() {
        Some(p) => Some(p.to_string_lossy().into_owned()),
        None => None,
    }
}

/// The text chrono gives for a time in milliseconds since the Unix epoch,
/// in UTC, formatted with a `strftime`-style pattern, or `None` where the
/// time is out of chrono's range.
pub uninterp spec fn chrono_text(millis: i64, pattern: Seq<char>) -> Option<Seq<char>>;

/// The `strftime`-style patterns the library formats times with; chrono
/// knows every specifier in them (an unknown one makes `to_string` panic).
pub open spec fn accepted_time_pattern(pattern: Seq<char>) -> bool {
    pattern == "%Y-%m-%d %H:%M:%S UTC"@ || pattern == "%Y%m%d%H%M%S"@
}

/// Formats a time with `chrono::DateTime::<Utc>::from_timestamp_millis` and
/// `DateTime::format(pattern)`.  The text is a function of the time and
/// the pattern alone.
#[verifier::external_body]
pub(crate) fn format_time(millis: i64, pattern: &str) -> (s: Option<String>)
    requires
        accepted_time_pattern(pattern@),
    ensures
        match s {
            Some(t) => chrono_text(millis, pattern@) == Some(t@),
            None => chrono_text(millis, pattern@) is None,
        },
{
    match chrono::DateTime::<chrono::Utc>::from_timestamp_millis(millis) {
        Some(t) => Some(t.format(pattern).to_string()),
        None => None,
    }
}

/// What `uuid::Uuid::parse_str` gives for a text, as the UUID's 128-bit
/// value, or `None` where it refuses the text.
pub uninterp spec fn uuid_parse(s: Seq<char>) -> Option<u128>;

/// Parses a UUID with `uuid::Uuid::parse_str` (simple, hyphenated, braced
/// or URN form) and gives its value with `Uuid::as_u128`.  The answer is a
/// function of the text alone; the hyphenated lowercase text that `Uuid`
/// displays for a value parses back to that value; and only texts of 32
/// (simple), 36 (hyphenated), 38 (braced) or 45 (URN) characters parse.
#[verifier::external_body]
pub(crate) fn parse_uuid(s: &str) -> (r: Option<u128>)
    ensures
        r == uuid_parse(s@),
        r is Some ==> s@.len() == 32 || s@.len() == 36 || s@.len() == 38 || s@.len() == 45,
        forall|x: u128| s@ == crate::text::uuid_text(x) ==> r == Some(x),
{
    match uuid::Uuid::parse_str(s) {
        Ok(u) => Some(u.as_u128()),
        Err(_) => None,
    }
}

/// The text `{:?}` prints for a path.
pub uninterp spec fn path_debug(s: Seq<char>) -> Seq<char>;

/// Formats a path with `{:?}` (`<std::path::Path as Debug>::fmt`): the
/// text quoted, with escapes.  The text is a function of the path alone.
#[verifier::external_body]
pub(crate) fn debug_path(s: &str) -> (r: String)
    ensures
        r@ == path_debug(s@),
{
    format!("{:?}", std::path::Path::new(s))
}

/// The text `{:?}` prints for a list of strings.
pub uninterp spec fn strings_debug(v: Seq<Seq<char>>) -> Seq<char>;

/// Formats a list of strings with `{:?}` (`<[String] as Debug>::fmt`):
/// each quoted with escapes, separated by `, `, in brackets.  The text is
/// a function of the strings alone.
#[verifier::external_body]
pub(crate) fn debug_strings(v: &Vec<String>) -> (r: String)
    ensures
        r@ == strings_debug(crate::labels::strings_view(v@)),
{
    format!("{:?}", v.as_slice())
}

} // verus!
