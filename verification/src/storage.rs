//! File storage: the storage policy, library file names and content hashes.
use vstd::prelude::*;
use sha2::Digest;
use crate::text::{append_str, chars_of, string_from_chars};

verus! {

/// What happens to an added file.
#[derive(Clone, Copy, Debug, PartialEq, Eq, Structural)]
pub enum FileStoragePolicy {
    CopyToLibrary,
    ReferenceOnly,
    CopyAndTrash,
}

impl Default for FileStoragePolicy {
    fn default() -> (r: Self)
        ensures
            r == FileStoragePolicy::CopyToLibrary,
    {
        FileStoragePolicy::CopyToLibrary
    }
}

pub open spec fn policy_label(p: FileStoragePolicy) -> Seq<char> {
    match p {
        FileStoragePolicy::CopyToLibrary => "복사"@,
        FileStoragePolicy::ReferenceOnly => "참조"@,
        FileStoragePolicy::CopyAndTrash => "복사+휴지통"@,
    }
}

impl FileStoragePolicy {
    /// The label of the policy in the settings.
    pub fn as_str(&self) -> (r: &str)
        ensures
            r@ == policy_label(*self),
    {
        match self {
            FileStoragePolicy::CopyToLibrary => "복사",
            FileStoragePolicy::ReferenceOnly => "참조",
            FileStoragePolicy::CopyAndTrash => "복사+휴지통",
        }
    }
}

/// The file name of a document in the library: its citation key, a dot and
/// the extension.
pub fn build_library_filename(citation_key: &str, extension: &str) -> (r: String)
    ensures
        r@ == citation_key@ + "."@ + extension@,
{
    let mut v = chars_of(citation_key);
    append_str(&mut v, ".");
    append_str(&mut v, extension);
    string_from_chars(&v)
}

/// The SHA-256 digest of some bytes.
pub uninterp spec fn sha256(data: Seq<u8>) -> Seq<u8>;

/// Calls `sha2::Sha256::digest` (through `digest::Digest`) on the bytes and
/// returns the digest; the contract names the result and states its
/// documented length of 32 bytes.
#[verifier::external_body]
fn sha256_digest(data: &[u8]) -> (r: Vec<u8>)
    ensures
        r@ == sha256(data@),
        r@.len() == 32,
{
    sha2::Sha256::digest(data).to_vec()
}

pub open spec fn hex_digit(n: u8) -> char {
    if n < 10 {
        ((('0' as u8) + n) as u8) as char
    } else {
        ((('a' as u8) + (n - 10)) as u8) as char
    }
}

/// Lowercase hexadecimal, two digits per byte.
pub open spec fn hex_lower(bytes: Seq<u8>) -> Seq<char>
    decreases bytes.len(),
{
    if bytes.len() == 0 {
        seq![]
    } else {
        hex_lower(bytes.drop_last()) + seq![hex_digit(bytes.last() / 16), hex_digit(bytes.last() % 16)]
    }
}

fn hex_digit_exec(n: u8) -> (c: char)
    requires
        n < 16,
    ensures
        c == hex_digit(n),
{
    match n {
        0 => '0',
        1 => '1',
        2 => '2',
        3 => '3',
        4 => '4',
        5 => '5',
        6 => '6',
        7 => '7',
        8 => '8',
        9 => '9',
        10 => 'a',
        11 => 'b',
        12 => 'c',
        13 => 'd',
        14 => 'e',
        _ => 'f',
    }
}

/// Encodes bytes in lowercase hexadecimal.
pub fn to_hex(bytes: &[u8]) -> (r: String)
    ensures
        r@ == hex_lower(bytes@),
{
    let mut out: Vec<char> = Vec::new();
    let mut i: usize = 0;
    assert(bytes@.take(0) =~= Seq::<u8>::empty());
    while i < bytes.len()
        invariant
            i <= bytes.len(),
            out@ == hex_lower(bytes@.take(i as int)),
        decreases bytes.len() - i,
    {
        let b = bytes[i];
        out.push(hex_digit_exec(b / 16));
        out.push(hex_digit_exec(b % 16));
        assert(bytes@.take(i + 1).drop_last() =~= bytes@.take(i as int));
        assert(out@ =~= hex_lower(bytes@.take(i + 1)));
        i += 1;
    }
    assert(bytes@.take(bytes.len() as int) =~= bytes@);
    string_from_chars(&out)
}

/// The content hash of a file's bytes: its SHA-256 digest in lowercase
/// hexadecimal (64 characters).
pub fn compute_hash(bytes: &[u8]) -> (r: String)
    ensures
        r@ == hex_lower(sha256(bytes@)),
        r@.len() == 64,
{
    let d = sha256_digest(bytes);
    let r = to_hex(d.as_slice());
    proof {
        lemma_hex_len(d@);
    }
    r
}

proof fn lemma_hex_len(bytes: Seq<u8>)
    ensures
        hex_lower(bytes).len() == 2 * bytes.len(),
    decreases bytes.len(),
{
    if bytes.len() > 0 {
        lemma_hex_len(bytes.drop_last());
    }
}

} // verus!
