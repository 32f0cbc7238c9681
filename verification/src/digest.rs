//! Digests of downloads.

use sha2::Digest;
use vstd::prelude::*;

use crate::strings;
use crate::text;

verus! {

/// The hexadecimal digit, in lower case, of a number below sixteen.
pub open spec fn hex_char(n: int) -> char {
    if n < 10 {
        (('0' as u32) + n) as char
    } else {
        (('a' as u32) + (n - 10)) as char
    }
}

/// The bytes in hexadecimal, two digits in lower case for each.
pub open spec fn hex(bytes: Seq<u8>) -> Seq<char>
    decreases bytes.len(),
{
    if bytes.len() == 0 {
        Seq::empty()
    } else {
        hex(bytes.drop_last()) + seq![
            hex_char(bytes.last() as int / 16),
            hex_char(bytes.last() as int % 16),
        ]
    }
}

fn hex_digit(n: u8) -> (r: char)
    requires
        n < 16,
    ensures
        r == hex_char(n as int),
{
    if n < 10 {
        (('0' as u8) + n) as char
    } else {
        (('a' as u8) + (n - 10)) as char
    }
}

/// The bytes in hexadecimal, two digits in lower case for each.
pub fn bytes_to_hex(bytes: &[u8]) -> (r: String)
    ensures
        r@ == hex(bytes@),
{
    let mut output: String = String::new();
    assert(bytes@.take(0) =~= Seq::<u8>::empty());
    for i in 0..bytes.len()
        invariant
            output@ == hex(bytes@.take(i as int)),
    {
        let b: u8 = bytes[i];
        let ghost before = output@;
        output.push(hex_digit(b / 16));
        output.push(hex_digit(b % 16));
        assert(bytes@.take(i + 1).drop_last() =~= bytes@.take(i as int));
        assert(bytes@.take(i + 1).last() == b);
        assert(output@ =~= before + seq![hex_char(b as int / 16), hex_char(b as int % 16)]);
    }
    assert(bytes@.take(bytes@.len() as int) =~= bytes@);
    output
}

/// Bytes in hexadecimal take two characters each, and can be told from all other bytes.
pub proof fn hex_tells_bytes_apart(a: Seq<u8>, b: Seq<u8>)
    ensures
        hex(a).len() == 2 * a.len(),
        hex(a) == hex(b) ==> a == b,
    decreases a.len(),
{
    if a.len() > 0 {
        hex_tells_bytes_apart(a.drop_last(), a.drop_last());
    }
    lemma_hex_len(b);
    if hex(a) == hex(b) && a.len() > 0 {
        let n = hex(a).len();
        assert(a.len() == b.len());
        hex_tells_bytes_apart(a.drop_last(), b.drop_last());
        lemma_hex_len(a.drop_last());
        lemma_hex_len(b.drop_last());
        assert(hex(a).take(n - 2) =~= hex(a.drop_last()));
        assert(hex(b).take(n - 2) =~= hex(b.drop_last()));
        assert(hex(a)[n - 2] == hex_char(a.last() as int / 16));
        assert(hex(b)[n - 2] == hex_char(b.last() as int / 16));
        assert(hex(a)[n - 1] == hex_char(a.last() as int % 16));
        assert(hex(b)[n - 1] == hex_char(b.last() as int % 16));
        lemma_hex_char(a.last() as int / 16, b.last() as int / 16);
        lemma_hex_char(a.last() as int % 16, b.last() as int % 16);
        assert(a.last() == b.last());
        assert(a =~= a.drop_last().push(a.last()));
        assert(b =~= b.drop_last().push(b.last()));
    } else if hex(a) == hex(b) {
        assert(b.len() == 0);
        assert(a =~= b);
    }
}

proof fn lemma_hex_len(a: Seq<u8>)
    ensures
        hex(a).len() == 2 * a.len(),
    decreases a.len(),
{
    if a.len() > 0 {
        lemma_hex_len(a.drop_last());
    }
}

proof fn lemma_hex_char(m: int, n: int)
    requires
        0 <= m < 16,
        0 <= n < 16,
        hex_char(m) == hex_char(n),
    ensures
        m == n,
{
}

/// The SHA-256 digest of a row of bytes, as the crate sha2 computes it.
pub uninterp spec fn sha256_of(bytes: Seq<u8>) -> Seq<u8>;

/// `sha2::Sha256::digest`: the digest of the bytes, which has 32 bytes.
#[verifier::external_body]
fn sha256(bytes: &[u8]) -> (r: Vec<u8>)
    ensures
        r@ == sha256_of(bytes@),
        r@.len() == 32,
{
    sha2::Sha256::digest(bytes).to_vec()
}

/// The SHA-256 digest of the bytes of a file, in hexadecimal.
pub fn sha256_file(bytes: &[u8]) -> (r: String)
    ensures
        r@ == hex(sha256_of(bytes@)),
{
    bytes_to_hex(sha256(bytes).as_slice())
}

/// What is said of a launcher whose digest is not the one expected.
pub open spec fn mismatch(expected: Seq<char>, got: Seq<char>) -> Seq<char> {
    "launcher update sha256 mismatch: expected "@ + expected + ", got "@ + got
}

/// What is said of a payload whose digest is not the one expected.
pub open spec fn payload_mismatch(expected: Seq<char>, got: Seq<char>) -> Seq<char> {
    "sha256 mismatch for update payload (expected "@ + expected + ", got "@ + got + ")"@
}

/// A mismatch is told with the digest that was expected in front and the one that the file has
/// behind.
pub proof fn a_mismatch_tells_both_digests(expected: Seq<char>, got: Seq<char>)
    ensures
        (expected + ", got "@ + got).is_suffix_of(mismatch(expected, got)),
        (expected + ", got "@ + got + ")"@).is_suffix_of(payload_mismatch(expected, got)),
{
    let (a, b) = (mismatch(expected, got), payload_mismatch(expected, got));
    let end = expected + ", got "@ + got;
    assert(a =~= "launcher update sha256 mismatch: expected "@ + end);
    assert(a.skip(a.len() - end.len()) =~= end);
    assert(b =~= "sha256 mismatch for update payload (expected "@ + (end + ")"@));
    assert(b.skip(b.len() - (end + ")"@).len()) =~= end + ")"@);
}

/// Checks a digest in hexadecimal against the one that is expected, in whatever case the letters
/// of either are.
pub fn check_digest(digest_hex: &str, expected_sha256: &str) -> (r: Result<(), String>)
    ensures
        r is Ok <==> text::ascii_lower(digest_hex@) == text::ascii_lower(expected_sha256@),
        r matches Err(e) ==> e@ == mismatch(expected_sha256@, digest_hex@),
{
    let a = strings::lowered(&strings::chars_of(digest_hex));
    let b = strings::lowered(&strings::chars_of(expected_sha256));
    if strings::same_chars(&a, &b) {
        return Ok(());
    }
    let mut message: String = "launcher update sha256 mismatch: expected ".to_owned();
    message.append(expected_sha256);
    message.append(", got ");
    message.append(digest_hex);
    Err(message)
}

/// The bytes have the digest that is expected, in whatever case its letters are.
pub open spec fn has_digest(bytes: Seq<u8>, expected_sha256: Seq<char>) -> bool {
    text::ascii_lower(hex(sha256_of(bytes))) == text::ascii_lower(expected_sha256)
}

/// Checks the file of a downloaded launcher against the digest that is expected.
pub fn verify_launcher_update(bytes: &[u8], expected_sha256: &str) -> (r: Result<(), String>)
    ensures
        r is Ok <==> has_digest(bytes@, expected_sha256@),
        r matches Err(e) ==> e@ == mismatch(expected_sha256@, hex(sha256_of(bytes@))),
{
    check_digest(sha256_file(bytes).as_str(), expected_sha256)
}

/// The digest of a release as it is compared: without white space around it, in lower case.
pub open spec fn tidy_digest(sha256: Seq<char>) -> Seq<char> {
    text::ascii_lower(text::trim(sha256))
}

/// Checks a digest in hexadecimal, in lower case, against that of a release.
pub fn check_payload_digest(actual_sha: &str, release_sha256: &str) -> (r: Result<(), String>)
    ensures
        r is Ok <==> actual_sha@ == tidy_digest(release_sha256@),
        r matches Err(e) ==> e@ == payload_mismatch(tidy_digest(release_sha256@), actual_sha@),
{
    let expected: String = strings::string_of(
        &strings::lowered(&strings::trimmed(&strings::chars_of(release_sha256))),
    );
    if strings::same_text(actual_sha, expected.as_str()) {
        return Ok(());
    }
    let mut message: String = "sha256 mismatch for update payload (expected ".to_owned();
    message.append(expected.as_str());
    message.append(", got ");
    message.append(actual_sha);
    message.append(")");
    Err(message)
}

/// The bytes are those of the release with this digest.
pub open spec fn is_payload(bytes: Seq<u8>, release_sha256: Seq<char>) -> bool {
    hex(sha256_of(bytes)) == tidy_digest(release_sha256)
}

proof fn lemma_hex_is_lower(bytes: Seq<u8>)
    ensures
        forall|i: int|
            0 <= i < hex(bytes).len() ==> {
                let c = #[trigger] hex(bytes)[i];
                !('A' <= c <= 'Z') && !text::is_white_space(c)
            },
        text::ascii_lower(hex(bytes)) == hex(bytes),
        text::trim(hex(bytes)) == hex(bytes),
    decreases bytes.len(),
{
    if bytes.len() > 0 {
        lemma_hex_is_lower(bytes.drop_last());
        let front = hex(bytes.drop_last());
        assert forall|i: int| 0 <= i < hex(bytes).len() implies ({
            let c = #[trigger] hex(bytes)[i];
            !('A' <= c <= 'Z') && !text::is_white_space(c)
        }) by {
            if i < front.len() {
                assert(hex(bytes)[i] == front[i]);
            }
        }
    }
    text::lemma_lower_fixed(hex(bytes));
    if hex(bytes).len() > 0 {
        assert(!text::is_white_space(hex(bytes)[0]));
        assert(!text::is_white_space(hex(bytes)[hex(bytes).len() - 1]));
    }
    text::lemma_trim_fixed(hex(bytes));
}

/// A file is accepted under its own digest, in whatever case the letters of that are given; and two
/// files that are both accepted under one digest have the same SHA-256, so that a file with another
/// one is refused.
pub proof fn a_digest_stands_for_one_file(a: Seq<u8>, b: Seq<u8>, expected: Seq<char>)
    ensures
        has_digest(a, hex(sha256_of(a))),
        text::ascii_lower(expected) == hex(sha256_of(a)) ==> has_digest(a, expected),
        has_digest(a, expected) && has_digest(b, expected) ==> sha256_of(a) == sha256_of(b),
        has_digest(a, expected) ==> expected.len() == 2 * sha256_of(a).len(),
{
    lemma_hex_is_lower(sha256_of(a));
    lemma_hex_is_lower(sha256_of(b));
    hex_tells_bytes_apart(sha256_of(a), sha256_of(b));
}

/// The same holds of a release, whose digest may have white space around it besides.
pub proof fn a_release_stands_for_one_payload(
    a: Seq<u8>,
    b: Seq<u8>,
    before: Seq<char>,
    digest: Seq<char>,
    after: Seq<char>,
)
    requires
        forall|i: int| 0 <= i < before.len() ==> text::is_white_space(#[trigger] before[i]),
        forall|i: int| 0 <= i < after.len() ==> text::is_white_space(#[trigger] after[i]),
        digest.len() > 0,
        !text::is_white_space(digest[0]),
        !text::is_white_space(digest.last()),
    ensures
        is_payload(a, before + digest + after) <==> text::ascii_lower(digest) == hex(sha256_of(a)),
        is_payload(a, before + digest + after) && is_payload(b, digest) ==> sha256_of(a)
            == sha256_of(b),
{
    text::lemma_trim_around(before, digest, after);
    text::lemma_trim_fixed(digest);
    hex_tells_bytes_apart(sha256_of(a), sha256_of(b));
}

/// Each byte is written as two digits from which it can be computed, in the order of the bytes.
pub proof fn hex_reads_back(bytes: Seq<u8>, i: int)
    requires
        0 <= i < bytes.len(),
    ensures
        hex(bytes).len() == 2 * bytes.len(),
        hex_value(hex(bytes)[2 * i]) * 16 + hex_value(hex(bytes)[2 * i + 1]) == bytes[i],
    decreases bytes.len(),
{
    lemma_hex_len(bytes);
    lemma_hex_len(bytes.drop_last());
    let front = bytes.drop_last();
    if i < front.len() {
        hex_reads_back(front, i);
        assert(hex(bytes)[2 * i] == hex(front)[2 * i]);
        assert(hex(bytes)[2 * i + 1] == hex(front)[2 * i + 1]);
    } else {
        let b = bytes.last() as int;
        assert(hex(bytes)[2 * i] == hex_char(b / 16));
        assert(hex(bytes)[2 * i + 1] == hex_char(b % 16));
        assert(hex_value(hex_char(b / 16)) == b / 16);
        assert(hex_value(hex_char(b % 16)) == b % 16);
    }
}

/// The number that a hexadecimal digit stands for.
pub open spec fn hex_value(c: char) -> int {
    if c <= '9' {
        c as int - '0' as int
    } else {
        c as int - 'a' as int + 10
    }
}

/// Checks the bytes of an update payload against the digest of its release.
pub fn verify_update_payload(bytes: &[u8], release_sha256: &str) -> (r: Result<(), String>)
    ensures
        r is Ok <==> is_payload(bytes@, release_sha256@),
        r matches Err(e) ==> e@ == payload_mismatch(
            tidy_digest(release_sha256@),
            hex(sha256_of(bytes@)),
        ),
{
    check_payload_digest(sha256_file(bytes).as_str(), release_sha256)
}

} // verus!
