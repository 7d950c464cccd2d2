//! blake3 digests: the integrity anchor of downloaded files.

use vstd::prelude::*;

use crate::text::{decimal, same_text};

verus! {

/// Number of hexadecimal digits of a digest.
pub const DIGEST_CHARS: usize = 64;

/// A hexadecimal digit of either case.
pub open spec fn is_hex(c: char) -> bool {
    ||| '0' <= c <= '9'
    ||| 'a' <= c <= 'f'
    ||| 'A' <= c <= 'F'
}

/// A hexadecimal digit with its letter in lower case.
pub open spec fn lower_hex(c: char) -> char {
    if 'A' <= c <= 'F' {
        (c as int + 32) as char
    } else {
        c
    }
}

/// Whether a text is a digest: 64 hexadecimal digits of either case.
pub open spec fn is_digest_hex(text: Seq<char>) -> bool {
    text.len() == DIGEST_CHARS && forall|i: int|
        0 <= i < text.len() ==> is_hex(#[trigger] text[i])
}

/// A digest's canonical text: its digits in lower case.
pub open spec fn lowered(text: Seq<char>) -> Seq<char> {
    text.map_values(|c: char| lower_hex(c))
}

/// The message of `blake3::Hash::from_hex`'s error for 64 bytes that are not
/// all hexadecimal digits: it shows the first that is none.
pub uninterp spec fn digit_fault(text: Seq<char>) -> Seq<char>;

/// What is said of a text that is no digest: how many bytes it has where
/// these are not 64, and `of_digit` otherwise.
pub open spec fn fault_of(text: Seq<char>, of_digit: Seq<char>) -> Seq<char> {
    let bytes = vstd::utf8::encode_utf8(text);
    if bytes.len() != DIGEST_CHARS {
        "expected 64 hex bytes, received "@ + decimal(bytes.len())
    } else {
        of_digit
    }
}

/// The message of `blake3::Hash::from_hex`'s error for a text that is no
/// digest.
pub open spec fn digest_fault(text: Seq<char>) -> Seq<char> {
    fault_of(text, digit_fault(text))
}

/// The blake3 hash of a byte sequence, in lower-case hexadecimal.
pub uninterp spec fn blake3_hex(bytes: Seq<u8>) -> Seq<char>;

/// The bytes a hasher has taken in.
pub uninterp spec fn hashed(hasher: blake3::Hasher) -> Seq<u8>;

/// The streaming hasher of the `blake3` crate.
#[verifier::external_type_specification]
#[verifier::external_body]
pub struct ExHasher(blake3::Hasher);

/// Calls `blake3::Hash::from_hex`, which accepts 64 hexadecimal digits of
/// either case, and prints the hash with `to_hex`, in lower case. Any other
/// text is answered with the message of its error.
#[verifier::external_body]
fn read_hex(text: &str) -> (parsed: Result<String, String>)
    ensures
        match parsed {
            Ok(hex) => is_digest_hex(text@) && hex@ == lowered(text@),
            Err(reason) => !is_digest_hex(text@) && reason@ == fault_of(
                text@,
                digit_fault(text@),
            ),
        },
{
    match blake3::Hash::from_hex(text) {
        Ok(hash) => Ok(hash.to_hex().to_string()),
        Err(error) => Err(error.to_string()),
    }
}

/// Calls `blake3::Hasher::new`: nothing taken in yet.
#[verifier::external_body]
fn new_hasher() -> (hasher: blake3::Hasher)
    ensures
        hashed(hasher).len() == 0,
{
    blake3::Hasher::new()
}

/// Calls `blake3::Hasher::update`, which takes in the bytes after those
/// taken in before.
#[verifier::external_body]
fn take_in(hasher: &mut blake3::Hasher, bytes: &[u8])
    ensures
        hashed(*final(hasher)) == hashed(*old(hasher)) + bytes@,
{
    hasher.update(bytes);
}

/// Calls `blake3::Hasher::finalize` and `to_hex`: the hash of the bytes
/// taken in, however they were split, as 64 lower-case digits.
#[verifier::external_body]
fn finish_hex(hasher: &blake3::Hasher) -> (hex: String)
    ensures
        hex@ == blake3_hex(hashed(*hasher)),
        is_digest_hex(hex@) && lowered(hex@) == hex@,
{
    hasher.finalize().to_hex().to_string()
}

/// A blake3 digest, modelled by its 64 lower-case hexadecimal digits.
#[derive(Debug, PartialEq, Eq)]
pub struct Digest {
    hex: String,
}

impl View for Digest {
    type V = Seq<char>;

    closed spec fn view(&self) -> Seq<char> {
        self.hex@
    }
}

impl Clone for Digest {
    fn clone(&self) -> (copy: Self)
        ensures
            copy == *self,
    {
        proof {
            use_type_invariant(self);
        }
        Digest { hex: self.hex.clone() }
    }
}

impl Digest {
    #[verifier::type_invariant]
    closed spec fn canonical(self) -> bool {
        is_digest_hex(self.hex@) && lowered(self.hex@) == self.hex@
    }

    /// Read a digest from hexadecimal.
    pub fn from_hex(text: &str) -> (digest: Result<Digest, String>)
        ensures
            match digest {
                Ok(digest) => is_digest_hex(text@) && digest@ == lowered(text@),
                Err(reason) => !is_digest_hex(text@) && reason@ == digest_fault(text@),
            },
    {
        match read_hex(text) {
            Ok(hex) => {
                proof {
                    lemma_lowered(text@);
                }
                Ok(Digest { hex })
            },
            Err(reason) => Err(reason),
        }
    }

    /// The digest of a byte sequence.
    pub fn of_bytes(bytes: &[u8]) -> (digest: Digest)
        ensures
            digest@ == blake3_hex(bytes@),
    {
        let mut stream = HashStream::new();
        stream.update(bytes);
        assert(stream@ =~= bytes@);
        stream.finish()
    }

    /// The digest in lower-case hexadecimal, which reads back as itself.
    pub fn to_hex(&self) -> (hex: String)
        ensures
            hex@ == self@,
            is_digest_hex(hex@) && lowered(hex@) == hex@,
    {
        proof {
            use_type_invariant(self);
        }
        self.hex.clone()
    }

    /// Whether two digests are the same.
    pub fn same(&self, other: &Digest) -> (same: bool)
        ensures
            same == (self@ == other@),
    {
        same_text(self.hex.as_str(), other.hex.as_str())
    }
}

/// A digest being computed from bytes as they arrive.
pub struct HashStream {
    hasher: blake3::Hasher,
}

impl View for HashStream {
    type V = Seq<u8>;

    closed spec fn view(&self) -> Seq<u8> {
        hashed(self.hasher)
    }
}

impl HashStream {
    /// Nothing has arrived yet.
    pub fn new() -> (stream: HashStream)
        ensures
            stream@.len() == 0,
    {
        HashStream { hasher: new_hasher() }
    }

    /// More bytes arrived.
    pub fn update(&mut self, bytes: &[u8])
        ensures
            final(self)@ == old(self)@ + bytes@,
    {
        take_in(&mut self.hasher, bytes);
    }

    /// The digest of everything that arrived, however it was split.
    pub fn finish(&self) -> (digest: Digest)
        ensures
            digest@ == blake3_hex(self@),
    {
        Digest { hex: finish_hex(&self.hasher) }
    }
}

/// Lower-casing the digits of a digest gives a digest, and doing it again
/// changes nothing.
pub proof fn lemma_lowered(text: Seq<char>)
    requires
        is_digest_hex(text),
    ensures
        is_digest_hex(lowered(text)),
        lowered(lowered(text)) == lowered(text),
{
    assert forall|i: int| 0 <= i < text.len() implies is_hex(#[trigger] lowered(text)[i])
        && lower_hex(lowered(text)[i]) == lowered(text)[i] by {
        assert(is_hex(text[i]));
    }
    assert(lowered(lowered(text)) =~= lowered(text));
}

/// A digest is sixty-four hexadecimal digits, of either case; its canonical
/// form has the same digits in lower case.
pub proof fn law_digests(text: Seq<char>, i: int)
    requires
        is_digest_hex(text),
        0 <= i < text.len(),
    ensures
        text.len() == 64,
        lowered(text).len() == 64,
        '0' <= text[i] <= '9' || 'a' <= text[i] <= 'f' ==> lowered(text)[i] == text[i],
        'A' <= text[i] <= 'F' ==> lowered(text)[i] as int == text[i] as int - 'A' as int
            + 'a' as int,
        '0' <= text[i] <= '9' || 'a' <= text[i] <= 'f' || 'A' <= text[i] <= 'F',
{
    assert(is_hex(text[i]));
}

/// Text is a digest exactly where it has sixty-four characters and each is a
/// hexadecimal digit.
pub proof fn law_which_text_is_a_digest(text: Seq<char>)
    ensures
        is_digest_hex(text) <==> text.len() == 64 && forall|i: int|
            0 <= i < text.len() ==> '0' <= #[trigger] text[i] <= '9' || 'a' <= text[i] <= 'f'
                || 'A' <= text[i] <= 'F',
{
    if is_digest_hex(text) {
        assert forall|i: int| 0 <= i < text.len() implies '0' <= #[trigger] text[i] <= '9' || 'a'
            <= text[i] <= 'f' || 'A' <= text[i] <= 'F' by {
            assert(is_hex(text[i]));
        }
    }
}

/// Text of another length than a digest's is refused for its length, and
/// any other text that is no digest for one of its digits.
pub proof fn law_bad_digests_say_why(text: Seq<char>)
    ensures
        ({
            let bytes = vstd::utf8::encode_utf8(text).len();
            &&& bytes != 64 ==> digest_fault(text) == "expected 64 hex bytes, received "@ + decimal(
                bytes,
            )
            &&& bytes == 64 ==> digest_fault(text) == digit_fault(text)
        }),
{
}

} // verus!
