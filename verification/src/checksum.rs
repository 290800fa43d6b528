//! Content checksums: the SHA-256 digest of the whole content, written as
//! lower-case hexadecimal.
//!
//! Content is taken in piece by piece, so that a caller can stream a file
//! through a [`ChecksumStream`] without holding it in memory. How the
//! content is cut into pieces does not matter to the result.

use crate::error::StorageError;
use sha2::Digest;
use vstd::prelude::*;
use vstd::slice::slice_subrange;

verus! {

/// The number of bytes that `checksum_of` hands to the hasher at a time.
pub const CHUNK_SIZE: usize = 8192;

/// A SHA-256 computation in progress: the hasher of the `sha2` crate.
#[verifier::external_body]
pub struct Sha256State {
    hasher: sha2::Sha256,
}

/// The bytes that a hasher has been given so far, in the order given.
pub uninterp spec fn absorbed(state: Sha256State) -> Seq<u8>;

/// The SHA-256 digest of a byte string: what the hasher of the `sha2`
/// crate gives when it is finalized after it was given those bytes.
pub uninterp spec fn sha256(content: Seq<u8>) -> Seq<u8>;

/// `Sha256::new`: a hasher that has been given nothing yet.
#[verifier::external_body]
fn sha256_start() -> (state: Sha256State)
    ensures
        absorbed(state) == Seq::<u8>::empty(),
{
    Sha256State { hasher: sha2::Sha256::new() }
}

/// `Digest::update`: the hasher goes on as if `chunk` had followed
/// directly on what it was given before.
#[verifier::external_body]
fn sha256_update(state: &mut Sha256State, chunk: &[u8])
    ensures
        absorbed(*final(state)) == absorbed(*old(state)) + chunk@,
{
    state.hasher.update(chunk);
}

/// `Digest::finalize`: the digest of everything the hasher was given,
/// 32 bytes long.
#[verifier::external_body]
fn sha256_finish(state: Sha256State) -> (digest: Vec<u8>)
    ensures
        digest@ == sha256(absorbed(state)),
        digest@.len() == 32,
{
    state.hasher.finalize().to_vec()
}

/// The lower-case hexadecimal digit for a value below 16.
pub open spec fn hex_digit(value: u8) -> char {
    if value < 10 {
        (value + 48) as char
    } else {
        (value + 87) as char
    }
}

/// Two lower-case hexadecimal digits for each byte, high digit first.
pub open spec fn hex(bytes: Seq<u8>) -> Seq<char>
    decreases bytes.len(),
{
    if bytes.len() == 0 {
        Seq::<char>::empty()
    } else {
        hex(bytes.drop_last()).push(hex_digit(bytes.last() / 16)).push(hex_digit(bytes.last() % 16))
    }
}

/// The checksum of a content: its SHA-256 digest in hexadecimal.
pub open spec fn checksum_text(content: Seq<u8>) -> Seq<char> {
    hex(sha256(content))
}

fn digit_of(value: u8) -> (digit: char)
    requires
        value < 16,
    ensures
        digit == hex_digit(value),
{
    if value < 10 {
        (value + 48) as char
    } else {
        (value + 87) as char
    }
}

/// Writes `bytes` in lower-case hexadecimal.
pub fn to_hex(bytes: &[u8]) -> (text: String)
    ensures
        text@ == hex(bytes@),
        text@.len() == 2 * bytes@.len(),
{
    let mut text = String::new();
    let mut i: usize = 0;
    proof {
        assert(bytes@.take(0) =~= Seq::<u8>::empty());
    }
    while i < bytes.len()
        invariant
            i <= bytes.len(),
            text@ == hex(bytes@.take(i as int)),
            text@.len() == 2 * i,
        decreases bytes.len() - i,
    {
        let byte = bytes[i];
        proof {
            assert(bytes@.take(i + 1).drop_last() =~= bytes@.take(i as int));
            assert(bytes@.take(i + 1).last() == byte);
        }
        text.push(digit_of(byte / 16));
        text.push(digit_of(byte % 16));
        i += 1;
    }
    proof {
        assert(bytes@.take(i as int) =~= bytes@);
    }
    text
}

/// A checksum in the making. It has taken in some content and can take
/// in more, or give the checksum of what it has.
pub struct ChecksumStream {
    state: Sha256State,
}

/// What a read of the next piece of a file came to.
pub enum ReadEvent<'a> {
    /// These bytes were read. No bytes means that the file has ended.
    Chunk(&'a [u8]),
    /// The read failed.
    Failed,
}

/// Where a checksum stands after a read.
pub enum ChecksumProgress {
    /// The content goes on: read the next piece.
    More(ChecksumStream),
    /// The file has ended: the stream has taken in all of it.
    Complete(ChecksumStream),
    /// The read failed, and no checksum is given for the part that was
    /// read.
    Aborted(StorageError),
}

impl ChecksumStream {
    /// The content taken in so far.
    pub closed spec fn content(&self) -> Seq<u8> {
        absorbed(self.state)
    }

    /// A stream that has taken in nothing.
    pub fn new() -> (stream: ChecksumStream)
        ensures
            stream.content() == Seq::<u8>::empty(),
    {
        ChecksumStream { state: sha256_start() }
    }

    /// Takes in `chunk` behind the content so far.
    pub fn absorb(&mut self, chunk: &[u8])
        ensures
            final(self).content() == old(self).content() + chunk@,
    {
        sha256_update(&mut self.state, chunk);
    }

    /// The checksum of the content taken in: 64 hexadecimal digits.
    pub fn finish(self) -> (checksum: String)
        ensures
            checksum@ == checksum_text(self.content()),
            checksum@.len() == 64,
    {
        let digest = sha256_finish(self.state);
        to_hex(digest.as_slice())
    }

    /// One step of checksumming a file that is read piece by piece.
    ///
    /// A piece with bytes is taken in and more is asked for. An empty
    /// piece ends the file and hands the stream back as it is, complete.
    /// A failed read ends in `IoFailure` and the stream is gone: no
    /// checksum can be had for a file that was read in part.
    pub fn advance(self, event: ReadEvent<'_>) -> (progress: ChecksumProgress)
        ensures
            match event {
                ReadEvent::Failed => progress matches ChecksumProgress::Aborted(error) && error
                    == StorageError::IoFailure,
                ReadEvent::Chunk(bytes) => if bytes@.len() == 0 {
                    progress matches ChecksumProgress::Complete(stream) && stream.content()
                        == self.content()
                } else {
                    progress matches ChecksumProgress::More(stream) && stream.content()
                        == self.content() + bytes@
                },
            },
    {
        match event {
            ReadEvent::Failed => ChecksumProgress::Aborted(StorageError::IoFailure),
            ReadEvent::Chunk(bytes) => {
                if bytes.len() == 0 {
                    ChecksumProgress::Complete(self)
                } else {
                    let mut stream = self;
                    stream.absorb(bytes);
                    ChecksumProgress::More(stream)
                }
            },
        }
    }
}

/// The checksum of a content that is held in memory, taken in
/// `CHUNK_SIZE` bytes at a time.
pub fn checksum_of(content: &[u8]) -> (checksum: String)
    ensures
        checksum@ == checksum_text(content@),
        checksum@.len() == 64,
{
    let mut stream = ChecksumStream::new();
    let mut done: usize = 0;
    proof {
        assert(content@.take(0) =~= Seq::<u8>::empty());
    }
    while done < content.len()
        invariant
            done <= content.len(),
            stream.content() == content@.take(done as int),
        decreases content.len() - done,
    {
        let end = if content.len() - done > CHUNK_SIZE {
            done + CHUNK_SIZE
        } else {
            content.len()
        };
        stream.absorb(slice_subrange(content, done, end));
        proof {
            assert(content@.take(done as int) + content@.subrange(done as int, end as int)
                =~= content@.take(end as int));
        }
        done = end;
    }
    proof {
        assert(content@.take(done as int) =~= content@);
    }
    stream.finish()
}

/// How content is cut into pieces does not matter: a stream that takes
/// in `first` and then `second` has the content of one that takes in
/// both at once, and so gives the same checksum.
pub proof fn lemma_pieces_do_not_matter(
    before: Seq<u8>,
    first: Seq<u8>,
    second: Seq<u8>,
)
    ensures
        (before + first) + second == before + (first + second),
        checksum_text((before + first) + second) == checksum_text(before + (first + second)),
{
    assert((before + first) + second =~= before + (first + second));
}

} // verus!
