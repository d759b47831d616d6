//! Content fingerprints: a file's bytes are streamed through SHA-256 in
//! fixed-size chunks and the digest is written as lowercase hexadecimal.

use vstd::prelude::*;
use vstd::slice::slice_subrange;

verus! {

/// Number of bytes handed to the digest at a time.
pub const CHUNK_SIZE: usize = 8192;

/// Number of bytes in a SHA-256 digest.
pub const DIGEST_LEN: usize = 32;

/// A running SHA-256 computation of the `sha2` crate.
///
/// The type behind `sha2::Sha256` is generic over traits of `digest` and
/// `typenum` that the verifier cannot take, so the value is kept opaque here
/// and is spoken of only through `absorbed`.
#[verifier::external_body]
pub struct Sha256State {
    inner: sha2::Sha256,
}

/// The bytes that a running computation has been fed so far, in order.
pub uninterp spec fn absorbed(state: Sha256State) -> Seq<u8>;

/// The SHA-256 digest of a byte string.
pub uninterp spec fn sha256(data: Seq<u8>) -> Seq<u8>;

/// Calls `sha2::Digest::new` for `Sha256`. Claimed: the new computation has
/// been fed nothing.
#[verifier::external_body]
fn state_new() -> (state: Sha256State)
    ensures
        absorbed(state) == Seq::<u8>::empty(),
{
    Sha256State { inner: <sha2::Sha256 as sha2::Digest>::new() }
}

/// Calls `sha2::Digest::update` for `Sha256`. Claimed: the chunk is
/// appended to what the computation has been fed.
#[verifier::external_body]
fn state_update(state: &mut Sha256State, chunk: &[u8])
    ensures
        absorbed(*final(state)) == absorbed(*old(state)) + chunk@,
{
    sha2::Digest::update(&mut state.inner, chunk);
}

/// Calls `sha2::Digest::finalize` for `Sha256`. Claimed: the result is the
/// digest, 32 bytes long, of everything the computation has been fed, and
/// depends on nothing else.
#[verifier::external_body]
fn state_finalize(state: Sha256State) -> (digest: Vec<u8>)
    ensures
        digest@ == sha256(absorbed(state)),
        digest@.len() == DIGEST_LEN,
{
    sha2::Digest::finalize(state.inner).to_vec()
}

/// The lowercase hexadecimal digit for a value below sixteen.
pub open spec fn hex_digit(nibble: int) -> char {
    if nibble == 0 {
        '0'
    } else if nibble == 1 {
        '1'
    } else if nibble == 2 {
        '2'
    } else if nibble == 3 {
        '3'
    } else if nibble == 4 {
        '4'
    } else if nibble == 5 {
        '5'
    } else if nibble == 6 {
        '6'
    } else if nibble == 7 {
        '7'
    } else if nibble == 8 {
        '8'
    } else if nibble == 9 {
        '9'
    } else if nibble == 10 {
        'a'
    } else if nibble == 11 {
        'b'
    } else if nibble == 12 {
        'c'
    } else if nibble == 13 {
        'd'
    } else if nibble == 14 {
        'e'
    } else {
        'f'
    }
}

/// Two lowercase hexadecimal digits per byte, high nibble first.
pub open spec fn hex_string(bytes: Seq<u8>) -> Seq<char> {
    Seq::new(
        2 * bytes.len(),
        |i: int|
            if i % 2 == 0 {
                hex_digit(bytes[i / 2] as int / 16)
            } else {
                hex_digit(bytes[i / 2] as int % 16)
            },
    )
}

/// The fingerprint of a file's content: its SHA-256 digest in hexadecimal.
pub open spec fn fingerprint(data: Seq<u8>) -> Seq<char> {
    hex_string(sha256(data))
}

fn hex_digit_of(nibble: u8) -> (c: char)
    requires
        nibble < 16,
    ensures
        c == hex_digit(nibble as int),
{
    if nibble == 0 {
        '0'
    } else if nibble == 1 {
        '1'
    } else if nibble == 2 {
        '2'
    } else if nibble == 3 {
        '3'
    } else if nibble == 4 {
        '4'
    } else if nibble == 5 {
        '5'
    } else if nibble == 6 {
        '6'
    } else if nibble == 7 {
        '7'
    } else if nibble == 8 {
        '8'
    } else if nibble == 9 {
        '9'
    } else if nibble == 10 {
        'a'
    } else if nibble == 11 {
        'b'
    } else if nibble == 12 {
        'c'
    } else if nibble == 13 {
        'd'
    } else if nibble == 14 {
        'e'
    } else {
        'f'
    }
}

/// Writes bytes as lowercase hexadecimal.
pub fn to_hex(bytes: &[u8]) -> (text: String)
    ensures
        text@ == hex_string(bytes@),
{
    let mut text = String::new();
    let mut i: usize = 0;
    while i < bytes.len()
        invariant
            i <= bytes@.len(),
            text@.len() == 2 * i,
            forall|k: int| 0 <= k < 2 * i ==> #[trigger] text@[k] == hex_string(bytes@)[k],
        decreases bytes@.len() - i,
    {
        let b: u8 = bytes[i];
        let high = hex_digit_of(b / 16);
        let low = hex_digit_of(b % 16);
        text.push(high);
        text.push(low);
        i = i + 1;
    }
    assert(text@ =~= hex_string(bytes@));
    text
}

/// A fingerprint in the making: content arrives chunk by chunk, so that a
/// file never has to be held in memory as a whole.
pub struct HashStream {
    state: Sha256State,
}

impl View for HashStream {
    type V = Seq<u8>;

    /// The content fed in so far.
    closed spec fn view(&self) -> Seq<u8> {
        absorbed(self.state)
    }
}

impl HashStream {
    /// A stream that has seen no content.
    pub fn new() -> (stream: HashStream)
        ensures
            stream@ == Seq::<u8>::empty(),
    {
        HashStream { state: state_new() }
    }

    /// Feeds the next chunk of content.
    pub fn update(&mut self, chunk: &[u8])
        ensures
            final(self)@ == old(self)@ + chunk@,
    {
        state_update(&mut self.state, chunk);
    }

    /// Ends the stream and returns the fingerprint of all that was fed.
    pub fn finish(self) -> (hash: String)
        ensures
            hash@ == fingerprint(self@),
            hash@.len() == 2 * DIGEST_LEN,
    {
        let digest = state_finalize(self.state);
        to_hex(digest.as_slice())
    }
}

/// Fingerprints content held in memory, feeding it to the digest in chunks of
/// `CHUNK_SIZE` bytes.
pub fn calculate_hash(data: &[u8]) -> (hash: String)
    ensures
        hash@ == fingerprint(data@),
        hash@.len() == 2 * DIGEST_LEN,
{
    let mut stream = HashStream::new();
    let mut done: usize = 0;
    while done < data.len()
        invariant
            done <= data@.len(),
            stream@ == data@.subrange(0, done as int),
        decreases data@.len() - done,
    {
        let rest: usize = data.len() - done;
        let take: usize = if rest < CHUNK_SIZE {
            rest
        } else {
            CHUNK_SIZE
        };
        let chunk = slice_subrange(data, done, done + take);
        stream.update(chunk);
        assert(data@.subrange(0, done as int) + chunk@ =~= data@.subrange(
            0,
            done as int + take as int,
        ));
        done = done + take;
    }
    assert(data@.subrange(0, done as int) =~= data@);
    stream.finish()
}

} // verus!
