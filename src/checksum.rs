use vstd::prelude::*;
use sha2::Digest;

verus! {

/// A SHA-256 hasher. It is opaque to the verifier: what it has been fed is
/// named by `sha256_fed`.
#[verifier::external_body]
pub struct Sha256Hasher {
    inner: sha2::Sha256,
}

/// The bytes that a SHA-256 hasher has been fed so far, in order.
pub uninterp spec fn sha256_fed(h: Sha256Hasher) -> Seq<u8>;

/// The SHA-256 digest of a byte sequence.
pub uninterp spec fn sha256_of(data: Seq<u8>) -> Seq<u8>;

/// Relies on `sha2::Sha256::new` (through `digest::Digest::new`): a fresh hasher
/// that has processed no data.
#[verifier::external_body]
fn hasher_new() -> (h: Sha256Hasher)
    ensures
        sha256_fed(h) == Seq::<u8>::empty(),
{
    Sha256Hasher { inner: sha2::Sha256::new() }
}

/// Relies on `digest::Digest::update` for `sha2::Sha256`: processes `data`, so
/// that the hasher has now been fed what it had before followed by `data`.
#[verifier::external_body]
fn hasher_update(h: &mut Sha256Hasher, data: &[u8])
    ensures
        sha256_fed(*final(h)) == sha256_fed(*old(h)) + data@,
{
    h.inner.update(data)
}

/// Relies on `digest::Digest::finalize` for `sha2::Sha256`: the 32-byte digest
/// of everything the hasher was fed.
#[verifier::external_body]
fn hasher_finalize(h: Sha256Hasher) -> (r: Vec<u8>)
    ensures
        r@ == sha256_of(sha256_fed(h)),
        r@.len() == 32,
{
    h.inner.finalize().to_vec()
}

/// The lowercase hexadecimal digit for a value below sixteen.
pub open spec fn hex_digit(d: nat) -> char
    recommends
        d < 16,
{
    if d < 10 {
        ((d + 48) as u8) as char
    } else {
        ((d + 87) as u8) as char
    }
}

/// Whether `c` is a lowercase hexadecimal digit.
pub open spec fn is_hex_char(c: char) -> bool {
    ('0' <= c && c <= '9') || ('a' <= c && c <= 'f')
}

/// Two lowercase hexadecimal digits per byte, high nibble first.
pub open spec fn hex_of(b: Seq<u8>) -> Seq<char>
    decreases b.len(),
{
    if b.len() == 0 {
        Seq::empty()
    } else {
        let last = b.last();
        hex_of(b.drop_last()).push(hex_digit((last / 16) as nat)).push(hex_digit((last % 16) as nat))
    }
}

/// The lowercase hexadecimal SHA-256 digest of `data`.
pub open spec fn sha256_hex(data: Seq<u8>) -> Seq<char> {
    hex_of(sha256_of(data))
}

/// Whether `s` has the shape of a SHA-256 checksum: 64 lowercase hex digits.
pub open spec fn is_checksum_text(s: Seq<char>) -> bool {
    s.len() == 64 && forall|i: int| 0 <= i < s.len() ==> is_hex_char(#[trigger] s[i])
}

proof fn lemma_hex_shape(b: Seq<u8>)
    ensures
        hex_of(b).len() == 2 * b.len(),
        forall|i: int| 0 <= i < hex_of(b).len() ==> is_hex_char(#[trigger] hex_of(b)[i]),
    decreases b.len(),
{
    if b.len() > 0 {
        lemma_hex_shape(b.drop_last());
        let last = b.last();
        assert(is_hex_char(hex_digit((last / 16) as nat)));
        assert(is_hex_char(hex_digit((last % 16) as nat)));
    }
}

/// A SHA-256 digest is rendered as 64 lowercase hex digits.
pub proof fn lemma_sha256_hex_shape(data: Seq<u8>)
    requires
        sha256_of(data).len() == 32,
    ensures
        is_checksum_text(sha256_hex(data)),
{
    lemma_hex_shape(sha256_of(data));
}

fn hex_digit_exec(d: u8) -> (c: char)
    requires
        d < 16,
    ensures
        c == hex_digit(d as nat),
{
    if d < 10 {
        (d + 48) as char
    } else {
        (d + 87) as char
    }
}

/// Renders bytes as lowercase hexadecimal, two digits per byte.
pub fn hex_string(b: &[u8]) -> (r: String)
    ensures
        r@ == hex_of(b@),
{
    let mut r = String::new();
    let mut i: usize = 0;
    while i < b.len()
        invariant
            i <= b@.len(),
            r@ == hex_of(b@.subrange(0, i as int)),
        decreases b@.len() - i,
    {
        let x = b[i];
        r.push(hex_digit_exec(x / 16));
        r.push(hex_digit_exec(x % 16));
        proof {
            let next = b@.subrange(0, i + 1);
            assert(next.drop_last() =~= b@.subrange(0, i as int));
            assert(next.last() == x);
        }
        i += 1;
    }
    proof {
        assert(b@.subrange(0, b@.len() as int) =~= b@);
    }
    r
}

/// A streaming SHA-256 checksum: feed it chunks in order, then take the digest
/// as lowercase hex.
pub struct Checksummer {
    hasher: Sha256Hasher,
}

impl Checksummer {
    /// The bytes fed so far, in order.
    pub closed spec fn fed(&self) -> Seq<u8> {
        sha256_fed(self.hasher)
    }

    /// A checksummer that has been fed nothing.
    pub fn new() -> (c: Checksummer)
        ensures
            c.fed() == Seq::<u8>::empty(),
    {
        Checksummer { hasher: hasher_new() }
    }

    /// Feeds the next chunk.
    pub fn update(&mut self, chunk: &[u8])
        ensures
            final(self).fed() == old(self).fed() + chunk@,
    {
        hasher_update(&mut self.hasher, chunk);
    }

    /// The lowercase hex SHA-256 digest of everything fed.
    pub fn finish(self) -> (r: String)
        ensures
            r@ == sha256_hex(self.fed()),
            is_checksum_text(r@),
    {
        let digest = hasher_finalize(self.hasher);
        proof {
            lemma_sha256_hex_shape(self.fed());
        }
        hex_string(digest.as_slice())
    }
}

/// The lowercase hex SHA-256 digest of `data`, in one piece.
pub fn checksum_of_bytes(data: &[u8]) -> (r: String)
    ensures
        r@ == sha256_hex(data@),
        is_checksum_text(r@),
{
    let mut c = Checksummer::new();
    c.update(data);
    proof {
        assert(Seq::<u8>::empty() + data@ =~= data@);
    }
    c.finish()
}

} // verus!
