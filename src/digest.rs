use vstd::prelude::*;

verus! {

/// The SHA-256 fingerprint of a byte string.
pub uninterp spec fn sha256_of(b: Seq<u8>) -> Seq<u8>;

/// Relies on sha2::Sha256::digest: the SHA-256 fingerprint of the bytes,
/// which is 32 bytes long.
#[verifier::external_body]
fn sha256(bytes: &[u8]) -> (r: Vec<u8>)
    ensures
        r@ == sha256_of(bytes@),
        r@.len() == 32,
{
    <sha2::Sha256 as sha2::Digest>::digest(bytes).to_vec()
}

/// What a digest says of content: its fingerprint and its length in bytes.
pub struct DigestView {
    pub fingerprint: Seq<u8>,
    pub size_bytes: nat,
}

/// A content fingerprint: the SHA-256 hash of some bytes and their length.
#[derive(Clone, Debug)]
pub struct Digest {
    pub fingerprint: Vec<u8>,
    pub size_bytes: u64,
}

impl View for Digest {
    type V = DigestView;

    open spec fn view(&self) -> DigestView {
        DigestView { fingerprint: self.fingerprint@, size_bytes: self.size_bytes as nat }
    }
}

/// The digest that content-addressing gives to `b`.
pub open spec fn digest_of(b: Seq<u8>) -> DigestView {
    DigestView { fingerprint: sha256_of(b), size_bytes: b.len() }
}

/// Exact equality of two byte strings.
pub fn bytes_equal(a: &[u8], b: &[u8]) -> (r: bool)
    ensures
        r == (a@ == b@),
{
    if a.len() != b.len() {
        return false;
    }
    let mut i: usize = 0;
    while i < a.len()
        invariant
            a@.len() == b@.len(),
            0 <= i <= a@.len(),
            a@.subrange(0, i as int) == b@.subrange(0, i as int),
        decreases a@.len() - i,
    {
        if a[i] != b[i] {
            assert(a@[i as int] != b@[i as int]);
            return false;
        }
        assert(a@.subrange(0, i + 1) == a@.subrange(0, i as int).push(a@[i as int]));
        assert(b@.subrange(0, i + 1) == b@.subrange(0, i as int).push(b@[i as int]));
        i = i + 1;
    }
    assert(a@ == a@.subrange(0, a@.len() as int));
    assert(b@ == b@.subrange(0, b@.len() as int));
    true
}

/// A fresh vector holding the same bytes.
pub fn copy_bytes(b: &[u8]) -> (r: Vec<u8>)
    ensures
        r@ == b@,
{
    let mut r: Vec<u8> = Vec::new();
    let mut i: usize = 0;
    while i < b.len()
        invariant
            0 <= i <= b@.len(),
            r@ == b@.subrange(0, i as int),
        decreases b@.len() - i,
    {
        r.push(b[i]);
        assert(b@.subrange(0, i + 1) == b@.subrange(0, i as int).push(b@[i as int]));
        i = i + 1;
    }
    assert(b@ == b@.subrange(0, b@.len() as int));
    r
}

impl Digest {
    /// The digest of `bytes`.
    pub fn of_bytes(bytes: &[u8]) -> (r: Digest)
        ensures
            r@ == digest_of(bytes@),
    {
        let fingerprint = sha256(bytes);
        Digest { fingerprint, size_bytes: bytes.len() as u64 }
    }

    /// The digest of empty content.
    pub fn empty() -> (r: Digest)
        ensures
            r@ == digest_of(Seq::<u8>::empty()),
    {
        let none: Vec<u8> = Vec::new();
        Digest::of_bytes(none.as_slice())
    }

    /// A copy with the same fingerprint and length.
    pub fn duplicate(&self) -> (r: Digest)
        ensures
            r@ == self@,
    {
        Digest { fingerprint: copy_bytes(self.fingerprint.as_slice()), size_bytes: self.size_bytes }
    }

    /// Whether both the fingerprint and the length agree.
    pub fn same_as(&self, other: &Digest) -> (r: bool)
        ensures
            r == (self@ == other@),
    {
        self.size_bytes == other.size_bytes
            && bytes_equal(self.fingerprint.as_slice(), other.fingerprint.as_slice())
    }

    /// Whether `bytes` are the content this digest names: same length and
    /// same fingerprint.
    pub fn matches_bytes(&self, bytes: &[u8]) -> (r: bool)
        ensures
            r == (self@ == digest_of(bytes@)),
    {
        if bytes.len() as u64 != self.size_bytes {
            return false;
        }
        let fp = sha256(bytes);
        bytes_equal(self.fingerprint.as_slice(), fp.as_slice())
    }
}

impl PartialEq for Digest {
    fn eq(&self, other: &Digest) -> (r: bool) {
        self.same_as(other)
    }
}

impl vstd::std_specs::cmp::PartialEqSpecImpl for Digest {
    open spec fn obeys_eq_spec() -> bool {
        true
    }

    open spec fn eq_spec(&self, other: &Digest) -> bool {
        self@ == other@
    }
}

impl Eq for Digest {
}

} // verus!
