//! Certificate fingerprints and the host's trust decision.
//!
//! A peer is known by the SHA-256 digest of its DER certificate, written as
//! `sha256:` followed by the digest's bytes as lowercase hex pairs joined by
//! colons. The host accepts a client's certificate exactly when that text is
//! one of the lines of its trusted-peers file.
use vstd::prelude::*;
use crate::config::{parse_trusted_peers, trusted_peers};
use crate::text::{join, push_char, str_eq};

verus! {

/// The SHA-256 digest of `data`.
pub uninterp spec fn sha256_of(data: Seq<u8>) -> Seq<u8>;

/// `sha2::Sha256::digest`: the SHA-256 digest of `data`, which is 32 bytes
/// long (the hash's output size). What the digest is, is named, not stated.
#[verifier::external_body]
fn sha256_digest(data: &[u8]) -> (r: Vec<u8>)
    ensures
        r@ == sha256_of(data@),
        r@.len() == 32,
{
    <sha2::Sha256 as sha2::Digest>::digest(data).to_vec()
}

/// Lowercase hex digit of `d` (0 to 15).
pub open spec fn hex_digit(d: u8) -> char {
    if d < 10 {
        (d + 48) as char
    } else {
        (d + 87) as char
    }
}

/// A byte as two lowercase hex digits (`format!("{b:02x}")`).
pub open spec fn hex_pair(b: u8) -> Seq<char> {
    seq![hex_digit(b / 16), hex_digit(b % 16)]
}

/// The hex pairs of each byte.
pub open spec fn hex_pairs(h: Seq<u8>) -> Seq<Seq<char>> {
    h.map_values(|b: u8| hex_pair(b))
}

/// The fingerprint text of the digest `h`: `sha256:` then its hex pairs
/// joined by colons.
pub open spec fn fingerprint_text_of(h: Seq<u8>) -> Seq<char> {
    "sha256:"@ + join(hex_pairs(h), ":"@)
}

/// The fingerprint of the DER certificate `der`.
pub open spec fn fingerprint_of(der: Seq<u8>) -> Seq<char> {
    fingerprint_text_of(sha256_of(der))
}

fn hex_char(d: u8) -> (c: char)
    requires
        d < 16,
    ensures
        c == hex_digit(d),
{
    if d < 10 {
        (d + 48) as char
    } else {
        (d + 87) as char
    }
}

/// The fingerprint text of a digest.
pub fn fingerprint_text(h: &[u8]) -> (r: String)
    ensures
        r@ == fingerprint_text_of(h@),
{
    let mut out = String::from_str("sha256:");
    let ghost head = out@;
    let n = h.len();
    let mut i: usize = 0;
    while i < n
        invariant
            n == h@.len(),
            i <= n,
            head == "sha256:"@,
            out@ == head + join(hex_pairs(h@.take(i as int)), ":"@),
        decreases n - i,
    {
        let ghost before = out@;
        let b = h[i];
        if i > 0 {
            push_char(&mut out, ':');
        }
        push_char(&mut out, hex_char(b / 16));
        push_char(&mut out, hex_char(b % 16));
        proof {
            let ps = hex_pairs(h@.take(i + 1));
            assert(ps.drop_last() =~= hex_pairs(h@.take(i as int)));
            assert(ps.last() == hex_pair(b));
            if i == 0 {
                assert(ps.len() == 1);
                assert(join(hex_pairs(h@.take(0)), ":"@) =~= Seq::<char>::empty());
                assert(out@ =~= head + join(ps, ":"@));
            } else {
                reveal_strlit(":");
                assert(":"@ =~= seq![':']);
                assert(ps.len() >= 2);
                assert(join(ps, ":"@) == join(ps.drop_last(), ":"@) + ":"@ + ps.last());
                assert(out@ =~= head + join(ps, ":"@));
            }
        }
        i = i + 1;
    }
    assert(h@.take(n as int) =~= h@);
    out
}

/// The fingerprint of a DER certificate, as `trusted_peers.txt` lists it.
pub fn fingerprint(der: &[u8]) -> (r: String)
    ensures
        r@ == fingerprint_of(der@),
        sha256_of(der@).len() == 32,
        r@.len() == 102,
{
    let h = sha256_digest(der);
    proof {
        lemma_fingerprint_length(der@, h@);
    }
    fingerprint_text(h.as_slice())
}

/// Length of the joined hex pairs of `h`, and where each byte's digits sit.
proof fn lemma_pairs_layout(h: Seq<u8>)
    requires
        h.len() > 0,
    ensures
        join(hex_pairs(h), ":"@).len() == 3 * h.len() - 1,
        forall|k: int| 0 <= k < h.len() ==> {
            &&& join(hex_pairs(h), ":"@)[3 * k] == hex_digit(#[trigger] h[k] / 16)
            &&& join(hex_pairs(h), ":"@)[3 * k + 1] == hex_digit(h[k] % 16)
        },
    decreases h.len(),
{
    let ps = hex_pairs(h);
    if h.len() == 1 {
        assert(ps.len() == 1);
        assert(join(ps, ":"@) == ps[0]);
    } else {
        let init = h.drop_last();
        lemma_pairs_layout(init);
        assert(ps.drop_last() =~= hex_pairs(init));
        assert(":"@ =~= seq![':']) by {
            reveal_strlit(":");
        }
        let j = join(ps, ":"@);
        assert(j == join(hex_pairs(init), ":"@) + ":"@ + hex_pair(h.last()));
        assert forall|k: int| 0 <= k < h.len() implies {
            &&& j[3 * k] == hex_digit(#[trigger] h[k] / 16)
            &&& j[3 * k + 1] == hex_digit(h[k] % 16)
        } by {
            if k < h.len() - 1 {
                assert(init[k] == h[k]);
            }
        }
    }
}

/// Two hex digits that agree come from the same value.
proof fn lemma_hex_digit_injective(a: u8, b: u8)
    requires
        0 <= a < 16,
        0 <= b < 16,
        hex_digit(a) == hex_digit(b),
    ensures
        a == b,
{
    if a < 10 && b >= 10 {
        assert((a + 48) as char == (b + 87) as char);
        assert(false);
    }
    if a >= 10 && b < 10 {
        assert((a + 87) as char == (b + 48) as char);
        assert(false);
    }
}

/// Different digests have different fingerprint texts: the text determines
/// the digest.
pub proof fn lemma_fingerprint_text_injective(h1: Seq<u8>, h2: Seq<u8>)
    requires
        fingerprint_text_of(h1) == fingerprint_text_of(h2),
        h1.len() > 0,
        h2.len() > 0,
    ensures
        h1 == h2,
{
    lemma_pairs_layout(h1);
    lemma_pairs_layout(h2);
    let j1 = join(hex_pairs(h1), ":"@);
    let j2 = join(hex_pairs(h2), ":"@);
    let p = "sha256:"@;
    assert(j1 =~= fingerprint_text_of(h1).skip(p.len() as int));
    assert(j2 =~= fingerprint_text_of(h2).skip(p.len() as int));
    assert(h1.len() == h2.len());
    assert forall|k: int| 0 <= k < h1.len() implies h1[k] == h2[k] by {
        assert(j1[3 * k] == j2[3 * k]);
        assert(j1[3 * k + 1] == j2[3 * k + 1]);
        lemma_hex_digit_injective(h1[k] / 16, h2[k] / 16);
        lemma_hex_digit_injective(h1[k] % 16, h2[k] % 16);
    }
    assert(h1 =~= h2);
}

/// Every fingerprint text of a SHA-256 digest is 102 characters long.
pub proof fn lemma_fingerprint_length(der: Seq<u8>, h: Seq<u8>)
    requires
        h == sha256_of(der),
        h.len() == 32,
    ensures
        fingerprint_of(der).len() == 102,
{
    lemma_pairs_layout(h);
    assert("sha256:"@.len() == 7) by {
        reveal_strlit("sha256:");
    }
}

/// The fingerprints listed in a trusted-peers file (none when it could not
/// be read): one per line, trimmed, blank lines and `#` comments skipped.
pub fn load_trusted(text: Option<&str>) -> (r: Vec<String>)
    ensures
        r@.map_values(|s: String| s@) == match text {
            Some(t) => trusted_peers(t@),
            None => Seq::empty(),
        },
{
    match text {
        Some(t) => parse_trusted_peers(t),
        None => {
            let v: Vec<String> = Vec::new();
            assert(v@.map_values(|s: String| s@) =~= Seq::<Seq<char>>::empty());
            v
        },
    }
}

/// The host's certificate check: a client certificate is accepted exactly
/// when its fingerprint is trusted.
pub struct FingerprintVerifier {
    trusted: Vec<String>,
}

impl FingerprintVerifier {
    /// The fingerprints this verifier trusts.
    pub closed spec fn trusted_view(&self) -> Seq<Seq<char>> {
        self.trusted@.map_values(|s: String| s@)
    }

    /// A verifier that trusts exactly `trusted`.
    pub fn new(trusted: Vec<String>) -> (r: Self)
        ensures
            r.trusted_view() == trusted@.map_values(|s: String| s@),
    {
        FingerprintVerifier { trusted }
    }

    fn lists(&self, fp: &str) -> (r: bool)
        ensures
            r == self.trusted_view().contains(fp@),
    {
        let n = self.trusted.len();
        let mut i: usize = 0;
        while i < n
            invariant
                n == self.trusted@.len(),
                i <= n,
                forall|k: int| 0 <= k < i ==> self.trusted@[k]@ != fp@,
            decreases n - i,
        {
            if str_eq(self.trusted[i].as_str(), fp) {
                assert(self.trusted_view()[i as int] == fp@);
                return true;
            }
            i = i + 1;
        }
        assert forall|k: int| 0 <= k < self.trusted_view().len() implies self.trusted_view()[k] != fp@ by {
            assert(self.trusted_view()[k] == self.trusted@[k]@);
        }
        false
    }

    /// Whether the DER certificate `der` has a trusted fingerprint.
    pub fn is_trusted(&self, der: &[u8]) -> (r: bool)
        ensures
            r == self.trusted_view().contains(fingerprint_of(der@)),
    {
        let fp = fingerprint(der);
        self.lists(fp.as_str())
    }

    /// The decision on the client's certificate during the handshake:
    /// accepted when trusted, else refused with a message that names the
    /// fingerprint to add.
    pub fn verify_server_cert(&self, der: &[u8]) -> (r: Result<(), String>)
        ensures
            r is Ok <==> self.trusted_view().contains(fingerprint_of(der@)),
            r matches Err(m) ==> m@ == "untrusted server fingerprint: "@ + fingerprint_of(der@),
    {
        let fp = fingerprint(der);
        if self.lists(fp.as_str()) {
            Ok(())
        } else {
            let mut m = String::from_str("untrusted server fingerprint: ");
            m.append(fp.as_str());
            Err(m)
        }
    }
}

/// The DER bytes of the first certificate in a PEM text (`None` when it
/// holds none, or the PEM is malformed before the first one).
pub uninterp spec fn first_pem_certificate(pem: Seq<u8>) -> Option<Seq<u8>>;

/// `rustls_pemfile::certs` over `pem`, first item: the first certificate's
/// DER bytes, `None` when there is none or reading it failed. The result is
/// named: it depends on the bytes alone.
#[verifier::external_body]
fn first_certificate(pem: &[u8]) -> (r: Option<Vec<u8>>)
    ensures
        match first_pem_certificate(pem@) {
            None => r is None,
            Some(d) => r is Some && (r->0)@ == d,
        },
{
    let mut rd = pem;
    let first = rustls_pemfile::certs(&mut rd).next();
    first?.ok().map(|c| c.as_ref().to_vec())
}

/// The fingerprint of the first certificate of a PEM file (`cert.pem`), as
/// the client daemon prints it.
pub fn read_fingerprint(pem: &[u8]) -> (r: Option<String>)
    ensures
        match first_pem_certificate(pem@) {
            None => r is None,
            Some(d) => r is Some && (r->0)@ == fingerprint_of(d),
        },
{
    match first_certificate(pem) {
        Some(der) => Some(fingerprint(der.as_slice())),
        None => None,
    }
}

} // verus!
