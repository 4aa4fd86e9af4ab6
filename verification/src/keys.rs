//! Proof and key objects with their canonical byte encodings.
//!
//! A proof has two wire encodings, compressed and uncompressed, and a
//! generic decoder that auto-detects which one it was handed: it first
//! reads a compressed proof's worth of bytes and attempts the compressed
//! decoding; on failure it treats those bytes as the prefix of an
//! uncompressed proof and reads the remainder. The marker flag of the
//! compressed point encoding makes the detection unambiguous, which is
//! proved here rather than assumed.
//!
//! Keys are serialized as their fixed fields followed by length-prefixed
//! vectors of uncompressed points, each length a 4-byte little-endian
//! count.

use vstd::prelude::*;
use crate::codec::{
    SerializationError, dec_point_compressed, dec_point_uncompressed, enc_point_compressed,
    enc_point_uncompressed, lemma_point_compressed_round_trip,
    lemma_point_uncompressed_round_trip, lemma_uncompressed_is_not_compressed,
    read_point_compressed, read_point_uncompressed, write_point_compressed,
    write_point_uncompressed, read_u32_le, write_u32_le, u32_le_bytes, lemma_u32_round_trip,
};
use crate::group::{G1Affine, G2Affine};

verus! {

/// A proof in the Groth16 SNARK. The `compressed` flag records which wire
/// form `write` will use; it is not part of the proof's identity, so
/// equality ignores it.
#[derive(Clone, Copy, Debug)]
pub struct Proof {
    pub a: G1Affine,
    pub b: G2Affine,
    pub c: G1Affine,
    pub compressed: bool,
}

impl PartialEq for Proof {
    fn eq(&self, other: &Self) -> (r: bool) {
        self.a == other.a && self.b == other.b && self.c == other.c
    }
}

impl vstd::std_specs::cmp::PartialEqSpecImpl for Proof {
    open spec fn obeys_eq_spec() -> bool {
        true
    }

    open spec fn eq_spec(&self, other: &Self) -> bool {
        self.a == other.a && self.b == other.b && self.c == other.c
    }
}

/// The mathematical content of a proof: the three group exponents.
pub struct ProofModel {
    pub a: int,
    pub b: int,
    pub c: int,
}

impl View for Proof {
    type V = ProofModel;

    open spec fn view(&self) -> ProofModel {
        ProofModel { a: self.a@, b: self.b@, c: self.c@ }
    }
}

/// The compressed wire form of a proof: three compressed points.
pub open spec fn enc_proof_compressed(m: ProofModel) -> Seq<u8> {
    enc_point_compressed(m.a) + enc_point_compressed(m.b) + enc_point_compressed(m.c)
}

/// The uncompressed wire form of a proof: three uncompressed points.
pub open spec fn enc_proof_uncompressed(m: ProofModel) -> Seq<u8> {
    enc_point_uncompressed(m.a) + enc_point_uncompressed(m.b) + enc_point_uncompressed(m.c)
}

/// The meaning of a byte stream under the compressed proof decoding;
/// bytes beyond the proof are ignored, as a stream reader would leave
/// them unread.
pub open spec fn dec_proof_compressed(s: Seq<u8>) -> Result<ProofModel, SerializationError> {
    match dec_point_compressed(s, 0) {
        Err(e) => Err(e),
        Ok(a) => match dec_point_compressed(s, 4) {
            Err(e) => Err(e),
            Ok(b) => match dec_point_compressed(s, 8) {
                Err(e) => Err(e),
                Ok(c) => Ok(ProofModel { a: a, b: b, c: c }),
            },
        },
    }
}

/// The meaning of a byte stream under the uncompressed proof decoding.
pub open spec fn dec_proof_uncompressed(s: Seq<u8>) -> Result<ProofModel, SerializationError> {
    match dec_point_uncompressed(s, 0) {
        Err(e) => Err(e),
        Ok(a) => match dec_point_uncompressed(s, 8) {
            Err(e) => Err(e),
            Ok(b) => match dec_point_uncompressed(s, 16) {
                Err(e) => Err(e),
                Ok(c) => Ok(ProofModel { a: a, b: b, c: c }),
            },
        },
    }
}

/// The auto-detecting decoding: read a compressed proof's worth of bytes,
/// try the compressed decoding, and on failure fall back to the
/// uncompressed decoding of the longer stream.
pub open spec fn dec_proof_auto(s: Seq<u8>) -> Result<ProofModel, SerializationError> {
    if s.len() < 12 {
        Err(SerializationError::UnexpectedEnd)
    } else {
        match dec_proof_compressed(s) {
            Ok(m) => Ok(m),
            Err(_) => if s.len() < 24 {
                Err(SerializationError::UnexpectedEnd)
            } else {
                dec_proof_uncompressed(s)
            },
        }
    }
}

/// Whether an exec proof decode agrees with its spec-level meaning; a
/// successful decode also records which wire form it came from.
pub open spec fn proof_result_matches(
    r: Result<Proof, SerializationError>,
    spec_r: Result<ProofModel, SerializationError>,
    compressed: bool,
) -> bool {
    match spec_r {
        Ok(m) => r is Ok && r->Ok_0.is_valid() && r->Ok_0@ == m && r->Ok_0.compressed
            == compressed,
        Err(e) => r == Err::<Proof, SerializationError>(e),
    }
}

impl Proof {
    /// All three points in canonical affine form.
    pub open spec fn is_valid(self) -> bool {
        self.a.is_valid() && self.b.is_valid() && self.c.is_valid()
    }

    /// Serialize the proof into bytes in compressed form, for storage on
    /// disk or transmission over the network.
    pub fn write_compressed(&self) -> (r: Vec<u8>)
        requires
            self.is_valid(),
        ensures
            r@ == enc_proof_compressed(self@),
    {
        let mut out: Vec<u8> = Vec::new();
        write_point_compressed(&self.a, &mut out);
        write_point_compressed(&self.b, &mut out);
        write_point_compressed(&self.c, &mut out);
        proof {
            assert(out@ =~= enc_proof_compressed(self@));
        }
        out
    }

    /// Serialize the proof into bytes in uncompressed form, for storage
    /// on disk or transmission over the network.
    pub fn write_uncompressed(&self) -> (r: Vec<u8>)
        requires
            self.is_valid(),
        ensures
            r@ == enc_proof_uncompressed(self@),
    {
        let mut out: Vec<u8> = Vec::new();
        write_point_uncompressed(&self.a, &mut out);
        write_point_uncompressed(&self.b, &mut out);
        write_point_uncompressed(&self.c, &mut out);
        proof {
            assert(out@ =~= enc_proof_uncompressed(self@));
        }
        out
    }

    /// Serialize the proof in the wire form its flag records.
    pub fn write(&self) -> (r: Vec<u8>)
        requires
            self.is_valid(),
        ensures
            self.compressed ==> r@ == enc_proof_compressed(self@),
            !self.compressed ==> r@ == enc_proof_uncompressed(self@),
    {
        if self.compressed {
            self.write_compressed()
        } else {
            self.write_uncompressed()
        }
    }

    /// Deserialize a proof from compressed bytes.
    pub fn read_compressed(bytes: &Vec<u8>) -> (r: Result<Proof, SerializationError>)
        ensures
            proof_result_matches(r, dec_proof_compressed(bytes@), true),
    {
        let a = match read_point_compressed(bytes, 0) {
            Ok(p) => p,
            Err(e) => { return Err(e); },
        };
        let b = match read_point_compressed(bytes, 4) {
            Ok(p) => p,
            Err(e) => { return Err(e); },
        };
        let c = match read_point_compressed(bytes, 8) {
            Ok(p) => p,
            Err(e) => { return Err(e); },
        };
        Ok(Proof { a, b, c, compressed: true })
    }

    /// Deserialize a proof from uncompressed bytes.
    pub fn read_uncompressed(bytes: &Vec<u8>) -> (r: Result<Proof, SerializationError>)
        ensures
            proof_result_matches(r, dec_proof_uncompressed(bytes@), false),
    {
        let a = match read_point_uncompressed(bytes, 0) {
            Ok(p) => p,
            Err(e) => { return Err(e); },
        };
        let b = match read_point_uncompressed(bytes, 8) {
            Ok(p) => p,
            Err(e) => { return Err(e); },
        };
        let c = match read_point_uncompressed(bytes, 16) {
            Ok(p) => p,
            Err(e) => { return Err(e); },
        };
        Ok(Proof { a, b, c, compressed: false })
    }

    /// Deserialize a proof from compressed or uncompressed bytes,
    /// auto-detecting the form; the returned proof's flag records which
    /// form was found.
    pub fn read(bytes: &Vec<u8>) -> (r: Result<Proof, SerializationError>)
        ensures
            dec_proof_auto(bytes@) is Ok ==> r is Ok && r->Ok_0.is_valid() && r->Ok_0@
                == dec_proof_auto(bytes@)->Ok_0 && (r->Ok_0.compressed <==> dec_proof_compressed(
                bytes@,
            ) is Ok),
            dec_proof_auto(bytes@) is Err ==> r == Err::<Proof, SerializationError>(
                dec_proof_auto(bytes@)->Err_0,
            ),
    {
        if bytes.len() < 12 {
            return Err(SerializationError::UnexpectedEnd);
        }
        match Proof::read_compressed(bytes) {
            Ok(p) => Ok(p),
            Err(_) => {
                if bytes.len() < 24 {
                    return Err(SerializationError::UnexpectedEnd);
                }
                Proof::read_uncompressed(bytes)
            },
        }
    }

    /// The number of bytes in a compressed proof serialization, measured
    /// by serializing a default proof.
    pub fn compressed_proof_size() -> (r: usize)
        ensures
            r == 12,
    {
        let p = Proof::default();
        let buffer = p.write_compressed();
        buffer.len()
    }

    /// The number of bytes in an uncompressed proof serialization,
    /// measured by serializing a default proof.
    pub fn uncompressed_proof_size() -> (r: usize)
        ensures
            r == 24,
    {
        let p = Proof::default();
        let buffer = p.write_uncompressed();
        buffer.len()
    }
}

impl Default for Proof {
    /// The proof whose three points are the identity, in compressed form.
    fn default() -> (r: Proof)
        ensures
            r.is_valid(),
            r@.a == 0 && r@.b == 0 && r@.c == 0,
            r.compressed,
    {
        Proof {
            a: G1Affine::identity(),
            b: G1Affine::identity(),
            c: G1Affine::identity(),
            compressed: true,
        }
    }
}

/// Decoding a proof's compressed encoding gives the proof back, for every
/// valid proof: the compressed wire form round-trips.
pub proof fn lemma_proof_compressed_round_trip(m: ProofModel)
    requires
        0 <= m.a < crate::field::MODULUS as int,
        0 <= m.b < crate::field::MODULUS as int,
        0 <= m.c < crate::field::MODULUS as int,
    ensures
        dec_proof_compressed(enc_proof_compressed(m)) == Ok::<ProofModel, SerializationError>(m),
{
    let s = enc_proof_compressed(m);
    assert(s.subrange(0, 4) =~= enc_point_compressed(m.a));
    assert(s.subrange(4, 8) =~= enc_point_compressed(m.b));
    assert(s.subrange(8, 12) =~= enc_point_compressed(m.c));
    lemma_point_compressed_round_trip(s, 0, m.a);
    lemma_point_compressed_round_trip(s, 4, m.b);
    lemma_point_compressed_round_trip(s, 8, m.c);
}

/// Decoding a proof's uncompressed encoding gives the proof back, for
/// every valid proof: the uncompressed wire form round-trips.
pub proof fn lemma_proof_uncompressed_round_trip(m: ProofModel)
    requires
        0 <= m.a < crate::field::MODULUS as int,
        0 <= m.b < crate::field::MODULUS as int,
        0 <= m.c < crate::field::MODULUS as int,
    ensures
        dec_proof_uncompressed(enc_proof_uncompressed(m)) == Ok::<ProofModel, SerializationError>(
            m,
        ),
{
    let s = enc_proof_uncompressed(m);
    assert(s.subrange(0, 8) =~= enc_point_uncompressed(m.a));
    assert(s.subrange(8, 16) =~= enc_point_uncompressed(m.b));
    assert(s.subrange(16, 24) =~= enc_point_uncompressed(m.c));
    lemma_point_uncompressed_round_trip(s, 0, m.a);
    lemma_point_uncompressed_round_trip(s, 8, m.b);
    lemma_point_uncompressed_round_trip(s, 16, m.c);
}

/// The auto-detecting decoder accepts both wire forms of every valid
/// proof: the compressed stream decodes directly, and an uncompressed
/// stream can never be mistaken for a compressed one because its first
/// coordinate lacks the marker flag.
#[verifier::rlimit(50)]
pub proof fn lemma_proof_auto_detect(m: ProofModel)
    requires
        0 <= m.a < crate::field::MODULUS as int,
        0 <= m.b < crate::field::MODULUS as int,
        0 <= m.c < crate::field::MODULUS as int,
    ensures
        dec_proof_auto(enc_proof_compressed(m)) == Ok::<ProofModel, SerializationError>(m),
        dec_proof_auto(enc_proof_uncompressed(m)) == Ok::<ProofModel, SerializationError>(m),
{
    lemma_proof_compressed_round_trip(m);
    lemma_proof_uncompressed_round_trip(m);
    let s = enc_proof_uncompressed(m);
    assert(s.subrange(0, 4) =~= enc_point_uncompressed(m.a).subrange(0, 4));
    lemma_uncompressed_is_not_compressed(s, 0, m.a);
}

impl From<Parameters> for VerifyingKey {
    /// The verification key is a one-way extraction of the parameters'
    /// verifier-facing subset.
    fn from(other: Parameters) -> (r: VerifyingKey) {
        other.vk
    }
}

impl vstd::std_specs::convert::FromSpecImpl<Parameters> for VerifyingKey {
    open spec fn obeys_from_spec() -> bool {
        true
    }

    open spec fn from_spec(other: Parameters) -> VerifyingKey {
        other.vk
    }
}

/// A successful compressed proof decode pins the stream down: its first
/// twelve bytes must be exactly the compressed encoding of the decoded
/// proof.
pub proof fn lemma_proof_compressed_canonical(s: Seq<u8>, m: ProofModel)
    requires
        dec_proof_compressed(s) == Ok::<ProofModel, SerializationError>(m),
    ensures
        s.len() >= 12,
        s.subrange(0, 12) == enc_proof_compressed(m),
{
    crate::codec::lemma_point_compressed_canonical(s, 0, m.a);
    crate::codec::lemma_point_compressed_canonical(s, 4, m.b);
    crate::codec::lemma_point_compressed_canonical(s, 8, m.c);
    assert(s.subrange(0, 12) =~= s.subrange(0, 4) + s.subrange(4, 8) + s.subrange(8, 12));
}

/// A successful uncompressed proof decode pins the stream down: its
/// first twenty-four bytes must be exactly the uncompressed encoding of
/// the decoded proof.
pub proof fn lemma_proof_uncompressed_canonical(s: Seq<u8>, m: ProofModel)
    requires
        dec_proof_uncompressed(s) == Ok::<ProofModel, SerializationError>(m),
    ensures
        s.len() >= 24,
        s.subrange(0, 24) == enc_proof_uncompressed(m),
{
    crate::codec::lemma_point_uncompressed_canonical(s, 0, m.a);
    crate::codec::lemma_point_uncompressed_canonical(s, 8, m.b);
    crate::codec::lemma_point_uncompressed_canonical(s, 16, m.c);
    assert(s.subrange(0, 24) =~= s.subrange(0, 8) + s.subrange(8, 16) + s.subrange(16, 24));
}

/// Changing a serialized proof cannot go unnoticed: a compressed-size
/// stream that differs anywhere from a proof's compressed encoding
/// either fails to decode or decodes to a different proof.
pub proof fn lemma_proof_compressed_mutation_detected(s: Seq<u8>, m: ProofModel)
    requires
        s.len() == 12,
        s != enc_proof_compressed(m),
    ensures
        dec_proof_compressed(s) != Ok::<ProofModel, SerializationError>(m),
{
    if dec_proof_compressed(s) == Ok::<ProofModel, SerializationError>(m) {
        lemma_proof_compressed_canonical(s, m);
        assert(s =~= s.subrange(0, 12));
    }
}

/// The same for the uncompressed wire form: an uncompressed-size stream
/// that differs anywhere from a proof's uncompressed encoding either
/// fails to decode or decodes to a different proof.
pub proof fn lemma_proof_uncompressed_mutation_detected(s: Seq<u8>, m: ProofModel)
    requires
        s.len() == 24,
        s != enc_proof_uncompressed(m),
    ensures
        dec_proof_uncompressed(s) != Ok::<ProofModel, SerializationError>(m),
{
    if dec_proof_uncompressed(s) == Ok::<ProofModel, SerializationError>(m) {
        lemma_proof_uncompressed_canonical(s, m);
        assert(s =~= s.subrange(0, 24));
    }
}

/// The exponents of a sequence of affine points.
pub open spec fn points_view(s: Seq<G1Affine>) -> Seq<int> {
    Seq::new(s.len(), |i: int| s[i]@)
}

/// Every point of the sequence is in canonical affine form.
pub open spec fn points_valid(s: Seq<G1Affine>) -> bool {
    forall|i: int| 0 <= i < s.len() ==> (#[trigger] s[i]).is_valid()
}

/// Every exponent of the sequence is a canonical field element.
pub open spec fn exponents_valid(xs: Seq<int>) -> bool {
    forall|i: int| 0 <= i < xs.len() ==> 0 <= #[trigger] xs[i] < crate::field::MODULUS as int
}

/// The concatenated uncompressed encodings of a sequence of points.
pub open spec fn enc_points_uncompressed(xs: Seq<int>) -> Seq<u8>
    decreases xs.len(),
{
    if xs.len() == 0 {
        Seq::empty()
    } else {
        enc_point_uncompressed(xs[0]) + enc_points_uncompressed(xs.drop_first())
    }
}

/// The encoding of a point sequence is eight bytes per point.
pub proof fn lemma_enc_points_len(xs: Seq<int>)
    ensures
        enc_points_uncompressed(xs).len() == 8 * xs.len(),
    decreases xs.len(),
{
    if xs.len() > 0 {
        lemma_enc_points_len(xs.drop_first());
    }
}

/// Appending a point to a sequence appends its encoding to the stream.
pub proof fn lemma_enc_points_snoc(xs: Seq<int>, x: int)
    ensures
        enc_points_uncompressed(xs.push(x)) == enc_points_uncompressed(xs)
            + enc_point_uncompressed(x),
    decreases xs.len(),
{
    if xs.len() == 0 {
        assert(xs.push(x).drop_first() =~= Seq::<int>::empty());
        assert(xs.push(x)[0] == x);
        assert(enc_points_uncompressed(xs.push(x).drop_first()) == Seq::<u8>::empty());
        assert(enc_points_uncompressed(xs.push(x)) =~= enc_points_uncompressed(xs)
            + enc_point_uncompressed(x));
    } else {
        assert(xs.push(x).drop_first() =~= xs.drop_first().push(x));
        lemma_enc_points_snoc(xs.drop_first(), x);
        assert(enc_point_uncompressed(xs.push(x)[0]) + (enc_points_uncompressed(xs.drop_first())
            + enc_point_uncompressed(x)) =~= (enc_point_uncompressed(xs[0])
            + enc_points_uncompressed(xs.drop_first())) + enc_point_uncompressed(x));
    }
}

/// The meaning of a byte stream under the decoding of `n` consecutive
/// uncompressed points, carrying the points already decoded and ending
/// with the position after the last one.
pub open spec fn dec_points_uncompressed(s: Seq<u8>, pos: int, n: nat, acc: Seq<int>) -> Result<
    (Seq<int>, int),
    SerializationError,
>
    decreases n,
{
    if n == 0 {
        Ok((acc, pos))
    } else {
        match dec_point_uncompressed(s, pos) {
            Err(e) => Err(e),
            Ok(x) => dec_points_uncompressed(s, pos + 8, (n - 1) as nat, acc.push(x)),
        }
    }
}

/// Decoding the concatenated encodings of a point sequence yields exactly
/// that sequence: the vector encoding round-trips wherever it stands in a
/// larger stream.
pub proof fn lemma_dec_points_round_trip(s: Seq<u8>, pos: int, xs: Seq<int>, acc: Seq<int>)
    requires
        0 <= pos,
        pos + 8 * xs.len() <= s.len(),
        exponents_valid(xs),
        s.subrange(pos, pos + 8 * xs.len()) == enc_points_uncompressed(xs),
    ensures
        dec_points_uncompressed(s, pos, xs.len(), acc) == Ok::<(Seq<int>, int), SerializationError>(
            (acc + xs, pos + 8 * xs.len()),
        ),
    decreases xs.len(),
{
    if xs.len() == 0 {
        assert(acc + xs =~= acc);
    } else {
        lemma_enc_points_len(xs.drop_first());
        crate::codec::lemma_subrange_split(
            s,
            pos,
            enc_point_uncompressed(xs[0]),
            enc_points_uncompressed(xs.drop_first()),
        );
        lemma_point_uncompressed_round_trip(s, pos, xs[0]);
        lemma_dec_points_round_trip(s, pos + 8, xs.drop_first(), acc.push(xs[0]));
        assert(acc.push(xs[0]) + xs.drop_first() =~= acc + xs);
    }
}

/// Appends the uncompressed encodings of all points.
pub fn write_points_uncompressed(ps: &Vec<G1Affine>, out: &mut Vec<u8>)
    requires
        points_valid(ps@),
    ensures
        final(out)@ == old(out)@ + enc_points_uncompressed(points_view(ps@)),
{
    let ghost base = out@;
    let n = ps.len();
    let mut i: usize = 0;
    while i < n
        invariant
            i <= n,
            n == ps@.len(),
            points_valid(ps@),
            out@ == base + enc_points_uncompressed(points_view(ps@).take(i as int)),
        decreases n - i,
    {
        proof {
            lemma_enc_points_snoc(points_view(ps@).take(i as int), ps@[i as int]@);
            assert(points_view(ps@).take(i + 1) =~= points_view(ps@).take(i as int).push(
                ps@[i as int]@,
            ));
        }
        write_point_uncompressed(&ps[i], out);
        proof {
            assert(out@ =~= base + enc_points_uncompressed(points_view(ps@).take(i + 1)));
        }
        i = i + 1;
    }
    proof {
        assert(points_view(ps@).take(n as int) =~= points_view(ps@));
    }
}

/// Reads `n` consecutive uncompressed points starting at `pos`, returning
/// them with the position after the last one.
pub fn read_points_uncompressed(bytes: &Vec<u8>, pos: usize, n: u32) -> (r: Result<
    (Vec<G1Affine>, usize),
    SerializationError,
>)
    ensures
        match dec_points_uncompressed(bytes@, pos as int, n as nat, Seq::empty()) {
            Ok(v) => r is Ok && points_view(r->Ok_0.0@) == v.0 && points_valid(r->Ok_0.0@)
                && r->Ok_0.1 as int == v.1 && r->Ok_0.0@.len() == n,
            Err(e) => r == Err::<(Vec<G1Affine>, usize), SerializationError>(e),
        },
{
    let blen: usize = bytes.len();
    let mut out: Vec<G1Affine> = Vec::new();
    let mut cur: usize = pos;
    let mut i: u32 = 0;
    proof {
        assert(points_view(out@) =~= Seq::<int>::empty());
    }
    while i < n
        invariant
            i <= n,
            blen == bytes@.len(),
            out@.len() == i,
            points_valid(out@),
            dec_points_uncompressed(bytes@, pos as int, n as nat, Seq::empty())
                == dec_points_uncompressed(
                bytes@,
                cur as int,
                (n - i) as nat,
                points_view(out@),
            ),
        decreases n - i,
    {
        let ghost prev = points_view(out@);
        let p = match read_point_uncompressed(bytes, cur) {
            Ok(p) => p,
            Err(e) => { return Err(e); },
        };
        proof {
            assert(dec_point_uncompressed(bytes@, cur as int) is Ok);
            assert(cur + 8 <= blen);
            assert(dec_points_uncompressed(bytes@, cur as int, (n - i) as nat, prev)
                == dec_points_uncompressed(
                bytes@,
                cur + 8,
                (n - i - 1) as nat,
                prev.push(p@),
            ));
        }
        out.push(p);
        proof {
            assert(points_view(out@) =~= prev.push(p@));
        }
        cur = cur + 8;
        i = i + 1;
    }
    Ok((out, cur))
}

/// A verification key in the Groth16 SNARK.
#[derive(Clone, Debug)]
pub struct VerifyingKey {
    pub alpha_g1: G1Affine,
    pub beta_g2: G2Affine,
    pub gamma_g2: G2Affine,
    pub delta_g2: G2Affine,
    pub gamma_abc_g1: Vec<G1Affine>,
}

/// The mathematical content of a verification key.
pub struct VerifyingKeyModel {
    pub alpha_g1: int,
    pub beta_g2: int,
    pub gamma_g2: int,
    pub delta_g2: int,
    pub gamma_abc_g1: Seq<int>,
}

impl View for VerifyingKey {
    type V = VerifyingKeyModel;

    open spec fn view(&self) -> VerifyingKeyModel {
        VerifyingKeyModel {
            alpha_g1: self.alpha_g1@,
            beta_g2: self.beta_g2@,
            gamma_g2: self.gamma_g2@,
            delta_g2: self.delta_g2@,
            gamma_abc_g1: points_view(self.gamma_abc_g1@),
        }
    }
}

impl Default for VerifyingKey {
    /// The key whose fixed points are the identity and whose input terms
    /// are empty; the base both proof-size constants are measured from.
    fn default() -> (r: VerifyingKey)
        ensures
            r.is_valid(),
            r@.alpha_g1 == 0 && r@.beta_g2 == 0 && r@.gamma_g2 == 0 && r@.delta_g2 == 0,
            r@.gamma_abc_g1 == Seq::<int>::empty(),
    {
        let r = VerifyingKey {
            alpha_g1: G1Affine::identity(),
            beta_g2: G1Affine::identity(),
            gamma_g2: G1Affine::identity(),
            delta_g2: G1Affine::identity(),
            gamma_abc_g1: Vec::new(),
        };
        proof {
            assert(points_view(r.gamma_abc_g1@) =~= Seq::<int>::empty());
        }
        r
    }
}

impl PartialEq for VerifyingKey {
    fn eq(&self, other: &Self) -> (r: bool) {
        if !(self.alpha_g1 == other.alpha_g1 && self.beta_g2 == other.beta_g2 && self.gamma_g2
            == other.gamma_g2 && self.delta_g2 == other.delta_g2) {
            return false;
        }
        points_eq(&self.gamma_abc_g1, &other.gamma_abc_g1)
    }
}

impl vstd::std_specs::cmp::PartialEqSpecImpl for VerifyingKey {
    open spec fn obeys_eq_spec() -> bool {
        true
    }

    open spec fn eq_spec(&self, other: &Self) -> bool {
        self.alpha_g1 == other.alpha_g1 && self.beta_g2 == other.beta_g2 && self.gamma_g2
            == other.gamma_g2 && self.delta_g2 == other.delta_g2 && self.gamma_abc_g1@
            == other.gamma_abc_g1@
    }
}

/// Element-wise comparison of two point vectors.
pub fn points_eq(a: &Vec<G1Affine>, b: &Vec<G1Affine>) -> (r: bool)
    ensures
        r == (a@ == b@),
{
    if a.len() != b.len() {
        proof {
            assert(a@.len() != b@.len());
        }
        return false;
    }
    let n = a.len();
    let mut i: usize = 0;
    while i < n
        invariant
            i <= n,
            n == a@.len(),
            n == b@.len(),
            forall|j: int| 0 <= j < i ==> a@[j] == b@[j],
        decreases n - i,
    {
        if !(a[i] == b[i]) {
            return false;
        }
        i = i + 1;
    }
    proof {
        assert(a@ =~= b@);
    }
    true
}

/// The wire form of a verification key: the five fixed fields, then the
/// length-prefixed vector.
#[verifier::opaque]
pub open spec fn enc_verifying_key(m: VerifyingKeyModel) -> Seq<u8> {
    enc_point_uncompressed(m.alpha_g1) + enc_point_uncompressed(m.beta_g2)
        + enc_point_uncompressed(m.gamma_g2) + enc_point_uncompressed(m.delta_g2) + u32_le_bytes(
        m.gamma_abc_g1.len() as int,
    ) + enc_points_uncompressed(m.gamma_abc_g1)
}

/// The meaning of a byte stream under the verification-key decoding,
/// ending with the position after the key.
#[verifier::opaque]
pub open spec fn dec_verifying_key(s: Seq<u8>, pos: int) -> Result<
    (VerifyingKeyModel, int),
    SerializationError,
> {
    match dec_point_uncompressed(s, pos) {
        Err(e) => Err(e),
        Ok(alpha) => match dec_point_uncompressed(s, pos + 8) {
            Err(e) => Err(e),
            Ok(beta) => match dec_point_uncompressed(s, pos + 16) {
                Err(e) => Err(e),
                Ok(gamma) => match dec_point_uncompressed(s, pos + 24) {
                    Err(e) => Err(e),
                    Ok(delta) => if pos + 36 > s.len() {
                        Err(SerializationError::UnexpectedEnd)
                    } else {
                        match dec_points_uncompressed(
                            s,
                            pos + 36,
                            u32_from_le_at(s, pos + 32) as nat,
                            Seq::empty(),
                        ) {
                            Err(e) => Err(e),
                            Ok(v) => Ok(
                                (
                                    VerifyingKeyModel {
                                        alpha_g1: alpha,
                                        beta_g2: beta,
                                        gamma_g2: gamma,
                                        delta_g2: delta,
                                        gamma_abc_g1: v.0,
                                    },
                                    v.1,
                                ),
                            ),
                        }
                    },
                },
            },
        },
    }
}

/// The value of the four length bytes at `pos`.
pub open spec fn u32_from_le_at(s: Seq<u8>, pos: int) -> int {
    crate::codec::u32_from_le(s.subrange(pos, pos + 4))
}

impl VerifyingKey {
    /// All points canonical and the vector length expressible in the
    /// four-byte count.
    pub open spec fn is_valid(self) -> bool {
        self.alpha_g1.is_valid() && self.beta_g2.is_valid() && self.gamma_g2.is_valid()
            && self.delta_g2.is_valid() && points_valid(self.gamma_abc_g1@)
            && self.gamma_abc_g1@.len() < 0x1_0000_0000
    }

    /// Serialize the verification key into bytes, for storage on disk or
    /// transmission over the network.
    pub fn write(&self) -> (r: Vec<u8>)
        requires
            self.is_valid(),
        ensures
            r@ == enc_verifying_key(self@),
    {
        let mut out: Vec<u8> = Vec::new();
        write_point_uncompressed(&self.alpha_g1, &mut out);
        write_point_uncompressed(&self.beta_g2, &mut out);
        write_point_uncompressed(&self.gamma_g2, &mut out);
        write_point_uncompressed(&self.delta_g2, &mut out);
        write_u32_le(self.gamma_abc_g1.len() as u32, &mut out);
        write_points_uncompressed(&self.gamma_abc_g1, &mut out);
        proof {
            reveal(enc_verifying_key);
            assert(out@ =~= enc_verifying_key(self@));
        }
        out
    }

    /// Deserialize a verification key from bytes starting at `pos`,
    /// returning the position after it; the tail of the stream is left
    /// for the caller.
    pub fn read_at(bytes: &Vec<u8>, pos: usize) -> (r: Result<
        (VerifyingKey, usize),
        SerializationError,
    >)
        ensures
            match dec_verifying_key(bytes@, pos as int) {
                Ok(v) => r is Ok && r->Ok_0.0.is_valid() && r->Ok_0.0@ == v.0 && r->Ok_0.1 as int
                    == v.1,
                Err(e) => r == Err::<(VerifyingKey, usize), SerializationError>(e),
            },
    {
        let blen: usize = bytes.len();
        proof {
            reveal(dec_verifying_key);
        }
        let alpha_g1 = match read_point_uncompressed(bytes, pos) {
            Ok(p) => p,
            Err(e) => { return Err(e); },
        };
        proof {
            assert(dec_point_uncompressed(bytes@, pos as int) is Ok);
            assert(pos + 8 <= blen);
        }
        let beta_g2 = match read_point_uncompressed(bytes, pos + 8) {
            Ok(p) => p,
            Err(e) => { return Err(e); },
        };
        proof {
            assert(dec_point_uncompressed(bytes@, pos + 8) is Ok);
            assert(pos + 16 <= bytes@.len());
        }
        let gamma_g2 = match read_point_uncompressed(bytes, pos + 16) {
            Ok(p) => p,
            Err(e) => { return Err(e); },
        };
        proof {
            assert(dec_point_uncompressed(bytes@, pos + 16) is Ok);
            assert(pos + 24 <= bytes@.len());
        }
        let delta_g2 = match read_point_uncompressed(bytes, pos + 24) {
            Ok(p) => p,
            Err(e) => { return Err(e); },
        };
        proof {
            assert(dec_point_uncompressed(bytes@, pos + 24) is Ok);
            assert(pos + 32 <= bytes@.len());
        }
        let n = match read_u32_le(bytes, pos + 32) {
            Ok(v) => v,
            Err(e) => { return Err(e); },
        };
        proof {
            assert(pos + 36 <= bytes@.len());
        }
        let (gamma_abc_g1, end) = match read_points_uncompressed(bytes, pos + 36, n) {
            Ok(v) => v,
            Err(e) => { return Err(e); },
        };
        Ok((VerifyingKey { alpha_g1, beta_g2, gamma_g2, delta_g2, gamma_abc_g1 }, end))
    }

    /// Deserialize a verification key from bytes; trailing bytes are
    /// ignored, as a stream reader would leave them unread.
    pub fn read(bytes: &Vec<u8>) -> (r: Result<VerifyingKey, SerializationError>)
        ensures
            match dec_verifying_key(bytes@, 0) {
                Ok(v) => r is Ok && r->Ok_0.is_valid() && r->Ok_0@ == v.0,
                Err(e) => r == Err::<VerifyingKey, SerializationError>(e),
            },
    {
        match VerifyingKey::read_at(bytes, 0) {
            Ok(v) => Ok(v.0),
            Err(e) => Err(e),
        }
    }
}

/// Decoding a verification key's encoding gives the key back, wherever
/// the encoding stands in a larger stream.
#[verifier::rlimit(100)]
#[verifier::spinoff_prover]
pub proof fn lemma_verifying_key_round_trip(s: Seq<u8>, pos: int, m: VerifyingKeyModel)
    requires
        0 <= pos,
        0 <= m.alpha_g1 < crate::field::MODULUS as int,
        0 <= m.beta_g2 < crate::field::MODULUS as int,
        0 <= m.gamma_g2 < crate::field::MODULUS as int,
        0 <= m.delta_g2 < crate::field::MODULUS as int,
        exponents_valid(m.gamma_abc_g1),
        m.gamma_abc_g1.len() < 0x1_0000_0000,
        pos + enc_verifying_key(m).len() <= s.len(),
        s.subrange(pos, pos + enc_verifying_key(m).len() as int) == enc_verifying_key(m),
    ensures
        dec_verifying_key(s, pos) == Ok::<(VerifyingKeyModel, int), SerializationError>(
            (m, pos + enc_verifying_key(m).len()),
        ),
{
    reveal(enc_verifying_key);
    reveal(dec_verifying_key);
    let e = enc_verifying_key(m);
    let n = m.gamma_abc_g1.len() as int;
    lemma_enc_points_len(m.gamma_abc_g1);
    assert(e.len() == 36 + 8 * n);
    let e1 = enc_point_uncompressed(m.alpha_g1);
    let e2 = enc_point_uncompressed(m.beta_g2);
    let e3 = enc_point_uncompressed(m.gamma_g2);
    let e4 = enc_point_uncompressed(m.delta_g2);
    let e5 = u32_le_bytes(n);
    let e6 = enc_points_uncompressed(m.gamma_abc_g1);
    crate::codec::lemma_subrange_split(s, pos, e1 + e2 + e3 + e4 + e5, e6);
    crate::codec::lemma_subrange_split(s, pos, e1 + e2 + e3 + e4, e5);
    crate::codec::lemma_subrange_split(s, pos, e1 + e2 + e3, e4);
    crate::codec::lemma_subrange_split(s, pos, e1 + e2, e3);
    crate::codec::lemma_subrange_split(s, pos, e1, e2);
    lemma_point_uncompressed_round_trip(s, pos, m.alpha_g1);
    lemma_point_uncompressed_round_trip(s, pos + 8, m.beta_g2);
    lemma_point_uncompressed_round_trip(s, pos + 16, m.gamma_g2);
    lemma_point_uncompressed_round_trip(s, pos + 24, m.delta_g2);
    assert(u32_from_le_at(s, pos + 32) == n) by {
        lemma_u32_round_trip(n);
    }
    assert(dec_points_uncompressed(s, pos + 36, n as nat, Seq::empty())
        == Ok::<(Seq<int>, int), SerializationError>((m.gamma_abc_g1, pos + 36 + 8 * n))) by {
        lemma_dec_points_round_trip(s, pos + 36, m.gamma_abc_g1, Seq::empty());
        assert(Seq::empty() + m.gamma_abc_g1 =~= m.gamma_abc_g1);
    }
    assert(dec_point_uncompressed(s, pos) == Ok::<int, SerializationError>(m.alpha_g1));
    assert(dec_point_uncompressed(s, pos + 8) == Ok::<int, SerializationError>(m.beta_g2));
    assert(dec_point_uncompressed(s, pos + 16) == Ok::<int, SerializationError>(m.gamma_g2));
    assert(dec_point_uncompressed(s, pos + 24) == Ok::<int, SerializationError>(m.delta_g2));
    assert(pos + 36 <= s.len());
}

/// The wire form of a length-prefixed vector of points.
pub open spec fn enc_point_vector(xs: Seq<int>) -> Seq<u8> {
    u32_le_bytes(xs.len() as int) + enc_points_uncompressed(xs)
}

/// The meaning of a byte stream under the length-prefixed vector
/// decoding, ending with the position after the vector.
pub open spec fn dec_point_vector(s: Seq<u8>, pos: int) -> Result<
    (Seq<int>, int),
    SerializationError,
> {
    if pos + 4 > s.len() {
        Err(SerializationError::UnexpectedEnd)
    } else {
        dec_points_uncompressed(s, pos + 4, u32_from_le_at(s, pos) as nat, Seq::empty())
    }
}

/// Decoding a length-prefixed vector's encoding gives the vector back,
/// wherever the encoding stands in a larger stream.
pub proof fn lemma_point_vector_round_trip(s: Seq<u8>, pos: int, xs: Seq<int>)
    requires
        0 <= pos,
        exponents_valid(xs),
        xs.len() < 0x1_0000_0000,
        pos + enc_point_vector(xs).len() <= s.len(),
        s.subrange(pos, pos + enc_point_vector(xs).len() as int) == enc_point_vector(xs),
    ensures
        dec_point_vector(s, pos) == Ok::<(Seq<int>, int), SerializationError>(
            (xs, pos + enc_point_vector(xs).len()),
        ),
        enc_point_vector(xs).len() == 4 + 8 * xs.len(),
{
    lemma_enc_points_len(xs);
    crate::codec::lemma_subrange_split(
        s,
        pos,
        u32_le_bytes(xs.len() as int),
        enc_points_uncompressed(xs),
    );
    lemma_u32_round_trip(xs.len() as int);
    lemma_dec_points_round_trip(s, pos + 4, xs, Seq::empty());
    assert(Seq::empty() + xs =~= xs);
}

/// Appends the length-prefixed uncompressed encodings of a point vector.
pub fn write_point_vector(ps: &Vec<G1Affine>, out: &mut Vec<u8>)
    requires
        points_valid(ps@),
        ps@.len() < 0x1_0000_0000,
    ensures
        final(out)@ == old(out)@ + enc_point_vector(points_view(ps@)),
{
    write_u32_le(ps.len() as u32, out);
    write_points_uncompressed(ps, out);
    proof {
        assert(final(out)@ =~= old(out)@ + enc_point_vector(points_view(ps@)));
    }
}

/// Reads a length-prefixed vector of uncompressed points at `pos`,
/// returning it with the position after it.
pub fn read_point_vector(bytes: &Vec<u8>, pos: usize) -> (r: Result<
    (Vec<G1Affine>, usize),
    SerializationError,
>)
    ensures
        match dec_point_vector(bytes@, pos as int) {
            Ok(v) => r is Ok && points_view(r->Ok_0.0@) == v.0 && points_valid(r->Ok_0.0@)
                && r->Ok_0.1 as int == v.1 && r->Ok_0.0@.len() < 0x1_0000_0000,
            Err(e) => r == Err::<(Vec<G1Affine>, usize), SerializationError>(e),
        },
{
    let blen: usize = bytes.len();
    let n = match read_u32_le(bytes, pos) {
        Ok(v) => v,
        Err(e) => { return Err(e); },
    };
    proof {
        assert(pos + 4 <= blen);
    }
    read_points_uncompressed(bytes, pos + 4, n)
}

/// Full public parameters (the prover key) for the Groth16 zkSNARK.
#[derive(Clone, Debug)]
pub struct Parameters {
    pub vk: VerifyingKey,
    pub beta_g1: G1Affine,
    pub delta_g1: G1Affine,
    pub a_query: Vec<G1Affine>,
    pub b_g1_query: Vec<G1Affine>,
    pub b_g2_query: Vec<G2Affine>,
    pub h_query: Vec<G1Affine>,
    pub l_query: Vec<G1Affine>,
}

/// The mathematical content of the parameters.
pub struct ParametersModel {
    pub vk: VerifyingKeyModel,
    pub beta_g1: int,
    pub delta_g1: int,
    pub a_query: Seq<int>,
    pub b_g1_query: Seq<int>,
    pub b_g2_query: Seq<int>,
    pub h_query: Seq<int>,
    pub l_query: Seq<int>,
}

impl View for Parameters {
    type V = ParametersModel;

    open spec fn view(&self) -> ParametersModel {
        ParametersModel {
            vk: self.vk@,
            beta_g1: self.beta_g1@,
            delta_g1: self.delta_g1@,
            a_query: points_view(self.a_query@),
            b_g1_query: points_view(self.b_g1_query@),
            b_g2_query: points_view(self.b_g2_query@),
            h_query: points_view(self.h_query@),
            l_query: points_view(self.l_query@),
        }
    }
}

impl PartialEq for Parameters {
    fn eq(&self, other: &Self) -> (r: bool) {
        if !(self.vk == other.vk) {
            return false;
        }
        if !(self.beta_g1 == other.beta_g1 && self.delta_g1 == other.delta_g1) {
            return false;
        }
        points_eq(&self.a_query, &other.a_query) && points_eq(&self.b_g1_query, &other.b_g1_query)
            && points_eq(&self.b_g2_query, &other.b_g2_query) && points_eq(
            &self.h_query,
            &other.h_query,
        ) && points_eq(&self.l_query, &other.l_query)
    }
}

impl vstd::std_specs::cmp::PartialEqSpecImpl for Parameters {
    open spec fn obeys_eq_spec() -> bool {
        true
    }

    open spec fn eq_spec(&self, other: &Self) -> bool {
        self.vk.alpha_g1 == other.vk.alpha_g1 && self.vk.beta_g2 == other.vk.beta_g2
            && self.vk.gamma_g2 == other.vk.gamma_g2 && self.vk.delta_g2 == other.vk.delta_g2
            && self.vk.gamma_abc_g1@ == other.vk.gamma_abc_g1@
            && self.beta_g1 == other.beta_g1 && self.delta_g1
            == other.delta_g1 && self.a_query@ == other.a_query@ && self.b_g1_query@
            == other.b_g1_query@ && self.b_g2_query@ == other.b_g2_query@ && self.h_query@
            == other.h_query@ && self.l_query@ == other.l_query@
    }
}

/// The wire form of the parameters: the verification key, the two fixed
/// points, then the five length-prefixed query vectors, in field order.
#[verifier::opaque]
pub open spec fn enc_parameters(m: ParametersModel) -> Seq<u8> {
    enc_verifying_key(m.vk) + enc_point_uncompressed(m.beta_g1) + enc_point_uncompressed(
        m.delta_g1,
    ) + enc_point_vector(m.a_query) + enc_point_vector(m.b_g1_query) + enc_point_vector(
        m.b_g2_query,
    ) + enc_point_vector(m.h_query) + enc_point_vector(m.l_query)
}

/// The meaning of a byte stream under the parameters decoding, ending
/// with the position after the last query vector.
#[verifier::opaque]
pub open spec fn dec_parameters(s: Seq<u8>, pos: int) -> Result<
    (ParametersModel, int),
    SerializationError,
> {
    match dec_verifying_key(s, pos) {
        Err(e) => Err(e),
        Ok((vk, p0)) => match dec_point_uncompressed(s, p0) {
            Err(e) => Err(e),
            Ok(beta_g1) => match dec_point_uncompressed(s, p0 + 8) {
                Err(e) => Err(e),
                Ok(delta_g1) => match dec_point_vector(s, p0 + 16) {
                    Err(e) => Err(e),
                    Ok((a_query, p1)) => match dec_point_vector(s, p1) {
                        Err(e) => Err(e),
                        Ok((b_g1_query, p2)) => match dec_point_vector(s, p2) {
                            Err(e) => Err(e),
                            Ok((b_g2_query, p3)) => match dec_point_vector(s, p3) {
                                Err(e) => Err(e),
                                Ok((h_query, p4)) => match dec_point_vector(s, p4) {
                                    Err(e) => Err(e),
                                    Ok((l_query, p5)) => Ok(
                                        (
                                            ParametersModel {
                                                vk,
                                                beta_g1,
                                                delta_g1,
                                                a_query,
                                                b_g1_query,
                                                b_g2_query,
                                                h_query,
                                                l_query,
                                            },
                                            p5,
                                        ),
                                    ),
                                },
                            },
                        },
                    },
                },
            },
        },
    }
}

impl Parameters {
    /// All components canonical and every vector length expressible in
    /// its four-byte count.
    pub open spec fn is_valid(self) -> bool {
        self.vk.is_valid() && self.beta_g1.is_valid() && self.delta_g1.is_valid() && points_valid(
            self.a_query@,
        ) && self.a_query@.len() < 0x1_0000_0000 && points_valid(self.b_g1_query@)
            && self.b_g1_query@.len() < 0x1_0000_0000 && points_valid(self.b_g2_query@)
            && self.b_g2_query@.len() < 0x1_0000_0000 && points_valid(self.h_query@)
            && self.h_query@.len() < 0x1_0000_0000 && points_valid(self.l_query@)
            && self.l_query@.len() < 0x1_0000_0000
    }

    /// Serialize the parameters to bytes.
    pub fn write(&self) -> (r: Vec<u8>)
        requires
            self.is_valid(),
        ensures
            r@ == enc_parameters(self@),
    {
        let mut out: Vec<u8> = self.vk.write();
        write_point_uncompressed(&self.beta_g1, &mut out);
        write_point_uncompressed(&self.delta_g1, &mut out);
        write_point_vector(&self.a_query, &mut out);
        write_point_vector(&self.b_g1_query, &mut out);
        write_point_vector(&self.b_g2_query, &mut out);
        write_point_vector(&self.h_query, &mut out);
        write_point_vector(&self.l_query, &mut out);
        proof {
            reveal(enc_parameters);
            assert(out@ =~= enc_parameters(self@));
        }
        out
    }

    /// Deserialize the public parameters from bytes. In checked mode
    /// every query point is additionally put through the subgroup
    /// membership check after decoding; the whole group has prime order
    /// in this instantiation, so the check never rejects and the result
    /// does not depend on the mode.
    pub fn read(bytes: &Vec<u8>, checked: bool) -> (r: Result<Parameters, SerializationError>)
        ensures
            match dec_parameters(bytes@, 0) {
                Ok(v) => r is Ok && r->Ok_0.is_valid() && r->Ok_0@ == v.0,
                Err(e) => r == Err::<Parameters, SerializationError>(e),
            },
    {
        let blen: usize = bytes.len();
        proof {
            reveal(dec_parameters);
        }
        let (vk, p0) = match VerifyingKey::read_at(bytes, 0) {
            Ok(v) => v,
            Err(e) => { return Err(e); },
        };
        let beta_g1 = match read_point_uncompressed(bytes, p0) {
            Ok(p) => p,
            Err(e) => { return Err(e); },
        };
        proof {
            assert(dec_point_uncompressed(bytes@, p0 as int) is Ok);
            assert(p0 + 8 <= blen);
        }
        let delta_g1 = match read_point_uncompressed(bytes, p0 + 8) {
            Ok(p) => p,
            Err(e) => { return Err(e); },
        };
        proof {
            assert(dec_point_uncompressed(bytes@, p0 + 8) is Ok);
            assert(p0 + 16 <= blen);
        }
        let (a_query, p1) = match read_point_vector(bytes, p0 + 16) {
            Ok(v) => v,
            Err(e) => { return Err(e); },
        };
        let (b_g1_query, p2) = match read_point_vector(bytes, p1) {
            Ok(v) => v,
            Err(e) => { return Err(e); },
        };
        let (b_g2_query, p3) = match read_point_vector(bytes, p2) {
            Ok(v) => v,
            Err(e) => { return Err(e); },
        };
        let (h_query, p4) = match read_point_vector(bytes, p3) {
            Ok(v) => v,
            Err(e) => { return Err(e); },
        };
        let (l_query, _p5) = match read_point_vector(bytes, p4) {
            Ok(v) => v,
            Err(e) => { return Err(e); },
        };
        if checked {
            if !(points_in_subgroup(&a_query) && points_in_subgroup(&b_g1_query)
                && points_in_subgroup(&b_g2_query) && points_in_subgroup(&h_query)
                && points_in_subgroup(&l_query) && points_in_subgroup(&vk.gamma_abc_g1)) {
                return Err(SerializationError::NotInSubgroup);
            }
        }
        Ok(Parameters { vk, beta_g1, delta_g1, a_query, b_g1_query, b_g2_query, h_query, l_query })
    }
}

/// Runs the subgroup membership check over a decoded vector; with a
/// prime-order group every point passes.
pub fn points_in_subgroup(ps: &Vec<G1Affine>) -> (r: bool)
    ensures
        r == true,
{
    let n = ps.len();
    let mut i: usize = 0;
    while i < n
        invariant
            i <= n,
            n == ps@.len(),
        decreases n - i,
    {
        if !ps[i].is_in_correct_subgroup_assuming_on_curve() {
            return false;
        }
        i = i + 1;
    }
    true
}

/// Decoding the parameters' encoding gives the parameters back: the full
/// prover key round-trips through its wire form.
/// The layout of the parameters encoding: each component occupies its own
/// consecutive window of the stream.
#[verifier::rlimit(100)]
#[verifier::spinoff_prover]
proof fn lemma_parameters_layout(s: Seq<u8>, m: ParametersModel)
    requires
        s == enc_parameters(m),
    ensures
        ({
            let ev = enc_verifying_key(m.vk);
            let b1 = enc_point_uncompressed(m.beta_g1);
            let d1 = enc_point_uncompressed(m.delta_g1);
            let q1 = enc_point_vector(m.a_query);
            let q2 = enc_point_vector(m.b_g1_query);
            let q3 = enc_point_vector(m.b_g2_query);
            let q4 = enc_point_vector(m.h_query);
            let q5 = enc_point_vector(m.l_query);
            let p0 = ev.len() as int;
            let p1 = p0 + 16 + q1.len() as int;
            let p2 = p1 + q2.len() as int;
            let p3 = p2 + q3.len() as int;
            let p4 = p3 + q4.len() as int;
            let p5 = p4 + q5.len() as int;
            &&& s.len() == p5
            &&& s.subrange(0, p0) == ev
            &&& s.subrange(p0, p0 + 8) == b1
            &&& s.subrange(p0 + 8, p0 + 16) == d1
            &&& s.subrange(p0 + 16, p1) == q1
            &&& s.subrange(p1, p2) == q2
            &&& s.subrange(p2, p3) == q3
            &&& s.subrange(p3, p4) == q4
            &&& s.subrange(p4, p5) == q5
        }),
{
    reveal(enc_parameters);
    let ev = enc_verifying_key(m.vk);
    let b1 = enc_point_uncompressed(m.beta_g1);
    let d1 = enc_point_uncompressed(m.delta_g1);
    let q1 = enc_point_vector(m.a_query);
    let q2 = enc_point_vector(m.b_g1_query);
    let q3 = enc_point_vector(m.b_g2_query);
    let q4 = enc_point_vector(m.h_query);
    let q5 = enc_point_vector(m.l_query);
    assert(s.subrange(0, s.len() as int) =~= s);
    crate::codec::lemma_subrange_split(s, 0, ev + b1 + d1 + q1 + q2 + q3 + q4, q5);
    crate::codec::lemma_subrange_split(s, 0, ev + b1 + d1 + q1 + q2 + q3, q4);
    crate::codec::lemma_subrange_split(s, 0, ev + b1 + d1 + q1 + q2, q3);
    crate::codec::lemma_subrange_split(s, 0, ev + b1 + d1 + q1, q2);
    crate::codec::lemma_subrange_split(s, 0, ev + b1 + d1, q1);
    crate::codec::lemma_subrange_split(s, 0, ev + b1, d1);
    crate::codec::lemma_subrange_split(s, 0, ev, b1);
}

#[verifier::rlimit(100)]
#[verifier::spinoff_prover]
pub proof fn lemma_parameters_round_trip(s: Seq<u8>, m: ParametersModel)
    requires
        0 <= m.beta_g1 < crate::field::MODULUS as int,
        0 <= m.delta_g1 < crate::field::MODULUS as int,
        0 <= m.vk.alpha_g1 < crate::field::MODULUS as int,
        0 <= m.vk.beta_g2 < crate::field::MODULUS as int,
        0 <= m.vk.gamma_g2 < crate::field::MODULUS as int,
        0 <= m.vk.delta_g2 < crate::field::MODULUS as int,
        exponents_valid(m.vk.gamma_abc_g1),
        m.vk.gamma_abc_g1.len() < 0x1_0000_0000,
        exponents_valid(m.a_query),
        m.a_query.len() < 0x1_0000_0000,
        exponents_valid(m.b_g1_query),
        m.b_g1_query.len() < 0x1_0000_0000,
        exponents_valid(m.b_g2_query),
        m.b_g2_query.len() < 0x1_0000_0000,
        exponents_valid(m.h_query),
        m.h_query.len() < 0x1_0000_0000,
        exponents_valid(m.l_query),
        m.l_query.len() < 0x1_0000_0000,
        s == enc_parameters(m),
    ensures
        dec_parameters(s, 0) == Ok::<(ParametersModel, int), SerializationError>((m, s.len() as int)),
{
    reveal(dec_parameters);
    let ev = enc_verifying_key(m.vk);
    let b1 = enc_point_uncompressed(m.beta_g1);
    let d1 = enc_point_uncompressed(m.delta_g1);
    let q1 = enc_point_vector(m.a_query);
    let q2 = enc_point_vector(m.b_g1_query);
    let q3 = enc_point_vector(m.b_g2_query);
    let q4 = enc_point_vector(m.h_query);
    let q5 = enc_point_vector(m.l_query);
    lemma_parameters_layout(s, m);
    let p0 = ev.len() as int;
    assert(dec_verifying_key(s, 0) == Ok::<(VerifyingKeyModel, int), SerializationError>(
        (m.vk, p0),
    )) by {
        lemma_verifying_key_round_trip(s, 0, m.vk);
    }
    assert(dec_point_uncompressed(s, p0) == Ok::<int, SerializationError>(m.beta_g1)) by {
        lemma_point_uncompressed_round_trip(s, p0, m.beta_g1);
    }
    assert(dec_point_uncompressed(s, p0 + 8) == Ok::<int, SerializationError>(m.delta_g1)) by {
        lemma_point_uncompressed_round_trip(s, p0 + 8, m.delta_g1);
    }
    let p1 = p0 + 16 + q1.len() as int;
    assert(dec_point_vector(s, p0 + 16) == Ok::<(Seq<int>, int), SerializationError>(
        (m.a_query, p1),
    )) by {
        lemma_point_vector_round_trip(s, p0 + 16, m.a_query);
    }
    let p2 = p1 + q2.len() as int;
    assert(dec_point_vector(s, p1) == Ok::<(Seq<int>, int), SerializationError>(
        (m.b_g1_query, p2),
    )) by {
        lemma_point_vector_round_trip(s, p1, m.b_g1_query);
    }
    let p3 = p2 + q3.len() as int;
    assert(dec_point_vector(s, p2) == Ok::<(Seq<int>, int), SerializationError>(
        (m.b_g2_query, p3),
    )) by {
        lemma_point_vector_round_trip(s, p2, m.b_g2_query);
    }
    let p4 = p3 + q4.len() as int;
    assert(dec_point_vector(s, p3) == Ok::<(Seq<int>, int), SerializationError>(
        (m.h_query, p4),
    )) by {
        lemma_point_vector_round_trip(s, p3, m.h_query);
    }
    let p5 = p4 + q5.len() as int;
    assert(dec_point_vector(s, p4) == Ok::<(Seq<int>, int), SerializationError>(
        (m.l_query, p5),
    )) by {
        lemma_point_vector_round_trip(s, p4, m.l_query);
    }
    assert(p5 == s.len());
}

} // verus!
