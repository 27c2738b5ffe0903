//! The 40-byte game-asset record and its fixed-layout codec.

use crate::bytes::{append_bytes, bytes_eq, bytes_views, copy_range};
use crate::error::Error;
use vstd::arithmetic::div_mod::{lemma_div_denominator, lemma_fundamental_div_mod};
use vstd::prelude::*;

verus! {

/// Byte length of an encoded record: a 16-byte name, a 20-byte
/// identity hash, and a 4-byte big-endian signed fish balance.
pub const NFT_DATA_LEN: usize = 40;

/// The mathematical view of a record.
#[verifier::ext_equal]
pub struct NFTView {
    pub name: Seq<u8>,
    pub hash: Seq<u8>,
    pub fishes: int,
}

impl NFTView {
    /// The fields have the fixed widths of the persisted layout and
    /// the balance fits a signed 32-bit value.
    pub open spec fn wf(&self) -> bool {
        self.name.len() == 16 && self.hash.len() == 20 && -0x8000_0000 <= self.fishes
            < 0x8000_0000
    }
}

/// A game-asset record: an immutable, fixed 40-byte value.
#[derive(Debug)]
pub struct NFTData {
    /// Human-readable label; nothing is enforced beyond byte equality.
    pub name: Vec<u8>,
    /// Opaque digest binding the record to its owner and lineage; it
    /// also seeds the derived battle attributes.
    pub hash: Vec<u8>,
    /// The economy counter, persisted big-endian.
    pub fishes: i32,
}

impl View for NFTData {
    type V = NFTView;

    open spec fn view(&self) -> NFTView {
        NFTView { name: self.name@, hash: self.hash@, fishes: self.fishes as int }
    }
}

/// The unsigned big-endian value of four bytes.
pub open spec fn be_u32(b: Seq<u8>) -> int
    recommends
        b.len() == 4,
{
    b[0] * 0x100_0000 + b[1] * 0x1_0000 + b[2] * 0x100 + b[3]
}

/// The signed (two's complement) big-endian value of four bytes.
pub open spec fn be_i32(b: Seq<u8>) -> int
    recommends
        b.len() == 4,
{
    if be_u32(b) >= 0x8000_0000 {
        be_u32(b) - 0x1_0000_0000
    } else {
        be_u32(b)
    }
}

/// The four big-endian bytes of a signed 32-bit value.
pub open spec fn i32_be_bytes(f: int) -> Seq<u8>
    recommends
        -0x8000_0000 <= f < 0x8000_0000,
{
    let u = if f < 0 {
        f + 0x1_0000_0000
    } else {
        f
    };
    seq![
        (u / 0x100_0000) as u8,
        ((u / 0x1_0000) % 0x100) as u8,
        ((u / 0x100) % 0x100) as u8,
        (u % 0x100) as u8,
    ]
}

/// What the leading 40 bytes of a payload decode to.
pub open spec fn spec_decode(d: Seq<u8>) -> NFTView
    recommends
        d.len() >= 40,
{
    NFTView {
        name: d.subrange(0, 16),
        hash: d.subrange(16, 36),
        fishes: be_i32(d.subrange(36, 40)),
    }
}

/// The exact 40-byte encoding of a record: name, identity hash, then
/// the big-endian balance.
pub open spec fn spec_encode(r: NFTView) -> Seq<u8> {
    r.name + r.hash + i32_be_bytes(r.fishes)
}

/// A value in `[0, 2^32)` is recovered from its four big-endian bytes.
proof fn lemma_u32_byte_decomposition(u: int)
    requires
        0 <= u < 0x1_0000_0000,
    ensures
        (u / 0x100_0000) * 0x100_0000 + ((u / 0x1_0000) % 0x100) * 0x1_0000 + ((u / 0x100) % 0x100)
            * 0x100 + u % 0x100 == u,
        0 <= u / 0x100_0000 < 0x100,
{
    lemma_fundamental_div_mod(u, 0x100);
    lemma_fundamental_div_mod(u / 0x100, 0x100);
    lemma_fundamental_div_mod(u / 0x1_0000, 0x100);
    lemma_div_denominator(u, 0x100, 0x100);
    lemma_div_denominator(u, 0x1_0000, 0x100);
}

/// Codec round trip at the level of the balance field.
proof fn lemma_be_round_trip(f: int)
    requires
        -0x8000_0000 <= f < 0x8000_0000,
    ensures
        i32_be_bytes(f).len() == 4,
        be_i32(i32_be_bytes(f)) == f,
{
    let u = if f < 0 {
        f + 0x1_0000_0000
    } else {
        f
    };
    lemma_u32_byte_decomposition(u);
    assert(be_u32(i32_be_bytes(f)) == u);
}

/// Codec round trip: decoding an encoded record gives the record back.
pub proof fn lemma_codec_round_trip(r: NFTView)
    requires
        r.wf(),
    ensures
        spec_decode(spec_encode(r)) == r,
{
    let e = spec_encode(r);
    lemma_be_round_trip(r.fishes);
    assert(e.subrange(0, 16) =~= r.name);
    assert(e.subrange(16, 36) =~= r.hash);
    assert(e.subrange(36, 40) =~= i32_be_bytes(r.fishes));
    assert(spec_decode(e) =~= r);
}

impl NFTData {
    /// The fields have the fixed widths of the persisted layout.
    pub open spec fn wf(&self) -> bool {
        self.name@.len() == 16 && self.hash@.len() == 20
    }

    /// Decodes the leading 40 bytes of a payload.
    pub fn from_bytes(data: &Vec<u8>) -> (r: NFTData)
        requires
            data@.len() >= 40,
        ensures
            r@ == spec_decode(data@),
            r.wf(),
    {
        let name = copy_range(data, 0, 16);
        let hash = copy_range(data, 16, 36);
        let b0 = data[36] as i64;
        let b1 = data[37] as i64;
        let b2 = data[38] as i64;
        let b3 = data[39] as i64;
        let u: i64 = b0 * 0x100_0000 + b1 * 0x1_0000 + b2 * 0x100 + b3;
        let s: i64 = if u >= 0x8000_0000 {
            u - 0x1_0000_0000
        } else {
            u
        };
        let fishes = s as i32;
        let r = NFTData { name, hash, fishes };
        proof {
            let four = data@.subrange(36, 40);
            assert(be_u32(four) == u);
            assert(r@ =~= spec_decode(data@));
        }
        r
    }

    /// Encodes the record into its exact 40-byte layout.
    pub fn encode(&self) -> (r: Vec<u8>)
        requires
            self.wf(),
        ensures
            r@ == spec_encode(self@),
            r@.len() == 40,
    {
        let mut r: Vec<u8> = Vec::new();
        append_bytes(&mut r, &self.name);
        append_bytes(&mut r, &self.hash);
        let f = self.fishes as i64;
        let u: i64 = if f < 0 {
            f + 0x1_0000_0000
        } else {
            f
        };
        proof {
            lemma_u32_byte_decomposition(u as int);
        }
        r.push((u / 0x100_0000) as u8);
        r.push(((u / 0x1_0000) % 0x100) as u8);
        r.push(((u / 0x100) % 0x100) as u8);
        r.push((u % 0x100) as u8);
        proof {
            assert(r@ =~= spec_encode(self@));
        }
        r
    }

    /// Complete-value equality: name, identity hash and balance.
    pub fn content_eq(&self, other: &NFTData) -> (r: bool)
        ensures
            r == (self@ == other@),
    {
        let r = bytes_eq(&self.name, &other.name) && bytes_eq(&self.hash, &other.hash)
            && self.fishes == other.fishes;
        proof {
            if r {
                assert(self@ =~= other@);
            }
        }
        r
    }
}

impl PartialEq for NFTData {
    fn eq(&self, other: &NFTData) -> (r: bool) {
        self.content_eq(other)
    }
}

impl vstd::std_specs::cmp::PartialEqSpecImpl for NFTData {
    open spec fn obeys_eq_spec() -> bool {
        true
    }

    open spec fn eq_spec(&self, other: &NFTData) -> bool {
        self@ == other@
    }
}

/// Whether a record payload has a valid length: before-side records
/// are strict (exactly 40 bytes), after-side records lenient (at
/// least 40 bytes).
pub open spec fn record_len_ok(d: Seq<u8>, strict: bool) -> bool {
    if strict {
        d.len() == 40
    } else {
        d.len() >= 40
    }
}

/// What a list of raw record payloads collects to: the decoded
/// records, or the encoding error if any payload has a bad length.
pub open spec fn spec_collect(raw: Seq<Seq<u8>>, strict: bool) -> Result<Seq<NFTView>, Error> {
    if forall|i: int| 0 <= i < raw.len() ==> record_len_ok(#[trigger] raw[i], strict) {
        Ok(Seq::new(raw.len(), |i: int| spec_decode(raw[i])))
    } else {
        Err(Error::Encoding)
    }
}

/// The view of every record in a list.
pub open spec fn rec_views(v: Seq<NFTData>) -> Seq<NFTView> {
    Seq::new(v.len(), |i: int| v[i]@)
}

/// Collects the before-side records, each payload exactly 40 bytes.
pub fn collect_inputs_data(raw: &Vec<Vec<u8>>) -> (r: Result<Vec<NFTData>, Error>)
    ensures
        (match r {
            Ok(v) => spec_collect(bytes_views(raw@), true) == Ok::<_, Error>(rec_views(v@))
                && v@.len() == raw@.len() && (forall|i: int|
                0 <= i < v@.len() ==> (#[trigger] v@[i]).wf()),
            Err(e) => spec_collect(bytes_views(raw@), true) == Err::<Seq<NFTView>, _>(e),
        }),
{
    let mut out: Vec<NFTData> = Vec::new();
    let mut i: usize = 0;
    while i < raw.len()
        invariant
            0 <= i <= raw@.len(),
            out@.len() == i,
            forall|j: int| 0 <= j < i ==> record_len_ok(#[trigger] bytes_views(raw@)[j], true),
            forall|j: int| 0 <= j < i ==> (#[trigger] out@[j])@ == spec_decode(raw@[j]@),
            forall|j: int| 0 <= j < i ==> (#[trigger] out@[j]).wf(),
        decreases raw@.len() - i,
    {
        let d = &raw[i];
        if d.len() != NFT_DATA_LEN {
            proof {
                assert(!record_len_ok(bytes_views(raw@)[i as int], true));
            }
            return Err(Error::Encoding);
        }
        out.push(NFTData::from_bytes(d));
        i += 1;
    }
    proof {
        assert(rec_views(out@) =~= Seq::new(
            bytes_views(raw@).len(),
            |i: int| spec_decode(bytes_views(raw@)[i]),
        ));
    }
    Ok(out)
}

/// Collects the after-side records, each payload at least 40 bytes.
pub fn collect_outputs_data(raw: &Vec<Vec<u8>>) -> (r: Result<Vec<NFTData>, Error>)
    ensures
        (match r {
            Ok(v) => spec_collect(bytes_views(raw@), false) == Ok::<_, Error>(rec_views(v@))
                && v@.len() == raw@.len() && (forall|i: int|
                0 <= i < v@.len() ==> (#[trigger] v@[i]).wf()),
            Err(e) => spec_collect(bytes_views(raw@), false) == Err::<Seq<NFTView>, _>(e),
        }),
{
    let mut out: Vec<NFTData> = Vec::new();
    let mut i: usize = 0;
    while i < raw.len()
        invariant
            0 <= i <= raw@.len(),
            out@.len() == i,
            forall|j: int| 0 <= j < i ==> record_len_ok(#[trigger] bytes_views(raw@)[j], false),
            forall|j: int| 0 <= j < i ==> (#[trigger] out@[j])@ == spec_decode(raw@[j]@),
            forall|j: int| 0 <= j < i ==> (#[trigger] out@[j]).wf(),
        decreases raw@.len() - i,
    {
        let d = &raw[i];
        if d.len() < NFT_DATA_LEN {
            proof {
                assert(!record_len_ok(bytes_views(raw@)[i as int], false));
            }
            return Err(Error::Encoding);
        }
        out.push(NFTData::from_bytes(d));
        i += 1;
    }
    proof {
        assert(rec_views(out@) =~= Seq::new(
            bytes_views(raw@).len(),
            |i: int| spec_decode(bytes_views(raw@)[i]),
        ));
    }
    Ok(out)
}

} // verus!
