use vstd::prelude::*;
use crate::bn254::{
    decimal_value,
    fq,
    fq_from_natural,
    fq_neg,
    g1_is_valid,
    g1_negated,
    g1_on_curve,
    g2_in_group,
    g2_is_valid,
    is_decimal,
    natural_from_decimal,
    Natural,
};
use crate::encoding::{
    be_bytes,
    be_value,
    convert_endianness_vec,
    lemma_be_value_of_be_bytes,
    lemma_le_value_of_le_bytes32,
    lemma_pow256_32,
    lemma_reverse_chunks_concat,
    lemma_reverse_chunks_single,
    lemma_reverse_le_bytes,
    pow256,
};
use crate::errors::ConversionError;
use vstd::arithmetic::div_mod::lemma_small_mod;

verus! {

/// Length in bytes of one coordinate in a prepared proof.
pub const LIMB_LEN: usize = 32;

/// Length in bytes of a prepared proof.
pub const PROOF_LEN: usize = 256;

/// A Groth16 proof as snarkjs writes it: three points, each coordinate a
/// decimal number. `pi_a` and `pi_c` are `[x, y, z]`; `pi_b` is
/// `[[x_c0, x_c1], [y_c0, y_c1], [z_c0, z_c1]]`.
pub struct RawProof {
    pub pi_a: Vec<String>,
    pub pi_b: Vec<Vec<String>>,
    pub pi_c: Vec<String>,
    pub protocol: String,
    pub curve: String,
}

/// A proof in the bytes that the pairing check of the ledger takes. `raw`
/// holds `proof_a`, `proof_b` and `proof_c` one after the other.
pub struct PreparedProof {
    pub proof_a: Vec<u8>,
    pub proof_b: Vec<u8>,
    pub proof_c: Vec<u8>,
    pub raw: Vec<u8>,
}

/// `raw` with the bytes from `at` on replaced by `part`.
pub open spec fn spliced(raw: Seq<u8>, at: int, part: Seq<u8>) -> Seq<u8> {
    raw.subrange(0, at) + part + raw.subrange(at + part.len(), raw.len() as int)
}

/// The 64 bytes of the point `(x, y)` of G1: each coordinate reduced to the
/// field and written most significant byte first.
pub open spec fn g1_bytes(x: nat, y: nat) -> Seq<u8> {
    be_bytes(fq(x), 32) + be_bytes(fq(y), 32)
}

/// The 64 bytes of the negative of the point `(x, y)` of G1, which is
/// `(x, -y)`.
pub open spec fn g1_negated_bytes(x: nat, y: nat) -> Seq<u8> {
    be_bytes(fq(x), 32) + be_bytes(fq_neg(y), 32)
}

/// The 128 bytes of the point of G2 with the coordinates `x0 + y0 * u` and
/// `x1 + y1 * u`: in each coordinate the part at `u` comes first.
pub open spec fn g2_bytes(x0: nat, y0: nat, x1: nat, y1: nat) -> Seq<u8> {
    be_bytes(fq(y0), 32) + be_bytes(fq(x0), 32) + be_bytes(fq(y1), 32) + be_bytes(fq(x1), 32)
}

/// Writes `part` over the bytes of `raw` from `at` on.
fn write_at(raw: &mut Vec<u8>, at: usize, part: &Vec<u8>)
    requires
        at + part@.len() <= old(raw)@.len(),
    ensures
        final(raw)@ == spliced(old(raw)@, at as int, part@),
{
    let mut i: usize = 0;
    while i < part.len()
        invariant
            i <= part@.len(),
            raw@.len() == old(raw)@.len(),
            at + part@.len() <= raw.len(),
            forall|j: int| 0 <= j < at ==> raw@[j] == old(raw)@[j],
            forall|j: int| at <= j < at + i ==> raw@[j] == part@[j - at],
            forall|j: int| at + i <= j < raw@.len() ==> raw@[j] == old(raw)@[j],
        decreases part@.len() - i,
    {
        raw[at + i] = part[i];
        i += 1;
    }
    assert(raw@ =~= spliced(old(raw)@, at as int, part@));
}

/// `first` and then `second`, in one vector.
fn concat2(first: &[u8; 32], second: &[u8; 32]) -> (both: Vec<u8>)
    ensures
        both@ == first@ + second@,
{
    let mut both: Vec<u8> = Vec::with_capacity(64);
    let mut i: usize = 0;
    while i < 32
        invariant
            i <= 32,
            both@ == first@.subrange(0, i as int),
        decreases 32 - i,
    {
        both.push(first[i]);
        assert(both@ =~= first@.subrange(0, i + 1));
        i += 1;
    }
    assert(both@ =~= first@);
    let mut j: usize = 0;
    while j < 32
        invariant
            j <= 32,
            both@ == first@ + second@.subrange(0, j as int),
        decreases 32 - j,
    {
        both.push(second[j]);
        assert(both@ =~= first@ + second@.subrange(0, j + 1));
        j += 1;
    }
    assert(both@ =~= first@ + second@);
    both
}

/// Two coordinates, each given least significant byte first, as the 64 bytes
/// that hold each most significant byte first.
fn limbs_to_be(x: &[u8; 32], y: &[u8; 32]) -> (bytes: Vec<u8>)
    ensures
        bytes@ == x@.reverse() + y@.reverse(),
{
    let g1_bytes = concat2(x, y);
    let bytes = convert_endianness_vec(g1_bytes.as_slice(), LIMB_LEN);
    proof {
        lemma_reverse_chunks_concat(x@, y@, 32);
        lemma_reverse_chunks_single(y@);
    }
    bytes
}

impl PreparedProof {
    /// The buffer is 256 bytes long.
    pub open spec fn wf(&self) -> bool {
        self.raw@.len() == PROOF_LEN
    }

    /// A proof with no point set: `raw` is 256 zero bytes.
    pub fn new() -> (prepared: PreparedProof)
        ensures
            prepared.wf(),
            prepared.proof_a@ == Seq::<u8>::empty(),
            prepared.proof_b@ == Seq::<u8>::empty(),
            prepared.proof_c@ == Seq::<u8>::empty(),
            prepared.raw@ == Seq::new(256, |i: int| 0u8),
    {
        let mut raw: Vec<u8> = Vec::with_capacity(PROOF_LEN);
        let mut i: usize = 0;
        while i < PROOF_LEN
            invariant
                i <= PROOF_LEN,
                raw@ == Seq::new(i as nat, |j: int| 0u8),
            decreases PROOF_LEN - i,
        {
            raw.push(0);
            assert(raw@ =~= Seq::new((i + 1) as nat, |j: int| 0u8));
            i += 1;
        }
        PreparedProof { proof_a: Vec::new(), proof_b: Vec::new(), proof_c: Vec::new(), raw }
    }

    /// Sets the first point of the proof, the negative of `(x_int, y_int)` in
    /// G1, and writes it to the first 64 bytes of the buffer. A point that is
    /// not on the curve is refused and nothing changes.
    pub fn set_proof_a(&mut self, x_int: Natural, y_int: Natural) -> (result: Result<
        (),
        ConversionError,
    >)
        requires
            old(self).wf(),
        ensures
            final(self).wf(),
            final(self).proof_b@ == old(self).proof_b@,
            final(self).proof_c@ == old(self).proof_c@,
            g1_on_curve(fq(x_int@), fq(y_int@)) ==> result == Ok::<(), ConversionError>(())
                && final(self).proof_a@ == g1_negated_bytes(x_int@, y_int@)
                && final(self).raw@ == spliced(old(self).raw@, 0, g1_negated_bytes(x_int@, y_int@)),
            !g1_on_curve(fq(x_int@), fq(y_int@)) ==> result == Err::<(), ConversionError>(
                ConversionError::PointNotOnCurveError,
            ) && final(self).proof_a@ == old(self).proof_a@ && final(self).raw@ == old(
                self,
            ).raw@,
    {
        let x = fq_from_natural(&x_int);
        let y = fq_from_natural(&y_int);
        proof {
            lemma_pow256_32();
            lemma_le_value_of_le_bytes32(fq(x_int@));
            lemma_le_value_of_le_bytes32(fq(y_int@));
        }
        if !g1_is_valid(&x, &y) {
            return Err(ConversionError::PointNotOnCurveError);
        }
        let g1 = g1_negated(&x, &y);
        self.proof_a = limbs_to_be(&g1.0, &g1.1);
        proof {
            lemma_reverse_le_bytes(fq(x_int@), 32);
            lemma_reverse_le_bytes(fq_neg(y_int@), 32);
        }
        write_at(&mut self.raw, 0, &self.proof_a);
        Ok(())
    }

    /// Sets the second point of the proof, the point of G2 with the
    /// coordinates `x0_int + y0_int * u` and `x1_int + y1_int * u`, and writes
    /// it to the bytes 64 to 192 of the buffer, the part at `u` first in each
    /// coordinate. A point that is not in G2 is refused and nothing changes.
    pub fn set_proof_b(
        &mut self,
        x0_int: Natural,
        y0_int: Natural,
        x1_int: Natural,
        y1_int: Natural,
    ) -> (result: Result<(), ConversionError>)
        requires
            old(self).wf(),
        ensures
            final(self).wf(),
            final(self).proof_a@ == old(self).proof_a@,
            final(self).proof_c@ == old(self).proof_c@,
            g2_in_group(fq(x0_int@), fq(y0_int@), fq(x1_int@), fq(y1_int@)) ==> result == Ok::<
                (),
                ConversionError,
            >(()) && final(self).proof_b@ == g2_bytes(x0_int@, y0_int@, x1_int@, y1_int@)
                && final(self).raw@ == spliced(
                old(self).raw@,
                64,
                g2_bytes(x0_int@, y0_int@, x1_int@, y1_int@),
            ),
            !g2_in_group(fq(x0_int@), fq(y0_int@), fq(x1_int@), fq(y1_int@)) ==> result == Err::<
                (),
                ConversionError,
            >(ConversionError::PointNotOnCurveError) && final(self).proof_b@ == old(
                self,
            ).proof_b@ && final(self).raw@ == old(self).raw@,
    {
        let x_c0 = fq_from_natural(&x0_int);
        let x_c1 = fq_from_natural(&y0_int);
        let y_c0 = fq_from_natural(&x1_int);
        let y_c1 = fq_from_natural(&y1_int);
        proof {
            lemma_pow256_32();
            lemma_le_value_of_le_bytes32(fq(x0_int@));
            lemma_le_value_of_le_bytes32(fq(y0_int@));
            lemma_le_value_of_le_bytes32(fq(x1_int@));
            lemma_le_value_of_le_bytes32(fq(y1_int@));
        }
        if !g2_is_valid(&x_c0, &x_c1, &y_c0, &y_c1) {
            return Err(ConversionError::PointNotOnCurveError);
        }
        let x_be = limbs_to_be(&x_c0, &x_c1);
        let y_be = limbs_to_be(&y_c0, &y_c1);
        let mut proof_b: Vec<u8> = Vec::with_capacity(128);
        append_range(&mut proof_b, &x_be, 32, 64);
        append_range(&mut proof_b, &x_be, 0, 32);
        append_range(&mut proof_b, &y_be, 32, 64);
        append_range(&mut proof_b, &y_be, 0, 32);
        proof {
            lemma_reverse_le_bytes(fq(x0_int@), 32);
            lemma_reverse_le_bytes(fq(y0_int@), 32);
            lemma_reverse_le_bytes(fq(x1_int@), 32);
            lemma_reverse_le_bytes(fq(y1_int@), 32);
            assert(x_be@.subrange(32, 64) =~= be_bytes(fq(y0_int@), 32));
            assert(x_be@.subrange(0, 32) =~= be_bytes(fq(x0_int@), 32));
            assert(y_be@.subrange(32, 64) =~= be_bytes(fq(y1_int@), 32));
            assert(y_be@.subrange(0, 32) =~= be_bytes(fq(x1_int@), 32));
            assert(proof_b@ =~= g2_bytes(x0_int@, y0_int@, x1_int@, y1_int@));
        }
        self.proof_b = proof_b;
        write_at(&mut self.raw, 64, &self.proof_b);
        Ok(())
    }

    /// Sets the third point of the proof, `(x_int, y_int)` in G1, and writes
    /// it to the last 64 bytes of the buffer. A point that is not on the
    /// curve is refused and nothing changes.
    pub fn set_proof_c(&mut self, x_int: Natural, y_int: Natural) -> (result: Result<
        (),
        ConversionError,
    >)
        requires
            old(self).wf(),
        ensures
            final(self).wf(),
            final(self).proof_a@ == old(self).proof_a@,
            final(self).proof_b@ == old(self).proof_b@,
            g1_on_curve(fq(x_int@), fq(y_int@)) ==> result == Ok::<(), ConversionError>(())
                && final(self).proof_c@ == g1_bytes(x_int@, y_int@) && final(self).raw@
                == spliced(old(self).raw@, 192, g1_bytes(x_int@, y_int@)),
            !g1_on_curve(fq(x_int@), fq(y_int@)) ==> result == Err::<(), ConversionError>(
                ConversionError::PointNotOnCurveError,
            ) && final(self).proof_c@ == old(self).proof_c@ && final(self).raw@ == old(
                self,
            ).raw@,
    {
        let x = fq_from_natural(&x_int);
        let y = fq_from_natural(&y_int);
        proof {
            lemma_pow256_32();
            lemma_le_value_of_le_bytes32(fq(x_int@));
            lemma_le_value_of_le_bytes32(fq(y_int@));
        }
        if !g1_is_valid(&x, &y) {
            return Err(ConversionError::PointNotOnCurveError);
        }
        self.proof_c = limbs_to_be(&x, &y);
        proof {
            lemma_reverse_le_bytes(fq(x_int@), 32);
            lemma_reverse_le_bytes(fq(y_int@), 32);
        }
        write_at(&mut self.raw, 192, &self.proof_c);
        Ok(())
    }
}

impl Default for PreparedProof {
    fn default() -> (prepared: PreparedProof)
        ensures
            prepared.wf(),
            prepared.proof_a@ == Seq::<u8>::empty(),
            prepared.proof_b@ == Seq::<u8>::empty(),
            prepared.proof_c@ == Seq::<u8>::empty(),
            prepared.raw@ == Seq::new(256, |i: int| 0u8),
    {
        PreparedProof::new()
    }
}

/// The number that entry `i` of `list` spells.
pub open spec fn coordinate(list: Seq<String>, i: int) -> Result<nat, ConversionError> {
    if i >= list.len() {
        Err(ConversionError::MissingCoordinateError)
    } else if !is_decimal(list[i]@) {
        Err(ConversionError::ParseCoordinateError)
    } else {
        Ok(decimal_value(list[i]@))
    }
}

/// The point of G1 that the first two entries of `list` name.
pub open spec fn g1_point(list: Seq<String>) -> Result<(nat, nat), ConversionError> {
    match (coordinate(list, 0), coordinate(list, 1)) {
        (Err(e), _) => Err(e),
        (Ok(_), Err(e)) => Err(e),
        (Ok(x), Ok(y)) => if g1_on_curve(fq(x), fq(y)) {
            Ok((x, y))
        } else {
            Err(ConversionError::PointNotOnCurveError)
        },
    }
}

/// Entry `j` of row `i` of `rows`.
pub open spec fn coordinate_in(rows: Seq<Vec<String>>, i: int, j: int) -> Result<
    nat,
    ConversionError,
> {
    if i >= rows.len() {
        Err(ConversionError::MissingCoordinateError)
    } else {
        coordinate(rows[i]@, j)
    }
}

/// The point of G2 that the first two entries of the first two rows name.
pub open spec fn g2_point(rows: Seq<Vec<String>>) -> Result<(nat, nat, nat, nat), ConversionError> {
    match (
        coordinate_in(rows, 0, 0),
        coordinate_in(rows, 0, 1),
        coordinate_in(rows, 1, 0),
        coordinate_in(rows, 1, 1),
    ) {
        (Err(e), _, _, _) => Err(e),
        (Ok(_), Err(e), _, _) => Err(e),
        (Ok(_), Ok(_), Err(e), _) => Err(e),
        (Ok(_), Ok(_), Ok(_), Err(e)) => Err(e),
        (Ok(x0), Ok(y0), Ok(x1), Ok(y1)) => if g2_in_group(fq(x0), fq(y0), fq(x1), fq(y1)) {
            Ok((x0, y0, x1, y1))
        } else {
            Err(ConversionError::PointNotOnCurveError)
        },
    }
}

/// The three parts of the prepared proof of `raw`: the first point negated,
/// the second, the third. The first point is looked at first, then the third,
/// then the second, and the first fault found is the one reported.
pub open spec fn prepared_parts(raw: RawProof) -> Result<
    (Seq<u8>, Seq<u8>, Seq<u8>),
    ConversionError,
> {
    match g1_point(raw.pi_a@) {
        Err(e) => Err(e),
        Ok(a) => match g1_point(raw.pi_c@) {
            Err(e) => Err(e),
            Ok(c) => match g2_point(raw.pi_b@) {
                Err(e) => Err(e),
                Ok(b) => Ok(
                    (
                        g1_negated_bytes(a.0, a.1),
                        g2_bytes(b.0, b.1, b.2, b.3),
                        g1_bytes(c.0, c.1),
                    ),
                ),
            },
        },
    }
}

/// The limb of 32 bytes that begins at `at` in `bytes`, read as a number with
/// the most significant byte first.
pub open spec fn limb_value(bytes: Seq<u8>, at: int) -> nat {
    be_value(bytes.subrange(at, at + 32))
}

/// A limb that holds an element of the field reads back as that element.
proof fn lemma_limb_reads_back(value: nat)
    ensures
        be_value(be_bytes(fq(value), 32)) == fq(value),
        be_value(be_bytes(fq_neg(value), 32)) == fq_neg(value),
{
    lemma_pow256_32();
    lemma_be_value_of_be_bytes(fq(value), 32);
    lemma_be_value_of_be_bytes(fq_neg(value), 32);
    lemma_small_mod(fq(value), pow256(32));
    lemma_small_mod(fq_neg(value), pow256(32));
}

/// The layout of a prepared proof: 256 bytes in eight limbs of 32 bytes, each
/// of which reads back, most significant byte first, as one coordinate of the
/// raw proof reduced to the field. The first two limbs are the first point
/// with `y` negated; the next four are the second point, in each coordinate
/// the part at `u` first; the last two are the third point.
pub proof fn lemma_prepared_layout(raw: RawProof)
    requires
        prepared_parts(raw) is Ok,
    ensures
        ({
            let parts = prepared_parts(raw)->Ok_0;
            let a = g1_point(raw.pi_a@)->Ok_0;
            let b = g2_point(raw.pi_b@)->Ok_0;
            let c = g1_point(raw.pi_c@)->Ok_0;
            let bytes = parts.0 + parts.1 + parts.2;
            &&& parts.0.len() == 64
            &&& parts.1.len() == 128
            &&& parts.2.len() == 64
            &&& bytes.len() == 256
            &&& limb_value(bytes, 0) == fq(a.0)
            &&& limb_value(bytes, 32) == fq_neg(a.1)
            &&& limb_value(bytes, 64) == fq(b.1)
            &&& limb_value(bytes, 96) == fq(b.0)
            &&& limb_value(bytes, 128) == fq(b.3)
            &&& limb_value(bytes, 160) == fq(b.2)
            &&& limb_value(bytes, 192) == fq(c.0)
            &&& limb_value(bytes, 224) == fq(c.1)
        }),
{
    let parts = prepared_parts(raw)->Ok_0;
    let a = g1_point(raw.pi_a@)->Ok_0;
    let b = g2_point(raw.pi_b@)->Ok_0;
    let c = g1_point(raw.pi_c@)->Ok_0;
    let bytes = parts.0 + parts.1 + parts.2;
    assert(bytes.subrange(0, 32) =~= be_bytes(fq(a.0), 32));
    assert(bytes.subrange(32, 64) =~= be_bytes(fq_neg(a.1), 32));
    assert(bytes.subrange(64, 96) =~= be_bytes(fq(b.1), 32));
    assert(bytes.subrange(96, 128) =~= be_bytes(fq(b.0), 32));
    assert(bytes.subrange(128, 160) =~= be_bytes(fq(b.3), 32));
    assert(bytes.subrange(160, 192) =~= be_bytes(fq(b.2), 32));
    assert(bytes.subrange(192, 224) =~= be_bytes(fq(c.0), 32));
    assert(bytes.subrange(224, 256) =~= be_bytes(fq(c.1), 32));
    lemma_limb_reads_back(a.0);
    lemma_limb_reads_back(a.1);
    lemma_limb_reads_back(b.0);
    lemma_limb_reads_back(b.1);
    lemma_limb_reads_back(b.2);
    lemma_limb_reads_back(b.3);
    lemma_limb_reads_back(c.0);
    lemma_limb_reads_back(c.1);
}

/// Reads entry `i` of `list` as a decimal number.
fn parse_coordinate(list: &Vec<String>, i: usize) -> (number: Result<Natural, ConversionError>)
    ensures
        match coordinate(list@, i as int) {
            Ok(value) => number matches Ok(n) && n@ == value,
            Err(e) => number matches Err(err) && err == e,
        },
{
    if i >= list.len() {
        return Err(ConversionError::MissingCoordinateError);
    }
    match natural_from_decimal(list[i].as_str()) {
        Some(number) => Ok(number),
        None => Err(ConversionError::ParseCoordinateError),
    }
}

/// Reads entry `j` of row `i` of `rows` as a decimal number.
fn parse_coordinate_in(rows: &Vec<Vec<String>>, i: usize, j: usize) -> (number: Result<
    Natural,
    ConversionError,
>)
    ensures
        match coordinate_in(rows@, i as int, j as int) {
            Ok(value) => number matches Ok(n) && n@ == value,
            Err(e) => number matches Err(err) && err == e,
        },
{
    if i >= rows.len() {
        return Err(ConversionError::MissingCoordinateError);
    }
    parse_coordinate(&rows[i], j)
}

/// Converts a proof as snarkjs writes it into the 256 bytes that the pairing
/// check of the ledger takes: the first point negated, each coordinate 32
/// bytes with the most significant first, and in the second point the part
/// at `u` before the other. A coordinate that is missing or no decimal
/// number, or a point outside its group, fails the conversion.
pub fn prepare_proofs(raw_proof: &RawProof) -> (result: Result<PreparedProof, ConversionError>)
    ensures
        match prepared_parts(*raw_proof) {
            Ok(parts) => result matches Ok(prepared) && prepared.wf() && prepared.proof_a@ == parts.0
                && prepared.proof_b@ == parts.1 && prepared.proof_c@ == parts.2 && prepared.raw@
                == parts.0 + parts.1 + parts.2,
            Err(e) => result matches Err(err) && err == e,
        },
{
    let mut prepared_proof = PreparedProof::new();

    let pi_a_x = parse_coordinate(&raw_proof.pi_a, 0)?;
    let pi_a_y = parse_coordinate(&raw_proof.pi_a, 1)?;
    prepared_proof.set_proof_a(pi_a_x, pi_a_y)?;

    let pi_c_x = parse_coordinate(&raw_proof.pi_c, 0)?;
    let pi_c_y = parse_coordinate(&raw_proof.pi_c, 1)?;
    prepared_proof.set_proof_c(pi_c_x, pi_c_y)?;

    let pi_b_x0 = parse_coordinate_in(&raw_proof.pi_b, 0, 0)?;
    let pi_b_y0 = parse_coordinate_in(&raw_proof.pi_b, 0, 1)?;
    let pi_b_x1 = parse_coordinate_in(&raw_proof.pi_b, 1, 0)?;
    let pi_b_y1 = parse_coordinate_in(&raw_proof.pi_b, 1, 1)?;
    prepared_proof.set_proof_b(pi_b_x0, pi_b_y0, pi_b_x1, pi_b_y1)?;

    proof {
        let parts = prepared_parts(*raw_proof)->Ok_0;
        assert(prepared_proof.raw@ =~= parts.0 + parts.1 + parts.2);
    }
    Ok(prepared_proof)
}

/// Appends the bytes of `from` between `start` and `end` to `to`.
fn append_range(to: &mut Vec<u8>, from: &Vec<u8>, start: usize, end: usize)
    requires
        start <= end <= from@.len(),
    ensures
        final(to)@ == old(to)@ + from@.subrange(start as int, end as int),
{
    let mut i: usize = start;
    while i < end
        invariant
            start <= i <= end,
            end <= from@.len(),
            to@ == old(to)@ + from@.subrange(start as int, i as int),
        decreases end - i,
    {
        to.push(from[i]);
        assert(to@ =~= old(to)@ + from@.subrange(start as int, i + 1));
        i += 1;
    }
}

} // verus!
