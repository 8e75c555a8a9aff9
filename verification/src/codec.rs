//! The storage backend's binary record format: a surrogate key packed as
//! eight big-endian bytes, and a full-width row packed cell by cell — a
//! tag byte per cell, and for textual payloads a big-endian length followed
//! by the UTF-8 bytes. Packing and unpacking invert each other, so a
//! committed record decodes to exactly the row that was validated.

use vstd::prelude::*;
use vstd::slice::slice_subrange;
use vstd::slice::slice_to_vec;
use vstd::string::StringSliceAdditionalSpecFns;
use vstd::string::StrSliceExecFns;
use vstd::utf8::decode_utf8;
use vstd::utf8::encode_utf8;
use vstd::utf8::encode_utf8_decode_utf8;
use vstd::utf8::encode_utf8_valid_utf8;
use vstd::utf8::valid_utf8;
use crate::values::ScalarValue;
use crate::values::SpecScalar;

verus! {

/// One record ready for the backend: the surrogate key as eight big-endian
/// bytes, and the packed binary form of one full-width row. Ownership
/// passes to storage on commit.
#[derive(Debug, PartialEq)]
pub struct EncodedRecord {
    pub key: Vec<u8>,
    pub value: Vec<u8>,
}

/// Mathematical model of an [`EncodedRecord`].
pub struct SpecRecord {
    pub key: Seq<u8>,
    pub value: Seq<u8>,
}

impl View for EncodedRecord {
    type V = SpecRecord;

    open spec fn view(&self) -> SpecRecord {
        SpecRecord { key: self.key@, value: self.value@ }
    }
}

impl DeepView for EncodedRecord {
    type V = SpecRecord;

    open spec fn deep_view(&self) -> SpecRecord {
        self.view()
    }
}

/// The eight big-endian bytes of a 64-bit integer.
pub open spec fn spec_u64_be(x: u64) -> Seq<u8> {
    seq![
        (x >> 56) as u8,
        (x >> 48) as u8,
        (x >> 40) as u8,
        (x >> 32) as u8,
        (x >> 24) as u8,
        (x >> 16) as u8,
        (x >> 8) as u8,
        x as u8,
    ]
}

/// The 64-bit integer read from eight big-endian bytes.
pub open spec fn spec_u64_from_be(b: Seq<u8>) -> u64
    recommends
        b.len() == 8,
{
    ((b[0] as u64) << 56 | (b[1] as u64) << 48 | (b[2] as u64) << 40 | (b[3] as u64) << 32 | (
    b[4] as u64) << 24 | (b[5] as u64) << 16 | (b[6] as u64) << 8 | (b[7] as u64))
}

pub proof fn lemma_u64_be_round_trip(x: u64)
    ensures
        spec_u64_from_be(spec_u64_be(x)) == x,
{
    assert(((x >> 56) as u8 as u64) << 56 | ((x >> 48) as u8 as u64) << 48 | ((x >> 40) as u8
        as u64) << 40 | ((x >> 32) as u8 as u64) << 32 | ((x >> 24) as u8 as u64) << 24 | ((x
        >> 16) as u8 as u64) << 16 | ((x >> 8) as u8 as u64) << 8 | (x as u8 as u64) == x)
        by (bit_vector);
}

/// Packs a 64-bit integer as eight big-endian bytes; the form in which a
/// surrogate key goes to storage.
pub fn u64_to_be_bytes(x: u64) -> (r: Vec<u8>)
    ensures
        r@ == spec_u64_be(x),
        r@.len() == 8,
{
    let mut v: Vec<u8> = Vec::new();
    v.push((x >> 56) as u8);
    v.push((x >> 48) as u8);
    v.push((x >> 40) as u8);
    v.push((x >> 32) as u8);
    v.push((x >> 24) as u8);
    v.push((x >> 16) as u8);
    v.push((x >> 8) as u8);
    v.push(x as u8);
    proof {
        assert(v@ =~= spec_u64_be(x));
    }
    v
}

/// Reads the eight big-endian bytes at `pos` back into a 64-bit integer.
pub fn read_u64_be(bytes: &Vec<u8>, pos: usize) -> (r: u64)
    requires
        pos + 8 <= bytes@.len(),
    ensures
        r == spec_u64_from_be(bytes@.subrange(pos as int, pos + 8)),
{
    let total = bytes.len();
    proof {
        assert(total == bytes@.len());
    }
    let r = (bytes[pos] as u64) << 56 | (bytes[pos + 1] as u64) << 48 | (bytes[pos + 2] as u64)
        << 40 | (bytes[pos + 3] as u64) << 32 | (bytes[pos + 4] as u64) << 24 | (bytes[pos + 5]
        as u64) << 16 | (bytes[pos + 6] as u64) << 8 | (bytes[pos + 7] as u64);
    proof {
        let s = bytes@.subrange(pos as int, pos + 8);
        assert(s[0] == bytes@[pos as int]);
        assert(s[1] == bytes@[pos + 1]);
        assert(s[2] == bytes@[pos + 2]);
        assert(s[3] == bytes@[pos + 3]);
        assert(s[4] == bytes@[pos + 4]);
        assert(s[5] == bytes@[pos + 5]);
        assert(s[6] == bytes@[pos + 6]);
        assert(s[7] == bytes@[pos + 7]);
    }
    r
}

/// The packed form of one cell: a tag byte — null, false, true, number,
/// text — and, for number and text, the big-endian byte length of the
/// UTF-8 payload followed by the payload itself.
pub open spec fn spec_pack_cell(c: Option<SpecScalar>) -> Seq<u8> {
    match c {
        None => seq![0u8],
        Some(SpecScalar::Bool(b)) => if b {
            seq![2u8]
        } else {
            seq![1u8]
        },
        Some(SpecScalar::Number(s)) => seq![3u8] + spec_u64_be(encode_utf8(s).len() as u64)
            + encode_utf8(s),
        Some(SpecScalar::Text(s)) => seq![4u8] + spec_u64_be(encode_utf8(s).len() as u64)
            + encode_utf8(s),
    }
}

pub open spec fn spec_pack_cells(row: Seq<Option<SpecScalar>>) -> Seq<u8>
    decreases row.len(),
{
    if row.len() == 0 {
        Seq::empty()
    } else {
        spec_pack_cell(row.first()) + spec_pack_cells(row.drop_first())
    }
}

/// The packed form of one full-width row: the cell count as eight
/// big-endian bytes, then every cell in table column order.
pub open spec fn spec_pack_row(row: Seq<Option<SpecScalar>>) -> Seq<u8> {
    spec_u64_be(row.len() as u64) + spec_pack_cells(row)
}

pub proof fn lemma_pack_cells_push(row: Seq<Option<SpecScalar>>, c: Option<SpecScalar>)
    ensures
        spec_pack_cells(row.push(c)) == spec_pack_cells(row) + spec_pack_cell(c),
    decreases row.len(),
{
    if row.len() == 0 {
        let pushed = row.push(c);
        assert(pushed.len() == 1);
        assert(pushed.first() == c);
        assert(pushed.drop_first() =~= Seq::<Option<SpecScalar>>::empty());
        assert(spec_pack_cells(pushed) == spec_pack_cell(c) + spec_pack_cells(
            pushed.drop_first(),
        ));
        assert(spec_pack_cells(pushed.drop_first()) == Seq::<u8>::empty());
        assert(spec_pack_cells(row) == Seq::<u8>::empty());
        assert(spec_pack_cells(pushed) =~= spec_pack_cells(row) + spec_pack_cell(c));
    } else {
        assert(row.push(c).drop_first() =~= row.drop_first().push(c));
        assert(row.push(c).first() == row.first());
        lemma_pack_cells_push(row.drop_first(), c);
        assert(spec_pack_cells(row.push(c)) =~= spec_pack_cells(row) + spec_pack_cell(c));
    }
}

/// Packs one cell (see [`spec_pack_cell`]).
pub fn pack_cell(c: &Option<ScalarValue>) -> (r: Vec<u8>)
    ensures
        r@ == spec_pack_cell(c.deep_view()),
{
    match c {
        None => {
            let mut out: Vec<u8> = Vec::new();
            out.push(0u8);
            proof {
                assert(out@ =~= spec_pack_cell(c.deep_view()));
            }
            out
        },
        Some(ScalarValue::Bool(b)) => {
            let mut out: Vec<u8> = Vec::new();
            if *b {
                out.push(2u8);
            } else {
                out.push(1u8);
            }
            proof {
                assert(out@ =~= spec_pack_cell(c.deep_view()));
            }
            out
        },
        Some(ScalarValue::Number(s)) => {
            let mut out: Vec<u8> = Vec::new();
            out.push(3u8);
            let mut payload = s.as_str().as_bytes_vec();
            let mut lenb = u64_to_be_bytes(payload.len() as u64);
            out.append(&mut lenb);
            out.append(&mut payload);
            proof {
                assert(out@ =~= spec_pack_cell(c.deep_view()));
            }
            out
        },
        Some(ScalarValue::Text(s)) => {
            let mut out: Vec<u8> = Vec::new();
            out.push(4u8);
            let mut payload = s.as_str().as_bytes_vec();
            let mut lenb = u64_to_be_bytes(payload.len() as u64);
            out.append(&mut lenb);
            out.append(&mut payload);
            proof {
                assert(out@ =~= spec_pack_cell(c.deep_view()));
            }
            out
        },
    }
}

/// Packs one full-width row into the backend's record format (see
/// [`spec_pack_row`]).
pub fn pack_row(row: &Vec<Option<ScalarValue>>) -> (r: Vec<u8>)
    ensures
        r@ == spec_pack_row(row.deep_view()),
{
    let ghost rowd = row.deep_view();
    let mut out = u64_to_be_bytes(row.len() as u64);
    proof {
        assert(rowd.len() == row@.len());
        assert(rowd.take(0) =~= Seq::<Option<SpecScalar>>::empty());
        assert(out@ =~= spec_u64_be(rowd.len() as u64) + spec_pack_cells(rowd.take(0)));
    }
    let mut i: usize = 0;
    while i < row.len()
        invariant
            rowd == row.deep_view(),
            i <= row@.len(),
            rowd.len() == row@.len(),
            out@ == spec_u64_be(rowd.len() as u64) + spec_pack_cells(rowd.take(i as int)),
        decreases row@.len() - i,
    {
        let mut cb = pack_cell(&row[i]);
        proof {
            assert(row@[i as int].deep_view() == rowd[i as int]);
            lemma_pack_cells_push(rowd.take(i as int), rowd[i as int]);
            assert(rowd.take(i + 1int) =~= rowd.take(i as int).push(rowd[i as int]));
        }
        out.append(&mut cb);
        proof {
            assert(out@ =~= spec_u64_be(rowd.len() as u64) + spec_pack_cells(
                rowd.take(i + 1int),
            ));
        }
        i = i + 1;
    }
    proof {
        assert(rowd.take(rowd.len() as int) =~= rowd);
    }
    out
}

/// One cell read back from the front of the bytes: the cell and what
/// remains, or nothing where the bytes are not a packed cell.
pub open spec fn spec_unpack_cell(bytes: Seq<u8>) -> Option<(Option<SpecScalar>, Seq<u8>)> {
    if bytes.len() == 0 {
        None
    } else if bytes[0] == 0u8 {
        Some((None, bytes.drop_first()))
    } else if bytes[0] == 1u8 {
        Some((Some(SpecScalar::Bool(false)), bytes.drop_first()))
    } else if bytes[0] == 2u8 {
        Some((Some(SpecScalar::Bool(true)), bytes.drop_first()))
    } else if bytes[0] == 3u8 || bytes[0] == 4u8 {
        if bytes.len() >= 9 {
            let l = spec_u64_from_be(bytes.subrange(1, 9)) as int;
            if bytes.len() >= 9 + l {
                let payload = bytes.subrange(9, 9 + l);
                if valid_utf8(payload) {
                    let s = decode_utf8(payload);
                    if bytes[0] == 3u8 {
                        Some((Some(SpecScalar::Number(s)), bytes.skip(9 + l)))
                    } else {
                        Some((Some(SpecScalar::Text(s)), bytes.skip(9 + l)))
                    }
                } else {
                    None
                }
            } else {
                None
            }
        } else {
            None
        }
    } else {
        None
    }
}

/// `n` cells read back from the front of the bytes, with what remains.
pub open spec fn spec_unpack_cells(bytes: Seq<u8>, n: nat) -> Option<
    (Seq<Option<SpecScalar>>, Seq<u8>),
>
    decreases n,
{
    if n == 0 {
        Some((Seq::empty(), bytes))
    } else {
        match spec_unpack_cell(bytes) {
            None => None,
            Some(p) => match spec_unpack_cells(p.1, (n - 1) as nat) {
                None => None,
                Some(q) => Some((seq![p.0] + q.0, q.1)),
            },
        }
    }
}

/// The full-width row read back from a packed record value: the cell
/// count, then exactly that many cells, consuming the bytes exactly.
pub open spec fn spec_unpack_row(bytes: Seq<u8>) -> Option<Seq<Option<SpecScalar>>> {
    if bytes.len() >= 8 {
        let n = spec_u64_from_be(bytes.take(8));
        match spec_unpack_cells(bytes.skip(8), n as nat) {
            None => None,
            Some(p) => if p.1.len() == 0 {
                Some(p.0)
            } else {
                None
            },
        }
    } else {
        None
    }
}

/// Whether a row fits the record format's length fields: the cell count
/// and every textual payload's byte length stay below 2^64. Every row a
/// machine can hold does.
pub open spec fn spec_row_fits(row: Seq<Option<SpecScalar>>) -> bool {
    &&& row.len() < 18446744073709551616
    &&& forall|i: int| 0 <= i < row.len() ==> match #[trigger] row[i] {
        Some(SpecScalar::Number(s)) => encode_utf8(s).len() < 18446744073709551616,
        Some(SpecScalar::Text(s)) => encode_utf8(s).len() < 18446744073709551616,
        _ => true,
    }
}

pub proof fn lemma_cell_round_trip(c: Option<SpecScalar>, rest: Seq<u8>)
    requires
        match c {
            Some(SpecScalar::Number(s)) => encode_utf8(s).len() < 18446744073709551616,
            Some(SpecScalar::Text(s)) => encode_utf8(s).len() < 18446744073709551616,
            _ => true,
        },
    ensures
        spec_unpack_cell(spec_pack_cell(c) + rest) == Some((c, rest)),
{
    let bytes = spec_pack_cell(c) + rest;
    match c {
        None => {
            assert(bytes[0] == 0u8);
            assert(bytes.drop_first() =~= rest);
        },
        Some(SpecScalar::Bool(b)) => {
            assert(bytes.drop_first() =~= rest);
        },
        Some(SpecScalar::Number(s)) => {
            lemma_text_cell_round_trip(3u8, s, rest);
        },
        Some(SpecScalar::Text(s)) => {
            lemma_text_cell_round_trip(4u8, s, rest);
        },
    }
}

proof fn lemma_text_cell_round_trip(tag: u8, s: Seq<char>, rest: Seq<u8>)
    requires
        tag == 3u8 || tag == 4u8,
        encode_utf8(s).len() < 18446744073709551616,
    ensures
        spec_unpack_cell((seq![tag] + spec_u64_be(encode_utf8(s).len() as u64) + encode_utf8(s))
            + rest) == Some(
            (
                Some(
                    if tag == 3u8 {
                        SpecScalar::Number(s)
                    } else {
                        SpecScalar::Text(s)
                    },
                ),
                rest,
            ),
        ),
{
    let payload = encode_utf8(s);
    let n = payload.len() as u64;
    let bytes = (seq![tag] + spec_u64_be(n) + payload) + rest;
    assert(bytes[0] == tag);
    assert(bytes.len() == 9 + payload.len() + rest.len());
    assert(bytes.subrange(1, 9) =~= spec_u64_be(n));
    lemma_u64_be_round_trip(n);
    let l = spec_u64_from_be(bytes.subrange(1, 9)) as int;
    assert(l == payload.len());
    assert(bytes.subrange(9, 9 + l) =~= payload);
    encode_utf8_valid_utf8(s);
    encode_utf8_decode_utf8(s);
    assert(bytes.skip(9 + l) =~= rest);
}

pub proof fn lemma_cells_round_trip(row: Seq<Option<SpecScalar>>, rest: Seq<u8>)
    requires
        forall|i: int| 0 <= i < row.len() ==> match #[trigger] row[i] {
            Some(SpecScalar::Number(s)) => encode_utf8(s).len() < 18446744073709551616,
            Some(SpecScalar::Text(s)) => encode_utf8(s).len() < 18446744073709551616,
            _ => true,
        },
    ensures
        spec_unpack_cells(spec_pack_cells(row) + rest, row.len()) == Some((row, rest)),
    decreases row.len(),
{
    if row.len() == 0 {
        assert(spec_pack_cells(row) + rest =~= rest);
        assert(spec_unpack_cells(rest, 0) == Some((Seq::<Option<SpecScalar>>::empty(), rest)));
        assert(row =~= Seq::<Option<SpecScalar>>::empty());
    } else {
        let first = row.first();
        let tail = row.drop_first();
        assert(spec_pack_cells(row) + rest =~= spec_pack_cell(first) + (spec_pack_cells(tail)
            + rest));
        lemma_cell_round_trip(first, spec_pack_cells(tail) + rest);
        assert(forall|i: int| 0 <= i < tail.len() ==> tail[i] == row[i + 1]);
        lemma_cells_round_trip(tail, rest);
        assert(seq![first] + tail =~= row);
    }
}

/// Packing then unpacking a row gives the row back: what storage keeps
/// decodes to exactly the validated scalars, in table column order.
pub proof fn lemma_record_round_trip(row: Seq<Option<SpecScalar>>)
    requires
        spec_row_fits(row),
    ensures
        spec_unpack_row(spec_pack_row(row)) == Some(row),
{
    let n = row.len() as u64;
    let bytes = spec_pack_row(row);
    assert(bytes.len() >= 8);
    assert(bytes.take(8) =~= spec_u64_be(n));
    lemma_u64_be_round_trip(n);
    assert(bytes.skip(8) =~= spec_pack_cells(row) + Seq::<u8>::empty());
    lemma_cells_round_trip(row, Seq::<u8>::empty());
}

/// Declares the standard library's UTF-8 decoding error type so that the
/// decoder below can speak of it.
#[verifier::external_type_specification]
#[verifier::external_body]
pub struct ExFromUtf8Error(std::string::FromUtf8Error);

/// Relies on String::from_utf8: it accepts exactly the byte sequences that
/// are valid UTF-8, and the string it returns holds those very bytes.
pub assume_specification[ String::from_utf8 ](v: Vec<u8>) -> (r: Result<
    String,
    std::string::FromUtf8Error,
>)
    ensures
        r is Ok <==> valid_utf8(v@),
        r matches Ok(s) ==> encode_utf8(s@) == v@,
;

/// Unpacks a record value back into a full-width row (see
/// [`spec_unpack_row`]); `None` where the bytes are not a packed row.
pub fn unpack_row(bytes: &Vec<u8>) -> (r: Option<Vec<Option<ScalarValue>>>)
    ensures
        match r {
            Some(row) => spec_unpack_row(bytes@) == Some(row.deep_view()),
            None => spec_unpack_row(bytes@) is None,
        },
{
    let ghost bytesd = bytes@;
    if bytes.len() < 8 {
        return None;
    }
    let n = read_u64_be(bytes, 0);
    proof {
        assert(bytesd.subrange(0, 8) =~= bytesd.take(8));
    }
    let mut out: Vec<Option<ScalarValue>> = Vec::new();
    let mut pos: usize = 8;
    let mut k: u64 = 0;
    proof {
        assert(out.deep_view() =~= Seq::<Option<SpecScalar>>::empty());
        match spec_unpack_cells(bytesd.skip(8), n as nat) {
            Some(p) => {
                assert(out.deep_view() + p.0 =~= p.0);
            },
            None => {},
        }
    }
    while k < n
        invariant
            bytesd == bytes@,
            bytesd.len() >= 8,
            n == spec_u64_from_be(bytesd.take(8)),
            8 <= pos <= bytes@.len(),
            k <= n,
            match spec_unpack_cells(bytesd.skip(pos as int), (n - k) as nat) {
                Some(p) => spec_unpack_cells(bytesd.skip(8), n as nat) == Some(
                    (out.deep_view() + p.0, p.1),
                ),
                None => spec_unpack_cells(bytesd.skip(8), n as nat) is None,
            },
        decreases n - k,
    {
        let ghost cur = bytesd.skip(pos as int);
        let ghost remaining = (n - k) as nat;
        proof {
            assert(remaining > 0);
        }
        if pos == bytes.len() {
            proof {
                assert(cur.len() == 0);
                assert(spec_unpack_cell(cur) is None);
            }
            return None;
        }
        let tag = bytes[pos];
        proof {
            assert(cur[0] == tag);
        }
        let ghost out_pre = out.deep_view();
        let cell: Option<ScalarValue>;
        let newpos: usize;
        if tag == 0u8 {
            cell = None;
            newpos = pos + 1;
            proof {
                assert(cur.drop_first() =~= bytesd.skip(newpos as int));
                assert(spec_unpack_cell(cur) == Some(
                    (None::<SpecScalar>, bytesd.skip(newpos as int)),
                ));
            }
        } else if tag == 1u8 || tag == 2u8 {
            cell = Some(ScalarValue::Bool(tag == 2u8));
            newpos = pos + 1;
            proof {
                assert(cur.drop_first() =~= bytesd.skip(newpos as int));
            }
        } else if tag == 3u8 || tag == 4u8 {
            if bytes.len() - pos < 9 {
                proof {
                    assert(cur.len() < 9);
                    assert(spec_unpack_cell(cur) is None);
                }
                return None;
            }
            let len64 = read_u64_be(bytes, pos + 1);
            proof {
                assert(bytesd.subrange(pos + 1, pos + 9) =~= cur.subrange(1, 9));
            }
            let avail = bytes.len() - (pos + 9);
            if len64 > avail as u64 {
                proof {
                    assert(cur.len() < 9 + len64);
                    assert(spec_unpack_cell(cur) is None);
                }
                return None;
            }
            let len = len64 as usize;
            let payload_slice = slice_subrange(bytes.as_slice(), pos + 9, pos + 9 + len);
            let payload = slice_to_vec(payload_slice);
            proof {
                assert(payload@ =~= cur.subrange(9, 9 + len64 as int));
            }
            match String::from_utf8(payload) {
                Err(e) => {
                    proof {
                        assert(!valid_utf8(cur.subrange(9, 9 + len64 as int)));
                        assert(spec_unpack_cell(cur) is None);
                    }
                    return None;
                },
                Ok(s) => {
                    proof {
                        encode_utf8_decode_utf8(s@);
                        assert(decode_utf8(cur.subrange(9, 9 + len64 as int)) == s@);
                    }
                    if tag == 3u8 {
                        cell = Some(ScalarValue::Number(s));
                    } else {
                        cell = Some(ScalarValue::Text(s));
                    }
                    newpos = pos + 9 + len;
                    proof {
                        assert(cur.skip(9 + len64 as int) =~= bytesd.skip(newpos as int));
                    }
                },
            }
        } else {
            proof {
                assert(spec_unpack_cell(cur) is None);
            }
            return None;
        }
        out.push(cell);
        proof {
            assert(spec_unpack_cell(cur) == Some(
                (out.deep_view().last(), bytesd.skip(newpos as int)),
            ));
            assert(out.deep_view() =~= out_pre.push(out.deep_view().last()));
            match spec_unpack_cells(bytesd.skip(newpos as int), (remaining - 1) as nat) {
                Some(q) => {
                    assert(spec_unpack_cells(cur, remaining) == Some(
                        (seq![out.deep_view().last()] + q.0, q.1),
                    ));
                    assert(out_pre + (seq![out.deep_view().last()] + q.0) =~= out.deep_view()
                        + q.0);
                },
                None => {
                    assert(spec_unpack_cells(cur, remaining) is None);
                },
            }
        }
        pos = newpos;
        k = k + 1;
    }
    proof {
        let fin = bytesd.skip(pos as int);
        assert(spec_unpack_cells(fin, 0) == Some((Seq::<Option<SpecScalar>>::empty(), fin)));
        assert(out.deep_view() + Seq::<Option<SpecScalar>>::empty() =~= out.deep_view());
        assert(spec_unpack_cells(bytesd.skip(8), n as nat) == Some((out.deep_view(), fin)));
    }
    if pos == bytes.len() {
        proof {
            assert(bytesd.skip(pos as int).len() == 0);
        }
        Some(out)
    } else {
        proof {
            assert(bytesd.skip(pos as int).len() > 0);
        }
        None
    }
}

/// Encodes one validated row under its surrogate key: the key as eight
/// big-endian bytes, the row in the backend's record format.
pub fn encode_record(key: u64, row: &Vec<Option<ScalarValue>>) -> (r: EncodedRecord)
    ensures
        r.key@ == spec_u64_be(key),
        r.value@ == spec_pack_row(row.deep_view()),
{
    EncodedRecord { key: u64_to_be_bytes(key), value: pack_row(row) }
}

/// Encodes a whole prepared batch, row i under key i, keeping statement
/// order. The caller supplies one fresh surrogate key per validated row.
pub fn encode_rows(rows: &Vec<Vec<Option<ScalarValue>>>, keys: &Vec<u64>) -> (r: Vec<
    EncodedRecord,
>)
    requires
        keys@.len() == rows@.len(),
    ensures
        r@.len() == rows@.len(),
        forall|i: int|
            0 <= i < r@.len() ==> (#[trigger] r@[i]).key@ == spec_u64_be(keys@[i])
                && r@[i].value@ == spec_pack_row(rows.deep_view()[i]),
{
    let mut out: Vec<EncodedRecord> = Vec::new();
    let mut i: usize = 0;
    while i < rows.len()
        invariant
            keys@.len() == rows@.len(),
            i <= rows@.len(),
            out@.len() == i,
            forall|j: int|
                0 <= j < i ==> (#[trigger] out@[j]).key@ == spec_u64_be(keys@[j])
                    && out@[j].value@ == spec_pack_row(rows.deep_view()[j]),
        decreases rows@.len() - i,
    {
        let rec = encode_record(keys[i], &rows[i]);
        proof {
            assert(rows@[i as int].deep_view() == rows.deep_view()[i as int]);
        }
        out.push(rec);
        i = i + 1;
    }
    out
}

} // verus!
