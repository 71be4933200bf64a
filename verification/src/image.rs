//! The packed multi-app image format.
//!
//! An image starts with a fixed-width big-endian app count, followed by that
//! many records; each record is a fixed-width big-endian length field and
//! then that many payload bytes.  The same field width applies to the count
//! and to every length field.
use vstd::prelude::*;

use crate::LoaderError;

verus! {

/// One more than the largest value a big-endian field of `w` bytes can hold,
/// that is `256^w`.
pub open spec fn field_limit(w: nat) -> int
    decreases w,
{
    if w == 0 {
        1
    } else {
        256 * field_limit((w - 1) as nat)
    }
}

/// The value of `s` read as a big-endian integer: the first byte is the most
/// significant.
pub open spec fn be_val(s: Seq<u8>) -> int
    decreases s.len(),
{
    if s.len() == 0 {
        0
    } else {
        be_val(s.drop_last()) * 256 + s.last()
    }
}

pub proof fn lemma_field_limit_pos(w: nat)
    ensures
        field_limit(w) >= 1,
    decreases w,
{
    if w > 0 {
        lemma_field_limit_pos((w - 1) as nat);
    }
}

pub proof fn lemma_field_limit_mono(a: nat, b: nat)
    requires
        a <= b,
    ensures
        field_limit(a) <= field_limit(b),
    decreases b,
{
    if a < b {
        lemma_field_limit_mono(a, (b - 1) as nat);
        lemma_field_limit_pos((b - 1) as nat);
    }
}

/// A big-endian field of `w` bytes holds a value below `256^w`.
pub proof fn lemma_be_val_bound(s: Seq<u8>)
    ensures
        0 <= be_val(s) < field_limit(s.len()),
    decreases s.len(),
{
    if s.len() > 0 {
        lemma_be_val_bound(s.drop_last());
        let prefix = be_val(s.drop_last());
        let limit = field_limit((s.len() - 1) as nat);
        assert(prefix * 256 + s.last() < 256 * limit) by (nonlinear_arith)
            requires
                0 <= prefix < limit,
                s.last() < 256,
        ;
        assert(prefix * 256 + s.last() >= 0) by (nonlinear_arith)
            requires
                prefix >= 0,
                s.last() >= 0,
        ;
    }
}

/// Reads a big-endian field of `width` bytes at `offset`.
pub fn read_be_field(bytes: &[u8], offset: usize, width: usize) -> (r: u64)
    requires
        width <= 8,
        offset + width <= bytes@.len(),
    ensures
        r == be_val(bytes@.subrange(offset as int, offset as int + width as int)),
{
    let mut acc: u64 = 0;
    let mut i: usize = 0;
    let n: usize = bytes.len();
    while i < width
        invariant
            width <= 8,
            offset + width <= bytes@.len(),
            n == bytes@.len(),
            i <= width,
            acc == be_val(bytes@.subrange(offset as int, offset as int + i as int)),
        decreases width - i,
    {
        proof {
            let cur = bytes@.subrange(offset as int, offset as int + i as int);
            lemma_be_val_bound(cur);
            lemma_field_limit_mono(i as nat, 7);
            assert(field_limit(7) == 0x100000000000000) by {
                reveal_with_fuel(field_limit, 8);
            }
            assert(acc * 256 + 255 < 256 * 0x100000000000000) by (nonlinear_arith)
                requires
                    0 <= acc < 0x100000000000000,
            ;
            let next = bytes@.subrange(offset as int, offset as int + i as int + 1);
            assert(next.drop_last() =~= cur);
            assert(next.last() == bytes@[offset as int + i as int]);
        }
        acc = acc * 256 + bytes[offset + i] as u64;
        i = i + 1;
    }
    acc
}

/// One app record: a zero-copy descriptor of payload bytes inside the image.
/// It never owns the payload; `content` borrows it from the image.
#[derive(Clone, Copy, PartialEq, Eq, Structural, Debug)]
pub struct AppRecord {
    /// Offset of the first payload byte inside the image.
    pub start_address: usize,
    /// Number of payload bytes.
    pub length_bytes: usize,
}

/// The mathematical model of a record: payload offset and payload length.
pub open spec fn rec_model(a: AppRecord) -> (int, int) {
    (a.start_address as int, a.length_bytes as int)
}

impl AppRecord {
    /// The payload bytes this record describes, as a sequence.
    pub open spec fn spec_content(self, image: Seq<u8>) -> Seq<u8> {
        image.subrange(self.start_address as int, self.start_address + self.length_bytes)
    }

    /// Borrows the payload bytes from the image: the content view.
    pub fn content<'a>(&self, image: &'a [u8]) -> (r: &'a [u8])
        requires
            self.start_address + self.length_bytes <= image@.len(),
        ensures
            r@ == self.spec_content(image@),
    {
        let n: usize = image.len();
        &image[self.start_address..self.start_address + self.length_bytes]
    }
}

/// Decodes one record at `cursor`: a length field of `w` bytes, then that
/// many payload bytes.  Yields the record model and the advanced cursor, or
/// nothing where the image is too short.
pub open spec fn decode_one(image: Seq<u8>, w: int, cursor: int) -> Option<((int, int), int)> {
    if cursor + w > image.len() {
        None
    } else {
        let len = be_val(image.subrange(cursor, cursor + w));
        if cursor + w + len > image.len() {
            None
        } else {
            Some(((cursor + w, len), cursor + w + len))
        }
    }
}

/// Decodes `n` consecutive records starting at `cursor`.
pub open spec fn decode_records(image: Seq<u8>, w: int, cursor: int, n: nat) -> Option<
    (Seq<(int, int)>, int),
>
    decreases n,
{
    if n == 0 {
        Some((Seq::empty(), cursor))
    } else {
        match decode_one(image, w, cursor) {
            None => None,
            Some((rec, next)) => match decode_records(image, w, next, (n - 1) as nat) {
                None => None,
                Some((rest, end)) => Some((seq![rec] + rest, end)),
            },
        }
    }
}

/// Decodes a whole image: the app count, then that many records.
pub open spec fn spec_parse_image(image: Seq<u8>, w: int) -> Option<(Seq<(int, int)>, int)> {
    if image.len() < w {
        None
    } else {
        decode_records(image, w, w, be_val(image.subrange(0, w)) as nat)
    }
}

/// The packed image header: a field width that applies uniformly to the app
/// count and to every length field, and the address the image was read from.
#[derive(Clone, Copy, PartialEq, Eq, Structural, Debug)]
pub struct ImageHeader {
    /// Width in bytes of the count field and of every length field.
    pub field_width: usize,
    /// Address of the first image byte in the source memory region.
    pub base_address: usize,
}

impl ImageHeader {
    /// A width of one to eight bytes can be decoded into a machine word.
    pub open spec fn wf(self) -> bool {
        1 <= self.field_width <= 8
    }

    pub fn new(field_width: usize, base_address: usize) -> (r: Self)
        requires
            1 <= field_width <= 8,
        ensures
            r.field_width == field_width,
            r.base_address == base_address,
            r.wf(),
    {
        ImageHeader { field_width, base_address }
    }

    /// Decodes the app count: the big-endian field at the start of the image.
    /// The caller must have the first `field_width` bytes readable.
    pub fn read(&self, image: &[u8]) -> (r: u64)
        requires
            self.wf(),
            self.field_width <= image@.len(),
        ensures
            r == be_val(image@.subrange(0, self.field_width as int)),
    {
        read_be_field(image, 0, self.field_width)
    }
}

/// Decodes one record at `cursor` and advances the cursor past it; length
/// zero is legal and advances the cursor by the field width alone.
pub fn extract_record(image: &[u8], cursor: usize, field_width: usize) -> (r: Result<
    (AppRecord, usize),
    LoaderError,
>)
    requires
        1 <= field_width <= 8,
        cursor <= image@.len(),
    ensures
        r is Ok <==> decode_one(image@, field_width as int, cursor as int) is Some,
        r matches Ok((rec, next)) ==> decode_one(image@, field_width as int, cursor as int)
            == Some((rec_model(rec), next as int)),
        r matches Ok((rec, next)) ==> rec.start_address == cursor + field_width && next == cursor
            + field_width + rec.length_bytes && next <= image@.len(),
        r matches Err(e) ==> e == LoaderError::MalformedImage,
{
    let n = image.len();
    if n - cursor < field_width {
        return Err(LoaderError::MalformedImage);
    }
    let len = read_be_field(image, cursor, field_width);
    let remaining = n - cursor - field_width;
    if (remaining as u64) < len {
        return Err(LoaderError::MalformedImage);
    }
    let length_bytes = len as usize;
    let rec = AppRecord { start_address: cursor + field_width, length_bytes };
    Ok((rec, cursor + field_width + length_bytes))
}

/// Decodes the app count, then extracts exactly that many records; the
/// header count is authoritative, there is no in-band terminator.  Yields
/// the records and the final cursor, or the structural-validation error.
pub fn extract_apps(image: &[u8], field_width: usize) -> (r: Result<
    (Vec<AppRecord>, usize),
    LoaderError,
>)
    requires
        1 <= field_width <= 8,
    ensures
        r is Ok <==> spec_parse_image(image@, field_width as int) is Some,
        r matches Ok((recs, end)) ==> spec_parse_image(image@, field_width as int) == Some(
            (recs@.map_values(|a: AppRecord| rec_model(a)), end as int),
        ),
        r matches Ok((recs, end)) ==> recs@.len() == be_val(
            image@.subrange(0, field_width as int),
        ) && end <= image@.len(),
        r matches Ok((recs, end)) ==> forall|k: int|
            0 <= k < recs@.len() ==> (#[trigger] recs@[k]).start_address + recs@[k].length_bytes
                <= image@.len(),
        r matches Err(e) ==> e == LoaderError::MalformedImage,
{
    let ghost w = field_width as int;
    let n = image.len();
    if n < field_width {
        return Err(LoaderError::MalformedImage);
    }
    let count = read_be_field(image, 0, field_width);
    let mut recs: Vec<AppRecord> = Vec::new();
    let mut cursor: usize = field_width;
    let mut i: u64 = 0;
    while i < count
        invariant
            1 <= field_width <= 8,
            n == image@.len(),
            field_width <= n,
            cursor <= n,
            i <= count,
            count == be_val(image@.subrange(0, w)),
            w == field_width as int,
            recs@.len() == i,
            forall|k: int|
                0 <= k < recs@.len() ==> (#[trigger] recs@[k]).start_address
                    + recs@[k].length_bytes <= n,
            decode_records(image@, w, w, count as nat) == (match decode_records(
                image@,
                w,
                cursor as int,
                (count - i) as nat,
            ) {
                Some((rest, end)) => Some(
                    (recs@.map_values(|a: AppRecord| rec_model(a)) + rest, end),
                ),
                None => None::<(Seq<(int, int)>, int)>,
            }),
        decreases count - i,
    {
        match extract_record(image, cursor, field_width) {
            Ok((rec, next)) => {
                proof {
                    let m = (count - i) as nat;
                    let rest_opt = decode_records(image@, w, next as int, (m - 1) as nat);
                    assert(decode_records(image@, w, cursor as int, m) == (match rest_opt {
                        Some((rest, end)) => Some((seq![rec_model(rec)] + rest, end)),
                        None => None::<(Seq<(int, int)>, int)>,
                    }));
                    if let Some((rest, end)) = rest_opt {
                        let f = |a: AppRecord| rec_model(a);
                        assert(recs@.push(rec).map_values(f) =~= recs@.map_values(f).push(
                            rec_model(rec),
                        ));
                        assert(recs@.map_values(f).push(rec_model(rec)) + rest =~= recs@.map_values(
                            f,
                        ) + (seq![rec_model(rec)] + rest));
                    }
                }
                recs.push(rec);
                cursor = next;
                i = i + 1;
            },
            Err(e) => {
                proof {
                    let m = (count - i) as nat;
                    assert(decode_records(image@, w, cursor as int, m) is None);
                }
                return Err(e);
            },
        }
    }
    proof {
        let f = |a: AppRecord| rec_model(a);
        assert(decode_records(image@, w, cursor as int, 0) == Some(
            (Seq::<(int, int)>::empty(), cursor as int),
        ));
        assert(recs@.map_values(f) + Seq::<(int, int)>::empty() =~= recs@.map_values(f));
    }
    Ok((recs, cursor))
}

/// The `w`-byte big-endian encoding of `v`, most significant byte first.
pub open spec fn encode_field(w: nat, v: int) -> Seq<u8>
    decreases w,
{
    if w == 0 {
        Seq::empty()
    } else {
        encode_field((w - 1) as nat, v / 256).push((v % 256) as u8)
    }
}

/// Encoding a value that fits the field width round-trips through `be_val`.
pub proof fn lemma_encode_field(w: nat, v: int)
    requires
        0 <= v < field_limit(w),
    ensures
        encode_field(w, v).len() == w,
        be_val(encode_field(w, v)) == v,
    decreases w,
{
    if w > 0 {
        lemma_field_limit_pos((w - 1) as nat);
        assert(0 <= v / 256 < field_limit((w - 1) as nat)) by (nonlinear_arith)
            requires
                0 <= v < 256 * field_limit((w - 1) as nat),
                field_limit((w - 1) as nat) >= 1,
        ;
        lemma_encode_field((w - 1) as nat, v / 256);
        let s = encode_field(w, v);
        assert(s.drop_last() =~= encode_field((w - 1) as nat, v / 256));
        vstd::arithmetic::div_mod::lemma_fundamental_div_mod(v, 256);
    }
}

/// The records section of an image: each payload prefixed by its length.
pub open spec fn encode_records(w: nat, payloads: Seq<Seq<u8>>) -> Seq<u8>
    decreases payloads.len(),
{
    if payloads.len() == 0 {
        Seq::empty()
    } else {
        encode_field(w, payloads.first().len() as int) + payloads.first() + encode_records(
            w,
            payloads.drop_first(),
        )
    }
}

/// A whole image: the app count, then the records.
pub open spec fn spec_encode_image(w: nat, payloads: Seq<Seq<u8>>) -> Seq<u8> {
    encode_field(w, payloads.len() as int) + encode_records(w, payloads)
}

pub proof fn lemma_encode_records_push(w: nat, s: Seq<Seq<u8>>, p: Seq<u8>)
    ensures
        encode_records(w, s.push(p)) == encode_records(w, s) + encode_field(w, p.len() as int) + p,
    decreases s.len(),
{
    if s.len() == 0 {
        assert(s =~= Seq::<Seq<u8>>::empty());
        assert(s.push(p).drop_first() =~= s);
        assert(s.push(p).first() == p);
        assert(encode_records(w, s.push(p)) == encode_field(w, p.len() as int) + p
            + encode_records(w, s));
        assert(encode_field(w, p.len() as int) + p + encode_records(w, s) =~= encode_records(w, s)
            + encode_field(w, p.len() as int) + p);
    } else {
        lemma_encode_records_push(w, s.drop_first(), p);
        assert(s.push(p).drop_first() =~= s.drop_first().push(p));
        assert(s.push(p).first() == s.first());
        let head = encode_field(w, s.first().len() as int) + s.first();
        assert(encode_records(w, s.push(p)) == head + encode_records(w, s.drop_first().push(p)));
        assert(encode_records(w, s) == head + encode_records(w, s.drop_first()));
        assert(head + (encode_records(w, s.drop_first()) + encode_field(w, p.len() as int) + p)
            =~= (head + encode_records(w, s.drop_first())) + encode_field(w, p.len() as int) + p);
    }
}

/// Decides whether `value` can be written as a `width`-byte field.
pub fn fits_field(width: usize, value: u64) -> (b: bool)
    requires
        1 <= width <= 8,
    ensures
        b == (value < field_limit(width as nat)),
{
    if width >= 8 {
        proof {
            lemma_field_limit_mono(8, width as nat);
            assert(field_limit(8) == 0x10000000000000000) by {
                reveal_with_fuel(field_limit, 9);
            }
        }
        true
    } else {
        let mut limit: u64 = 1;
        let mut j: usize = 0;
        while j < width
            invariant
                j <= width,
                width <= 7,
                limit == field_limit(j as nat),
            decreases width - j,
        {
            proof {
                lemma_field_limit_mono(j as nat, 6);
                assert(field_limit(6) == 0x1000000000000) by {
                    reveal_with_fuel(field_limit, 7);
                }
                lemma_field_limit_pos(j as nat);
            }
            limit = limit * 256;
            j = j + 1;
        }
        value < limit
    }
}

/// Appends the `width`-byte big-endian encoding of `value`.
fn push_be_field(out: &mut Vec<u8>, width: usize, value: u64)
    requires
        width <= 8,
    ensures
        final(out)@ == old(out)@ + encode_field(width as nat, value as int),
{
    let mut tmp: Vec<u8> = Vec::new();
    let mut v: u64 = value;
    let mut j: usize = 0;
    while j < width
        invariant
            j <= width,
            width <= 8,
            tmp@.len() == j,
            encode_field(width as nat, value as int) == encode_field(
                (width - j) as nat,
                v as int,
            ) + tmp@.reverse(),
        decreases width - j,
    {
        proof {
            let rem = (width - j) as nat;
            let head = encode_field((rem - 1) as nat, v as int / 256);
            assert(encode_field(rem, v as int) == head.push((v as int % 256) as u8));
            assert(tmp@.push((v % 256) as u8).reverse() =~= seq![(v as int % 256) as u8]
                + tmp@.reverse());
            assert(head.push((v as int % 256) as u8) + tmp@.reverse() =~= head + (seq![
                (v as int % 256) as u8,
            ] + tmp@.reverse()));
        }
        tmp.push((v % 256) as u8);
        v = v / 256;
        j = j + 1;
    }
    assert(encode_field(0, v as int) =~= Seq::<u8>::empty());
    assert(Seq::<u8>::empty() + tmp@.reverse() =~= tmp@.reverse());
    let mut k: usize = 0;
    while k < width
        invariant
            k <= width,
            tmp@.len() == width,
            tmp@.reverse() == encode_field(width as nat, value as int),
            out@ == old(out)@ + tmp@.reverse().take(k as int),
        decreases width - k,
    {
        proof {
            assert(tmp@.reverse()[k as int] == tmp@[width - 1 - k as int]);
            assert(tmp@.reverse().take(k as int + 1) =~= tmp@.reverse().take(k as int).push(
                tmp@.reverse()[k as int],
            ));
            assert(old(out)@ + tmp@.reverse().take(k as int + 1) =~= (old(out)@
                + tmp@.reverse().take(k as int)).push(tmp@[width - 1 - k as int]));
        }
        out.push(tmp[width - 1 - k]);
        k = k + 1;
    }
    assert(tmp@.reverse().take(width as int) =~= tmp@.reverse());
}

/// Appends all of `payload`.
fn push_bytes(out: &mut Vec<u8>, payload: &[u8])
    ensures
        final(out)@ == old(out)@ + payload@,
{
    let mut k: usize = 0;
    let n = payload.len();
    while k < n
        invariant
            k <= n,
            n == payload@.len(),
            out@ == old(out)@ + payload@.take(k as int),
        decreases n - k,
    {
        proof {
            assert(payload@.take(k as int + 1) =~= payload@.take(k as int).push(
                payload@[k as int],
            ));
            assert(old(out)@ + payload@.take(k as int + 1) =~= (old(out)@ + payload@.take(
                k as int,
            )).push(payload@[k as int]));
        }
        out.push(payload[k]);
        k = k + 1;
    }
    assert(payload@.take(n as int) =~= payload@);
}

/// Encodes payloads into the packed container format.  Fails exactly where
/// the app count or some payload length does not fit the field width.
pub fn encode_image(field_width: usize, payloads: &Vec<Vec<u8>>) -> (r: Option<Vec<u8>>)
    requires
        1 <= field_width <= 8,
    ensures
        r matches Some(v) ==> v@ == spec_encode_image(
            field_width as nat,
            payloads@.map_values(|p: Vec<u8>| p@),
        ),
        r is Some <==> (payloads@.len() < field_limit(field_width as nat) && forall|k: int|
            0 <= k < payloads@.len() ==> (#[trigger] payloads@[k])@.len() < field_limit(
                field_width as nat,
            )),
{
    let ghost w = field_width as nat;
    let ghost model = payloads@.map_values(|p: Vec<u8>| p@);
    let count = payloads.len();
    if !fits_field(field_width, count as u64) {
        return None;
    }
    let mut out: Vec<u8> = Vec::new();
    push_be_field(&mut out, field_width, count as u64);
    assert(Seq::<u8>::empty() + encode_field(w, count as int) =~= encode_field(w, count as int));
    let mut i: usize = 0;
    while i < count
        invariant
            1 <= field_width <= 8,
            w == field_width as nat,
            model == payloads@.map_values(|p: Vec<u8>| p@),
            count == payloads@.len(),
            i <= count,
            forall|k: int| 0 <= k < i ==> (#[trigger] model[k]).len() < field_limit(w),
            out@ == encode_field(w, count as int) + encode_records(w, model.take(i as int)),
        decreases count - i,
    {
        let p: &Vec<u8> = &payloads[i];
        if !fits_field(field_width, p.len() as u64) {
            proof {
                assert(payloads@[i as int]@ == model[i as int]);
            }
            return None;
        }
        proof {
            lemma_encode_records_push(w, model.take(i as int), model[i as int]);
            assert(model.take(i as int).push(model[i as int]) =~= model.take(i as int + 1));
        }
        push_be_field(&mut out, field_width, p.len() as u64);
        push_bytes(&mut out, p.as_slice());
        proof {
            assert(encode_field(w, count as int) + encode_records(w, model.take(i as int))
                + encode_field(w, model[i as int].len() as int) + model[i as int] =~= encode_field(
                w,
                count as int,
            ) + encode_records(w, model.take(i as int + 1)));
        }
        i = i + 1;
    }
    proof {
        assert(model.take(count as int) =~= model);
        assert(forall|k: int|
            0 <= k < payloads@.len() ==> (#[trigger] payloads@[k])@ == model[k]);
    }
    Some(out)
}

/// Decoding records from an image that holds their encoding at `cursor`
/// recovers every payload, in order, and lands exactly past the encoding.
pub proof fn lemma_decode_encoded(image: Seq<u8>, w: nat, cursor: int, payloads: Seq<Seq<u8>>)
    requires
        1 <= w <= 8,
        0 <= cursor,
        cursor + encode_records(w, payloads).len() <= image.len(),
        image.subrange(cursor, cursor + encode_records(w, payloads).len()) == encode_records(
            w,
            payloads,
        ),
        forall|k: int| 0 <= k < payloads.len() ==> (#[trigger] payloads[k]).len() < field_limit(w),
    ensures
        decode_records(image, w as int, cursor, payloads.len() as nat) matches Some((recs, end))
            && {
            &&& end == cursor + encode_records(w, payloads).len()
            &&& recs.len() == payloads.len()
            &&& forall|k: int|
                0 <= k < recs.len() ==> image.subrange(
                    #[trigger] recs[k].0,
                    recs[k].0 + recs[k].1,
                ) == payloads[k]
        },
    decreases payloads.len(),
{
    let whole = encode_records(w, payloads);
    if payloads.len() == 0 {
        assert(decode_records(image, w as int, cursor, 0) == Some(
            (Seq::<(int, int)>::empty(), cursor),
        ));
    } else {
        let p0 = payloads.first();
        let hdr = encode_field(w, p0.len() as int);
        let rest = encode_records(w, payloads.drop_first());
        lemma_encode_field(w, p0.len() as int);
        assert(whole == hdr + p0 + rest);
        let len0 = p0.len() as int;
        let s_all = image.subrange(cursor, cursor + whole.len() as int);
        assert(image.subrange(cursor, cursor + w) =~= s_all.subrange(0, w as int));
        assert(whole.subrange(0, w as int) =~= hdr);
        assert(be_val(image.subrange(cursor, cursor + w)) == len0);
        let next = cursor + w + len0;
        assert(decode_one(image, w as int, cursor) == Some(((cursor + w, len0), next)));
        assert(image.subrange(cursor + w, next) =~= s_all.subrange(w as int, w as int + len0));
        assert(whole.subrange(w as int, w as int + len0) =~= p0);
        assert(image.subrange(next, next + rest.len() as int) =~= s_all.subrange(
            w as int + len0,
            whole.len() as int,
        ));
        assert(whole.subrange(w as int + len0, whole.len() as int) =~= rest);
        assert forall|k: int| 0 <= k < payloads.drop_first().len() implies (
        #[trigger] payloads.drop_first()[k]).len() < field_limit(w) by {
            assert(payloads.drop_first()[k] == payloads[k + 1]);
        }
        lemma_decode_encoded(image, w, next, payloads.drop_first());
        let (recs1, end1) = decode_records(
            image,
            w as int,
            next,
            payloads.drop_first().len() as nat,
        )->Some_0;
        let recs = seq![(cursor + w, len0)] + recs1;
        assert(decode_records(image, w as int, cursor, payloads.len() as nat) == Some(
            (recs, end1),
        ));
        assert forall|k: int| 0 <= k < recs.len() implies image.subrange(
            #[trigger] recs[k].0,
            recs[k].0 + recs[k].1,
        ) == payloads[k] by {
            if k == 0 {
                assert(recs[0] == (cursor + w, len0));
            } else {
                assert(recs[k] == recs1[k - 1]);
                assert(payloads.drop_first()[k - 1] == payloads[k]);
            }
        }
    }
}

/// Decoded records of any valid image are consecutive: the first starts
/// right after the field at the cursor, each next record starts where the
/// previous one ended, and the final cursor lands exactly past the last
/// record: extraction consumes exactly the bytes the records imply.
pub proof fn lemma_records_consecutive(image: Seq<u8>, w: int, cursor: int, n: nat)
    requires
        w >= 1,
        decode_records(image, w, cursor, n) is Some,
    ensures
        ({
            let (recs, end) = decode_records(image, w, cursor, n)->Some_0;
            &&& recs.len() == n
            &&& (n == 0 ==> end == cursor)
            &&& (n > 0 ==> recs[0].0 == cursor + w)
            &&& forall|k: int|
                0 <= k < n - 1 ==> (#[trigger] recs[k + 1]).0 == recs[k].0 + recs[k].1 + w
            &&& (n > 0 ==> end == recs[n - 1].0 + recs[n - 1].1)
        }),
    decreases n,
{
    if n > 0 {
        let (rec, next) = decode_one(image, w, cursor)->Some_0;
        lemma_records_consecutive(image, w, next, (n - 1) as nat);
        let (rest, end) = decode_records(image, w, next, (n - 1) as nat)->Some_0;
        let recs = seq![rec] + rest;
        assert(decode_records(image, w, cursor, n)->Some_0 == (recs, end));
        assert(recs[0] == rec);
        assert forall|k: int| 0 <= k < n - 1 implies (#[trigger] recs[k + 1]).0 == recs[k].0
            + recs[k].1 + w by {
            assert(recs[k + 1] == rest[k]);
            if k == 0 {
                assert(rest[0].0 == next + w);
                assert(rec.0 + rec.1 == next);
            } else {
                assert(recs[k] == rest[k - 1]);
                assert(rest[(k - 1) + 1].0 == rest[k - 1].0 + rest[k - 1].1 + w);
            }
        }
        if n == 1 {
            assert(end == next);
        } else {
            assert(recs[n - 1] == rest[n - 2]);
        }
    }
}

/// Encoding payloads and decoding the result reproduces the original
/// sequence exactly, in order; the header count equals the number of
/// payloads, and the final cursor lands at the image end: the encoding is
/// exactly packed.
pub proof fn lemma_image_round_trip(w: nat, payloads: Seq<Seq<u8>>)
    requires
        1 <= w <= 8,
        payloads.len() < field_limit(w),
        forall|k: int| 0 <= k < payloads.len() ==> (#[trigger] payloads[k]).len() < field_limit(w),
    ensures
        ({
            let image = spec_encode_image(w, payloads);
            &&& w <= image.len()
            &&& be_val(image.subrange(0, w as int)) == payloads.len()
            &&& spec_parse_image(image, w as int) matches Some((recs, end)) && {
                &&& recs.len() == payloads.len()
                &&& end == image.len()
                &&& forall|k: int|
                    0 <= k < recs.len() ==> image.subrange(
                        #[trigger] recs[k].0,
                        recs[k].0 + recs[k].1,
                    ) == payloads[k]
            }
        }),
{
    let image = spec_encode_image(w, payloads);
    let hdr = encode_field(w, payloads.len() as int);
    let body = encode_records(w, payloads);
    lemma_encode_field(w, payloads.len() as int);
    assert(image.subrange(0, w as int) =~= hdr);
    assert(image.subrange(w as int, w as int + body.len() as int) =~= body);
    lemma_decode_encoded(image, w, w as int, payloads);
    assert(be_val(image.subrange(0, w as int)) as nat == payloads.len());
}

/// Reads the first eight bytes as a big-endian machine word.
pub fn bytes_to_usize(bytes: &[u8]) -> (r: usize)
    requires
        bytes@.len() >= 8,
        be_val(bytes@.subrange(0, 8)) <= usize::MAX,
    ensures
        r == be_val(bytes@.subrange(0, 8)),
{
    let v = read_be_field(bytes, 0, 8);
    v as usize
}

} // verus!
