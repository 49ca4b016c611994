//! Byte-level primitives: the input cursor, the varint forms that the type
//! grammar is built from, and the error kinds of decoding.
use vstd::prelude::*;

verus! {

/// Message carried by `Error::Other` when a function type declares more
/// than one result.
pub const RETURN_ARITY_MESSAGE: &'static str = "Return types length should be 0 or 1";

/// Why a decode failed.
#[derive(Debug, Clone, Copy, PartialEq, Eq)]
pub enum Error {
    /// The input ended in the middle of a value.
    UnexpectedEof,
    /// A byte read as a 7-bit signed varint had its continuation bit set.
    InvalidVarInt7(u8),
    /// A byte read as a 1-bit varint was neither 0 nor 1.
    InvalidVarUint1(u8),
    /// A 32-bit unsigned varint was longer than five bytes or overflowed.
    InvalidVarUint32,
    /// A tag byte matched no constant at its dispatch level.
    UnknownValueType(i8),
    /// The form byte of a function type (baseline dialect) was not the
    /// function form.
    UnknownFunctionForm(u8),
    /// Any other structural violation.
    Other(&'static str),
}

/// Outcome of parsing a prefix of a byte sequence: the value and the number
/// of bytes it took, or the error and the number of bytes read before it.
pub type Parsed<T> = Result<(T, nat), (Error, nat)>;

/// Adds `k` already consumed bytes to the count of a parse outcome.
pub open spec fn shifted<T>(k: nat, p: Parsed<T>) -> Parsed<T> {
    match p {
        Ok((v, n)) => Ok((v, k + n)),
        Err((e, n)) => Err((e, k + n)),
    }
}

/// `after` is `before` moved forward by `n` bytes.
pub open spec fn advanced(before: Reader, after: Reader, n: nat) -> bool {
    &&& n <= before.rest().len()
    &&& after.rest() == before.rest().skip(n as int)
    &&& after.consumed() == before.consumed() + n
}

/// An executable read agrees with the parse outcome `p` of the bytes that
/// `before` had left: same value or error, and moved by the same count.
pub open spec fn follows<T>(p: Parsed<T>, res: Result<T, Error>, before: Reader, after: Reader) -> bool {
    match p {
        Ok((v, n)) => res == Ok::<T, Error>(v) && advanced(before, after, n),
        Err((e, n)) => res == Err::<T, Error>(e) && advanced(before, after, n),
    }
}

/// Reading `n1` then `n2` bytes is reading `n1 + n2` bytes.
pub proof fn lemma_advanced_trans(a: Reader, b: Reader, c: Reader, n1: nat, n2: nat)
    requires
        advanced(a, b, n1),
        advanced(b, c, n2),
    ensures
        advanced(a, c, n1 + n2),
{
    assert(c.rest() =~= a.rest().skip((n1 + n2) as int));
}

/// A read of `k` bytes followed by a read that agrees with `p` agrees with
/// `p` moved by `k`.
pub proof fn lemma_follows_after<T>(
    k: nat,
    p: Parsed<T>,
    res: Result<T, Error>,
    a: Reader,
    b: Reader,
    c: Reader,
)
    requires
        advanced(a, b, k),
        follows(p, res, b, c),
    ensures
        follows(shifted(k, p), res, a, c),
{
    match p {
        Ok((_, n)) => lemma_advanced_trans(a, b, c, k, n),
        Err((_, n)) => lemma_advanced_trans(a, b, c, k, n),
    }
}

/// A cursor over an owned byte buffer.
pub struct Reader {
    data: Vec<u8>,
    pos: usize,
}

impl Reader {
    #[verifier::type_invariant]
    spec fn inv(&self) -> bool {
        self.pos <= self.data.len()
    }

    /// The bytes not read yet.
    pub closed spec fn rest(&self) -> Seq<u8> {
        self.data@.subrange(self.pos as int, self.data@.len() as int)
    }

    /// The number of bytes read so far.
    pub closed spec fn consumed(&self) -> nat {
        self.pos as nat
    }

    pub fn new(data: Vec<u8>) -> (r: Reader)
        ensures
            r.rest() == data@,
            r.consumed() == 0,
    {
        let r = Reader { data, pos: 0 };
        assert(r.rest() =~= r.data@);
        r
    }

    /// The number of bytes read so far.
    pub fn position(&self) -> (n: usize)
        ensures
            n == self.consumed(),
    {
        self.pos
    }

    /// The number of bytes not read yet.
    pub fn remaining(&self) -> (n: usize)
        ensures
            n == self.rest().len(),
    {
        proof {
            use_type_invariant(self);
        }
        self.data.len() - self.pos
    }

    /// Reads one byte.
    pub fn read_byte(&mut self) -> (r: Result<u8, Error>)
        ensures
            follows(parse_byte(old(self).rest()), r, *old(self), *final(self)),
    {
        proof {
            use_type_invariant(&*self);
        }
        if self.pos < self.data.len() {
            let b = self.data[self.pos];
            self.pos = self.pos + 1;
            proof {
                assert(self.rest() =~= old(self).rest().skip(1));
            }
            Ok(b)
        } else {
            proof {
                assert(self.rest() =~= old(self).rest().skip(0));
            }
            Err(Error::UnexpectedEof)
        }
    }
}

/// One raw byte.
pub open spec fn parse_byte(s: Seq<u8>) -> Parsed<u8> {
    if s.len() == 0 {
        Err((Error::UnexpectedEof, 0))
    } else {
        Ok((s[0], 1))
    }
}

/// The value of a 7-bit signed varint byte (continuation bit clear).
pub open spec fn i7_of(b: u8) -> i8 {
    if b < 64 {
        b as i8
    } else {
        (b - 128) as i8
    }
}

/// The byte that encodes `v` (in -64..64) as a 7-bit signed varint.
pub open spec fn i7_byte(v: i8) -> u8 {
    if v >= 0 {
        v as u8
    } else {
        (v + 128) as u8
    }
}

/// A signed varint of one 7-bit group.
pub open spec fn parse_var_i7(s: Seq<u8>) -> Parsed<i8> {
    if s.len() == 0 {
        Err((Error::UnexpectedEof, 0))
    } else if s[0] >= 128 {
        Err((Error::InvalidVarInt7(s[0]), 1))
    } else {
        Ok((i7_of(s[0]), 1))
    }
}

/// A boolean as a 1-bit varint.
pub open spec fn parse_var_u1(s: Seq<u8>) -> Parsed<bool> {
    if s.len() == 0 {
        Err((Error::UnexpectedEof, 0))
    } else if s[0] == 0 {
        Ok((false, 1))
    } else if s[0] == 1 {
        Ok((true, 1))
    } else {
        Err((Error::InvalidVarUint1(s[0]), 1))
    }
}

pub open spec fn bool_byte(b: bool) -> u8 {
    if b {
        1
    } else {
        0
    }
}

/// Exclusive bound of the value carried by the groups from position `depth`
/// of a 32-bit unsigned varint onwards.
pub open spec fn var_u32_bound(depth: nat) -> nat
    decreases 4 - depth,
{
    if depth >= 4 {
        16
    } else {
        128 * var_u32_bound(depth + 1)
    }
}

/// The groups of a 32-bit unsigned varint from position `depth` (0 for the
/// first byte) onwards: little-endian 7-bit groups, at most five in all,
/// the fifth holding only the top four bits.
pub open spec fn parse_var_u32_from(s: Seq<u8>, depth: nat) -> Parsed<nat>
    decreases s.len(),
{
    if s.len() == 0 {
        Err((Error::UnexpectedEof, 0))
    } else if depth >= 4 {
        if s[0] < 16 {
            Ok((s[0] as nat, 1))
        } else {
            Err((Error::InvalidVarUint32, 1))
        }
    } else if s[0] < 128 {
        Ok((s[0] as nat, 1))
    } else {
        match parse_var_u32_from(s.drop_first(), depth + 1) {
            Ok((v, n)) => Ok((((s[0] - 128) + 128 * v) as nat, n + 1)),
            Err((e, n)) => Err((e, n + 1)),
        }
    }
}

/// A 32-bit unsigned varint.
pub open spec fn parse_var_u32(s: Seq<u8>) -> Parsed<u32> {
    match parse_var_u32_from(s, 0) {
        Ok((v, n)) => Ok((v as u32, n)),
        Err((e, n)) => Err((e, n)),
    }
}

/// The shortest unsigned varint encoding of `v`.
pub open spec fn var_u32_bytes(v: nat) -> Seq<u8>
    decreases v,
{
    if v < 128 {
        seq![v as u8]
    } else {
        seq![(v % 128 + 128) as u8] + var_u32_bytes(v / 128)
    }
}

proof fn lemma_var_u32_bound_values()
    ensures
        var_u32_bound(0) == 0x1_0000_0000,
        var_u32_bound(1) == 0x200_0000,
        var_u32_bound(2) == 0x4_0000,
        var_u32_bound(3) == 0x800,
        var_u32_bound(4) == 16,
{
    reveal_with_fuel(var_u32_bound, 5);
}

proof fn lemma_var_u32_from_bound(s: Seq<u8>, depth: nat)
    requires
        depth <= 4,
    ensures
        parse_var_u32_from(s, depth) matches Ok((v, n)) ==> v < var_u32_bound(depth) && 1 <= n
            <= 5 - depth && n <= s.len(),
        parse_var_u32_from(s, depth) matches Err((_, n)) ==> n <= s.len(),
    decreases s.len(),
{
    lemma_var_u32_bound_values();
    if s.len() > 0 && depth < 4 && s[0] >= 128 {
        lemma_var_u32_from_bound(s.drop_first(), depth + 1);
        if let Ok((v, n)) = parse_var_u32_from(s.drop_first(), depth + 1) {
            let b = var_u32_bound(depth + 1);
            assert((s[0] - 128) + 128 * v < 128 * b) by (nonlinear_arith)
                requires
                    s[0] - 128 < 128,
                    v < b,
            ;
        }
    }
}

proof fn lemma_var_u32_from_round_trip(v: nat, depth: nat, rest: Seq<u8>)
    requires
        depth <= 4,
        v < var_u32_bound(depth),
    ensures
        parse_var_u32_from(var_u32_bytes(v) + rest, depth) == Ok::<(nat, nat), (Error, nat)>(
            (v, var_u32_bytes(v).len()),
        ),
    decreases v,
{
    lemma_var_u32_bound_values();
    let s = var_u32_bytes(v) + rest;
    if v >= 128 {
        assert(depth < 4);
        let b = var_u32_bound(depth + 1);
        assert(v / 128 < b) by (nonlinear_arith)
            requires
                v < 128 * b,
        ;
        lemma_var_u32_from_round_trip(v / 128, depth + 1, rest);
        assert(s.drop_first() =~= var_u32_bytes(v / 128) + rest);
        assert((v % 128 + 128) - 128 + 128 * (v / 128) == v) by (nonlinear_arith);
    }
}

/// Decoding the encoding of a 32-bit value gives the value back and takes
/// exactly the bytes of the encoding, whatever follows them.
pub proof fn lemma_var_u32_round_trip(v: u32, rest: Seq<u8>)
    ensures
        parse_var_u32(var_u32_bytes(v as nat) + rest) == Ok::<(u32, nat), (Error, nat)>(
            (v, var_u32_bytes(v as nat).len()),
        ),
{
    lemma_var_u32_bound_values();
    lemma_var_u32_from_round_trip(v as nat, 0, rest);
}

/// Reads a signed varint of one 7-bit group.
pub fn read_var_i7(r: &mut Reader) -> (res: Result<i8, Error>)
    ensures
        follows(parse_var_i7(old(r).rest()), res, *old(r), *final(r)),
{
    let b = r.read_byte()?;
    if b >= 128 {
        Err(Error::InvalidVarInt7(b))
    } else if b < 64 {
        Ok(b as i8)
    } else {
        Ok((b as i16 - 128) as i8)
    }
}

/// Appends `v` (in -64..64) as a signed varint of one 7-bit group.
pub fn write_var_i7(out: &mut Vec<u8>, v: i8)
    requires
        -64 <= v < 64,
    ensures
        final(out)@ == old(out)@.push(i7_byte(v)),
{
    if v >= 0 {
        out.push(v as u8);
    } else {
        out.push((v as i16 + 128) as u8);
    }
}

/// Reads a boolean as a 1-bit varint.
pub fn read_var_u1(r: &mut Reader) -> (res: Result<bool, Error>)
    ensures
        follows(parse_var_u1(old(r).rest()), res, *old(r), *final(r)),
{
    let b = r.read_byte()?;
    if b == 0 {
        Ok(false)
    } else if b == 1 {
        Ok(true)
    } else {
        Err(Error::InvalidVarUint1(b))
    }
}

/// Appends a boolean as a 1-bit varint.
pub fn write_var_u1(out: &mut Vec<u8>, v: bool)
    ensures
        final(out)@ == old(out)@.push(bool_byte(v)),
{
    if v {
        out.push(1);
    } else {
        out.push(0);
    }
}

fn read_var_u32_from(r: &mut Reader, depth: u8) -> (res: Result<u32, Error>)
    requires
        depth <= 4,
    ensures
        follows(
            match parse_var_u32_from(old(r).rest(), depth as nat) {
                Ok((v, n)) => Ok((v as u32, n)),
                Err((e, n)) => Err((e, n)),
            },
            res,
            *old(r),
            *final(r),
        ),
    decreases 4 - depth,
{
    proof {
        lemma_var_u32_from_bound(old(r).rest(), depth as nat);
        lemma_var_u32_bound_values();
    }
    let ghost s = old(r).rest();
    let b = r.read_byte()?;
    if depth >= 4 {
        if b < 16 {
            Ok(b as u32)
        } else {
            Err(Error::InvalidVarUint32)
        }
    } else if b < 128 {
        Ok(b as u32)
    } else {
        let ghost mid = *r;
        proof {
            assert(mid.rest() =~= s.drop_first());
            lemma_var_u32_from_bound(mid.rest(), (depth + 1) as nat);
        }
        let res = read_var_u32_from(r, depth + 1);
        proof {
            let n = match parse_var_u32_from(mid.rest(), (depth + 1) as nat) {
                Ok((_, n)) => n,
                Err((_, n)) => n,
            };
            lemma_advanced_trans(*old(r), mid, *r, 1, n);
        }
        match res {
            Ok(high) => {
                assert(high < var_u32_bound((depth + 1) as nat));
                assert(var_u32_bound((depth + 1) as nat) <= 0x200_0000);
                Ok((b - 128) as u32 + 128 * high)
            },
            Err(e) => Err(e),
        }
    }
}

/// Reads a 32-bit unsigned varint.
pub fn read_var_u32(r: &mut Reader) -> (res: Result<u32, Error>)
    ensures
        follows(parse_var_u32(old(r).rest()), res, *old(r), *final(r)),
{
    read_var_u32_from(r, 0)
}

/// Appends the shortest unsigned varint encoding of `v`.
pub fn write_var_u32(out: &mut Vec<u8>, v: u32)
    ensures
        final(out)@ == old(out)@ + var_u32_bytes(v as nat),
{
    let mut x: u32 = v;
    while x >= 128
        invariant
            old(out)@ + var_u32_bytes(v as nat) == out@ + var_u32_bytes(x as nat),
        decreases x,
    {
        let ghost prev = out@;
        out.push((x % 128 + 128) as u8);
        assert(var_u32_bytes(x as nat) == seq![(x % 128 + 128) as u8] + var_u32_bytes(
            (x / 128) as nat,
        ));
        assert(prev + var_u32_bytes(x as nat) =~= out@ + var_u32_bytes((x / 128) as nat));
        x = x / 128;
    }
    let ghost prev = out@;
    out.push(x as u8);
    assert(prev + var_u32_bytes(x as nat) =~= out@);
}

/// The encodings of the items of `s`, back to back.
pub open spec fn list_bytes<T>(s: Seq<T>, enc: spec_fn(T) -> Seq<u8>) -> Seq<u8>
    decreases s.len(),
{
    if s.len() == 0 {
        Seq::empty()
    } else {
        enc(s[0]) + list_bytes(s.drop_first(), enc)
    }
}

/// A length-prefixed sequence: the count as a 32-bit unsigned varint, then
/// the items.
pub open spec fn counted_bytes<T>(s: Seq<T>, enc: spec_fn(T) -> Seq<u8>) -> Seq<u8> {
    var_u32_bytes(s.len()) + list_bytes(s, enc)
}

/// `count` items, each read by `item`, back to back.
pub open spec fn parse_list<T>(s: Seq<u8>, count: nat, item: spec_fn(Seq<u8>) -> Parsed<T>) -> Parsed<
    Seq<T>,
>
    decreases count,
{
    if count == 0 {
        Ok((Seq::empty(), 0))
    } else {
        match item(s) {
            Err(e) => Err(e),
            Ok((v, k)) => match parse_list(s.skip(k as int), (count - 1) as nat, item) {
                Ok((vs, m)) => Ok((seq![v] + vs, k + m)),
                Err((e, m)) => Err((e, k + m)),
            },
        }
    }
}

/// A length-prefixed sequence of items, each read by `item`.
pub open spec fn parse_counted<T>(s: Seq<u8>, item: spec_fn(Seq<u8>) -> Parsed<T>) -> Parsed<
    Seq<T>,
> {
    match parse_var_u32(s) {
        Err(e) => Err(e),
        Ok((c, k)) => shifted(k, parse_list(s.skip(k as int), c as nat, item)),
    }
}

/// A parse outcome of the items after `done`, counted after `c` bytes,
/// seen as an outcome of all items.
pub open spec fn prepended<T>(done: Seq<T>, c: nat, p: Parsed<Seq<T>>) -> Parsed<Seq<T>> {
    match p {
        Ok((vs, m)) => Ok((done + vs, c + m)),
        Err((e, m)) => Err((e, c + m)),
    }
}

/// A result seen through the view of its value.
pub open spec fn view_result<T: View>(r: Result<T, Error>) -> Result<T::V, Error> {
    match r {
        Ok(v) => Ok(v@),
        Err(e) => Err(e),
    }
}

/// `item` reads back what `enc` writes, whatever follows.
pub open spec fn inverts<T>(item: spec_fn(Seq<u8>) -> Parsed<T>, enc: spec_fn(T) -> Seq<u8>) -> bool {
    forall|v: T, rest: Seq<u8>| #[trigger] item(enc(v) + rest) == Ok::<(T, nat), (Error, nat)>((v, enc(v).len()))
}

pub proof fn lemma_list_round_trip<T>(
    vs: Seq<T>,
    enc: spec_fn(T) -> Seq<u8>,
    item: spec_fn(Seq<u8>) -> Parsed<T>,
    rest: Seq<u8>,
)
    requires
        inverts(item, enc),
    ensures
        parse_list(list_bytes(vs, enc) + rest, vs.len(), item) == Ok::<(Seq<T>, nat), (Error, nat)>(
            (vs, list_bytes(vs, enc).len()),
        ),
    decreases vs.len(),
{
    if vs.len() > 0 {
        let tail = vs.drop_first();
        let s = list_bytes(vs, enc) + rest;
        let after = list_bytes(tail, enc) + rest;
        lemma_list_round_trip(tail, enc, item, rest);
        assert(s =~= enc(vs[0]) + after);
        assert(item(enc(vs[0]) + after) == Ok::<(T, nat), (Error, nat)>((vs[0], enc(vs[0]).len())));
        assert(s.skip(enc(vs[0]).len() as int) =~= after);
        assert(seq![vs[0]] + tail =~= vs);
    } else {
        assert(vs =~= Seq::<T>::empty());
        assert(list_bytes(vs, enc) + rest =~= rest);
    }
}

/// Decoding a length-prefixed sequence written by `counted_bytes` gives the
/// sequence back and takes exactly its bytes.
pub proof fn lemma_counted_round_trip<T>(
    vs: Seq<T>,
    enc: spec_fn(T) -> Seq<u8>,
    item: spec_fn(Seq<u8>) -> Parsed<T>,
    rest: Seq<u8>,
)
    requires
        inverts(item, enc),
        vs.len() <= u32::MAX,
    ensures
        parse_counted(counted_bytes(vs, enc) + rest, item) == Ok::<(Seq<T>, nat), (Error, nat)>(
            (vs, counted_bytes(vs, enc).len()),
        ),
{
    let body = list_bytes(vs, enc) + rest;
    let s = counted_bytes(vs, enc) + rest;
    assert(s =~= var_u32_bytes(vs.len() as u32 as nat) + body);
    lemma_var_u32_round_trip(vs.len() as u32, body);
    assert(s.skip(var_u32_bytes(vs.len()).len() as int) =~= body);
    lemma_list_round_trip(vs, enc, item, rest);
}

} // verus!
