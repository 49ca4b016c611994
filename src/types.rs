//! The type forms of the format and their encoding in the type section.
use vstd::prelude::*;
use vstd::string::StringExecFns;
use crate::codec::{
    Error, Parsed, Reader, shifted, follows, lemma_follows_after, i7_byte,
    parse_var_i7, parse_var_u32, var_u32_bytes, read_var_i7, write_var_i7, read_var_u32,
    write_var_u32,
};

verus! {

pub const I32TYPE: i8 = -0x01;
pub const I64TYPE: i8 = -0x02;
pub const F32TYPE: i8 = -0x03;
pub const F64TYPE: i8 = -0x04;
pub const V128TYPE: i8 = -0x05;
pub const ANYFUNCTYPE: i8 = -0x10;
pub const ANYREFTYPE: i8 = -0x11;
pub const REFTYPE: i8 = -0x12;
pub const PACKEDI8TYPE: i8 = -0x18;
pub const PACKEDI16TYPE: i8 = -0x19;
pub const FUNCTIONTYPE: i8 = -0x20;
pub const STRUCTTYPE: i8 = -0x21;
pub const ARRAYTYPE: i8 = -0x22;
pub const NORESULTTYPE: i8 = -0x40;

// ---------------------------------------------------------------- NumType

/// Number type.
#[derive(Clone, Copy, Debug, PartialEq, Eq, Hash, Structural)]
pub enum NumType {
    /// 32-bit signed integer
    I32,
    /// 64-bit signed integer
    I64,
    /// 32-bit float
    F32,
    /// 64-bit float
    F64,
}

pub open spec fn num_type_tag(n: NumType) -> i8 {
    match n {
        NumType::I32 => I32TYPE,
        NumType::I64 => I64TYPE,
        NumType::F32 => F32TYPE,
        NumType::F64 => F64TYPE,
    }
}

pub open spec fn num_type_of_tag(t: i8) -> Option<NumType> {
    if t == I32TYPE {
        Some(NumType::I32)
    } else if t == I64TYPE {
        Some(NumType::I64)
    } else if t == F32TYPE {
        Some(NumType::F32)
    } else if t == F64TYPE {
        Some(NumType::F64)
    } else {
        None
    }
}

impl NumType {
    /// The number type that a tag denotes, if any.
    pub fn from_bits(x: i8) -> (r: Option<NumType>)
        ensures
            r == num_type_of_tag(x),
    {
        match x {
            I32TYPE => Some(NumType::I32),
            I64TYPE => Some(NumType::I64),
            F32TYPE => Some(NumType::F32),
            F64TYPE => Some(NumType::F64),
            _ => None,
        }
    }

    /// The tag of this number type.
    pub fn to_bits(self) -> (r: i8)
        ensures
            r == num_type_tag(self),
    {
        match self {
            NumType::I32 => I32TYPE,
            NumType::I64 => I64TYPE,
            NumType::F32 => F32TYPE,
            NumType::F64 => F64TYPE,
        }
    }
}

// ---------------------------------------------------------------- RefType

/// Reference type.
#[derive(Clone, Copy, Debug, PartialEq, Eq, Hash, Structural)]
pub enum RefType {
    /// Infinite union of all references
    AnyRef,
    /// Infinite union of all references to functions
    AnyFunc,
    /// Reference to a specific definition
    Ref(u32),
}

pub open spec fn ref_type_tag(r: RefType) -> i8 {
    match r {
        RefType::AnyFunc => ANYFUNCTYPE,
        RefType::AnyRef => ANYREFTYPE,
        RefType::Ref(_) => REFTYPE,
    }
}

/// The reference type that a tag selects; an indexed reference starts with
/// index 0 until its index is read.
pub open spec fn ref_type_of_tag(t: i8) -> Option<RefType> {
    if t == ANYFUNCTYPE {
        Some(RefType::AnyFunc)
    } else if t == ANYREFTYPE {
        Some(RefType::AnyRef)
    } else if t == REFTYPE {
        Some(RefType::Ref(0))
    } else {
        None
    }
}

/// The bytes after the tag: the index of an indexed reference.
pub open spec fn ref_type_rest_bytes(r: RefType) -> Seq<u8> {
    match r {
        RefType::Ref(i) => var_u32_bytes(i as nat),
        _ => Seq::empty(),
    }
}

pub open spec fn ref_type_bytes(r: RefType) -> Seq<u8> {
    seq![i7_byte(ref_type_tag(r))] + ref_type_rest_bytes(r)
}

/// Reads what follows the tag of the reference type `r`.
pub open spec fn parse_ref_type_rest(r: RefType, s: Seq<u8>) -> Parsed<RefType> {
    match r {
        RefType::Ref(_) => match parse_var_u32(s) {
            Ok((i, n)) => Ok((RefType::Ref(i), n)),
            Err(e) => Err(e),
        },
        _ => Ok((r, 0)),
    }
}

pub open spec fn parse_ref_type(s: Seq<u8>) -> Parsed<RefType> {
    match parse_var_i7(s) {
        Err(e) => Err(e),
        Ok((t, k)) => match ref_type_of_tag(t) {
            None => Err((Error::UnknownValueType(t), k)),
            Some(r) => shifted(k, parse_ref_type_rest(r, s.skip(k as int))),
        },
    }
}

impl RefType {
    /// The reference type that a tag selects, if any.
    pub fn from_bits(x: i8) -> (r: Option<RefType>)
        ensures
            r == ref_type_of_tag(x),
    {
        match x {
            ANYFUNCTYPE => Some(RefType::AnyFunc),
            ANYREFTYPE => Some(RefType::AnyRef),
            REFTYPE => Some(RefType::Ref(0)),
            _ => None,
        }
    }

    /// The tag of this reference type.
    pub fn to_bits(self) -> (r: i8)
        ensures
            r == ref_type_tag(self),
    {
        match self {
            RefType::AnyFunc => ANYFUNCTYPE,
            RefType::AnyRef => ANYREFTYPE,
            RefType::Ref(_) => REFTYPE,
        }
    }

    /// Reads the index of an indexed reference; other variants read nothing.
    pub fn read_rest(&mut self, r: &mut Reader) -> (res: Result<(), Error>)
        ensures
            follows(
                parse_ref_type_rest(*old(self), old(r).rest()),
                match res {
                    Ok(_) => Ok(*final(self)),
                    Err(e) => Err(e),
                },
                *old(r),
                *final(r),
            ),
    {
        match self {
            RefType::Ref(i) => {
                *i = read_var_u32(r)?;
            },
            _ => {
                proof {
                    assert(r.rest() =~= old(r).rest().skip(0));
                }
            },
        };
        Ok(())
    }

    /// Appends the index of an indexed reference; other variants write
    /// nothing.
    pub fn write_rest(&self, out: &mut Vec<u8>)
        ensures
            final(out)@ == old(out)@ + ref_type_rest_bytes(*self),
    {
        match self {
            RefType::Ref(i) => write_var_u32(out, *i),
            _ => {
                assert(out@ =~= old(out)@ + ref_type_rest_bytes(*self));
            },
        }
    }

    pub fn deserialize(r: &mut Reader) -> (res: Result<RefType, Error>)
        ensures
            follows(parse_ref_type(old(r).rest()), res, *old(r), *final(r)),
    {
        let val = read_var_i7(r)?;
        let mut item = match RefType::from_bits(val) {
            Some(item) => item,
            None => return Err(Error::UnknownValueType(val)),
        };
        let ghost mid = *r;
        let ghost start = item;
        let res = item.read_rest(r);
        proof {
            lemma_follows_after(
                1,
                parse_ref_type_rest(start, mid.rest()),
                match res {
                    Ok(_) => Ok(item),
                    Err(e) => Err(e),
                },
                *old(r),
                mid,
                *r,
            );
        }
        match res {
            Ok(_) => Ok(item),
            Err(e) => Err(e),
        }
    }

    pub fn serialize(self, out: &mut Vec<u8>)
        ensures
            final(out)@ == old(out)@ + ref_type_bytes(self),
    {
        write_var_i7(out, self.to_bits());
        self.write_rest(out);
        assert(out@ =~= old(out)@ + ref_type_bytes(self));
    }
}

// -------------------------------------------------------------- ValueType

/// Value type.
#[derive(Clone, Copy, Debug, PartialEq, Eq, Hash, Structural)]
pub enum ValueType {
    /// Number type
    Num(NumType),
    /// Reference type
    Ref(RefType),
    /// 128-bit SIMD register
    V128,
}

pub open spec fn value_type_tag(v: ValueType) -> i8 {
    match v {
        ValueType::V128 => V128TYPE,
        ValueType::Num(n) => num_type_tag(n),
        ValueType::Ref(r) => ref_type_tag(r),
    }
}

/// The value type that a tag selects: the vector type first, then the
/// number types, then the reference types.
pub open spec fn value_type_of_tag(t: i8) -> Option<ValueType> {
    if t == V128TYPE {
        Some(ValueType::V128)
    } else if num_type_of_tag(t) is Some {
        Some(ValueType::Num(num_type_of_tag(t)->0))
    } else if ref_type_of_tag(t) is Some {
        Some(ValueType::Ref(ref_type_of_tag(t)->0))
    } else {
        None
    }
}

pub open spec fn value_type_rest_bytes(v: ValueType) -> Seq<u8> {
    match v {
        ValueType::Ref(r) => ref_type_rest_bytes(r),
        _ => Seq::empty(),
    }
}

pub open spec fn value_type_bytes(v: ValueType) -> Seq<u8> {
    seq![i7_byte(value_type_tag(v))] + value_type_rest_bytes(v)
}

/// Reads what follows the tag of the value type `v`.
pub open spec fn parse_value_type_rest(v: ValueType, s: Seq<u8>) -> Parsed<ValueType> {
    match v {
        ValueType::Ref(r) => match parse_ref_type_rest(r, s) {
            Ok((r2, n)) => Ok((ValueType::Ref(r2), n)),
            Err(e) => Err(e),
        },
        _ => Ok((v, 0)),
    }
}

pub open spec fn parse_value_type(s: Seq<u8>) -> Parsed<ValueType> {
    match parse_var_i7(s) {
        Err(e) => Err(e),
        Ok((t, k)) => match value_type_of_tag(t) {
            None => Err((Error::UnknownValueType(t), k)),
            Some(v) => shifted(k, parse_value_type_rest(v, s.skip(k as int))),
        },
    }
}

impl ValueType {
    /// The value type that a tag selects, if any.
    pub fn from_bits(x: i8) -> (r: Option<ValueType>)
        ensures
            r == value_type_of_tag(x),
    {
        if x == V128TYPE {
            return Some(ValueType::V128);
        }
        match NumType::from_bits(x) {
            Some(n) => Some(ValueType::Num(n)),
            None => match RefType::from_bits(x) {
                Some(r) => Some(ValueType::Ref(r)),
                None => None,
            },
        }
    }

    /// The tag of this value type.
    pub fn to_bits(self) -> (r: i8)
        ensures
            r == value_type_tag(self),
    {
        match self {
            ValueType::V128 => V128TYPE,
            ValueType::Num(n) => n.to_bits(),
            ValueType::Ref(r) => r.to_bits(),
        }
    }

    /// Reads what follows the tag: the index of an indexed reference.
    pub fn read_rest(&mut self, r: &mut Reader) -> (res: Result<(), Error>)
        ensures
            follows(
                parse_value_type_rest(*old(self), old(r).rest()),
                match res {
                    Ok(_) => Ok(*final(self)),
                    Err(e) => Err(e),
                },
                *old(r),
                *final(r),
            ),
    {
        match self {
            ValueType::Ref(rt) => rt.read_rest(r),
            _ => {
                proof {
                    assert(r.rest() =~= old(r).rest().skip(0));
                }
                Ok(())
            },
        }
    }

    /// Appends what follows the tag: the index of an indexed reference.
    pub fn write_rest(&self, out: &mut Vec<u8>)
        ensures
            final(out)@ == old(out)@ + value_type_rest_bytes(*self),
    {
        match self {
            ValueType::Ref(rt) => rt.write_rest(out),
            _ => {
                assert(out@ =~= old(out)@ + value_type_rest_bytes(*self));
            },
        }
    }

    pub fn deserialize(r: &mut Reader) -> (res: Result<ValueType, Error>)
        ensures
            follows(parse_value_type(old(r).rest()), res, *old(r), *final(r)),
    {
        let val = read_var_i7(r)?;
        let mut item = match ValueType::from_bits(val) {
            Some(item) => item,
            None => return Err(Error::UnknownValueType(val)),
        };
        let ghost mid = *r;
        let ghost start = item;
        let res = item.read_rest(r);
        proof {
            lemma_follows_after(
                1,
                parse_value_type_rest(start, mid.rest()),
                match res {
                    Ok(_) => Ok(item),
                    Err(e) => Err(e),
                },
                *old(r),
                mid,
                *r,
            );
        }
        match res {
            Ok(_) => Ok(item),
            Err(e) => Err(e),
        }
    }

    pub fn serialize(self, out: &mut Vec<u8>)
        ensures
            final(out)@ == old(out)@ + value_type_bytes(self),
    {
        write_var_i7(out, self.to_bits());
        self.write_rest(out);
        assert(out@ =~= old(out)@ + value_type_bytes(self));
    }
}

impl From<RefType> for ValueType {
    fn from(r: RefType) -> (v: ValueType)
        ensures
            v == ValueType::Ref(r),
    {
        ValueType::Ref(r)
    }
}

impl vstd::std_specs::convert::FromSpecImpl<RefType> for ValueType {
    open spec fn obeys_from_spec() -> bool {
        true
    }

    open spec fn from_spec(r: RefType) -> ValueType {
        ValueType::Ref(r)
    }
}

impl From<NumType> for ValueType {
    fn from(n: NumType) -> (v: ValueType)
        ensures
            v == ValueType::Num(n),
    {
        ValueType::Num(n)
    }
}

impl vstd::std_specs::convert::FromSpecImpl<NumType> for ValueType {
    open spec fn obeys_from_spec() -> bool {
        true
    }

    open spec fn from_spec(n: NumType) -> ValueType {
        ValueType::Num(n)
    }
}

pub open spec fn digit_char(d: nat) -> char {
    seq!['0', '1', '2', '3', '4', '5', '6', '7', '8', '9'][d as int]
}

/// The decimal digits of `n`, most significant first, without leading
/// zeros.
pub open spec fn decimal(n: nat) -> Seq<char>
    decreases n,
{
    if n < 10 {
        seq![digit_char(n)]
    } else {
        decimal(n / 10).push(digit_char(n % 10))
    }
}

/// The text form of a value type.
pub open spec fn value_type_text(v: ValueType) -> Seq<char> {
    match v {
        ValueType::Num(NumType::I32) => seq!['i', '3', '2'],
        ValueType::Num(NumType::I64) => seq!['i', '6', '4'],
        ValueType::Num(NumType::F32) => seq!['f', '3', '2'],
        ValueType::Num(NumType::F64) => seq!['f', '6', '4'],
        ValueType::Ref(RefType::AnyRef) => seq!['a', 'n', 'y', 'r', 'e', 'f'],
        ValueType::Ref(RefType::AnyFunc) => seq!['a', 'n', 'y', 'f', 'u', 'n', 'c'],
        ValueType::Ref(RefType::Ref(idx)) => seq!['(', 'r', 'e', 'f', ' '] + decimal(idx as nat) + seq![')'],
        ValueType::V128 => seq!['v', '1', '2', '8'],
    }
}

fn digit_str(d: u32) -> (r: &'static str)
    requires
        d < 10,
    ensures
        r@ == seq![digit_char(d as nat)],
{
    match d {
        0 => {
            proof {
                reveal_strlit("0");
            }
            "0"
        },
        1 => {
            proof {
                reveal_strlit("1");
            }
            "1"
        },
        2 => {
            proof {
                reveal_strlit("2");
            }
            "2"
        },
        3 => {
            proof {
                reveal_strlit("3");
            }
            "3"
        },
        4 => {
            proof {
                reveal_strlit("4");
            }
            "4"
        },
        5 => {
            proof {
                reveal_strlit("5");
            }
            "5"
        },
        6 => {
            proof {
                reveal_strlit("6");
            }
            "6"
        },
        7 => {
            proof {
                reveal_strlit("7");
            }
            "7"
        },
        8 => {
            proof {
                reveal_strlit("8");
            }
            "8"
        },
        _ => {
            proof {
                reveal_strlit("9");
            }
            "9"
        },
    }
}

/// Appends the decimal digits of `n`.
fn push_decimal(text: &mut String, n: u32)
    ensures
        final(text)@ == old(text)@ + decimal(n as nat),
    decreases n,
{
    if n >= 10 {
        push_decimal(text, n / 10);
    }
    text.append(digit_str(n % 10));
    assert(text@ =~= old(text)@ + decimal(n as nat));
}

impl ValueType {
    /// The text form: `i32`, `anyfunc`, `(ref 7)` and so on.
    pub fn to_string(&self) -> (text: String)
        ensures
            text@ == value_type_text(*self),
    {
        match *self {
            ValueType::Num(NumType::I32) => {
                proof {
                    reveal_strlit("i32");
                }
                String::from_str("i32")
            },
            ValueType::Num(NumType::I64) => {
                proof {
                    reveal_strlit("i64");
                }
                String::from_str("i64")
            },
            ValueType::Num(NumType::F32) => {
                proof {
                    reveal_strlit("f32");
                }
                String::from_str("f32")
            },
            ValueType::Num(NumType::F64) => {
                proof {
                    reveal_strlit("f64");
                }
                String::from_str("f64")
            },
            ValueType::Ref(RefType::AnyRef) => {
                proof {
                    reveal_strlit("anyref");
                }
                String::from_str("anyref")
            },
            ValueType::Ref(RefType::AnyFunc) => {
                proof {
                    reveal_strlit("anyfunc");
                }
                String::from_str("anyfunc")
            },
            ValueType::Ref(RefType::Ref(idx)) => {
                proof {
                    reveal_strlit("(ref ");
                    reveal_strlit(")");
                }
                let mut text = String::from_str("(ref ");
                push_decimal(&mut text, idx);
                text.append(")");
                text
            },
            ValueType::V128 => {
                proof {
                    reveal_strlit("v128");
                }
                String::from_str("v128")
            },
        }
    }
}

// ------------------------------------------------------------ StorageType

/// Element type of a struct or array field: a value type, or a packed
/// integer narrower than any value type.
#[derive(Clone, Copy, Debug, PartialEq, Eq, Hash, Structural)]
pub enum StorageType {
    Value(ValueType),
    PackedI8,
    PackedI16,
}

pub open spec fn storage_type_bytes(st: StorageType) -> Seq<u8> {
    match st {
        StorageType::PackedI8 => seq![i7_byte(PACKEDI8TYPE)],
        StorageType::PackedI16 => seq![i7_byte(PACKEDI16TYPE)],
        StorageType::Value(v) => value_type_bytes(v),
    }
}

/// The packed widths are tried first, then the value type tags.
pub open spec fn parse_storage_type(s: Seq<u8>) -> Parsed<StorageType> {
    match parse_var_i7(s) {
        Err(e) => Err(e),
        Ok((t, k)) => if t == PACKEDI8TYPE {
            Ok((StorageType::PackedI8, k))
        } else if t == PACKEDI16TYPE {
            Ok((StorageType::PackedI16, k))
        } else {
            match value_type_of_tag(t) {
                None => Err((Error::UnknownValueType(t), k)),
                Some(v) => match shifted(k, parse_value_type_rest(v, s.skip(k as int))) {
                    Ok((v2, n)) => Ok((StorageType::Value(v2), n)),
                    Err(e) => Err(e),
                },
            }
        },
    }
}

/// Reads the rest of a value type whose tag has been read, and wraps it as
/// a storage type.
fn read_value_rest_as_storage(mut item: ValueType, r: &mut Reader) -> (res: Result<
    StorageType,
    Error,
>)
    ensures
        follows(
            match parse_value_type_rest(item, old(r).rest()) {
                Ok((v, n)) => Ok((StorageType::Value(v), n)),
                Err(e) => Err(e),
            },
            res,
            *old(r),
            *final(r),
        ),
{
    match item.read_rest(r) {
        Ok(_) => Ok(StorageType::Value(item)),
        Err(e) => Err(e),
    }
}

impl StorageType {
    pub fn deserialize(r: &mut Reader) -> (res: Result<StorageType, Error>)
        ensures
            follows(parse_storage_type(old(r).rest()), res, *old(r), *final(r)),
    {
        let val = read_var_i7(r)?;
        if val == PACKEDI8TYPE {
            Ok(StorageType::PackedI8)
        } else if val == PACKEDI16TYPE {
            Ok(StorageType::PackedI16)
        } else {
            match ValueType::from_bits(val) {
                Some(item) => {
                    let ghost mid = *r;
                    let res = read_value_rest_as_storage(item, r);
                    proof {
                        lemma_follows_after(
                            1,
                            match parse_value_type_rest(item, mid.rest()) {
                                Ok((v, n)) => Ok((StorageType::Value(v), n)),
                                Err(e) => Err(e),
                            },
                            res,
                            *old(r),
                            mid,
                            *r,
                        );
                    }
                    res
                },
                None => Err(Error::UnknownValueType(val)),
            }
        }
    }

    pub fn serialize(self, out: &mut Vec<u8>)
        ensures
            final(out)@ == old(out)@ + storage_type_bytes(self),
    {
        match self {
            StorageType::PackedI8 => write_var_i7(out, PACKEDI8TYPE),
            StorageType::PackedI16 => write_var_i7(out, PACKEDI16TYPE),
            StorageType::Value(val) => {
                write_var_i7(out, val.to_bits());
                val.write_rest(out);
            },
        }
        assert(out@ =~= old(out)@ + storage_type_bytes(self));
    }
}

// -------------------------------------------------------------- BlockType

/// Block type which is basically `ValueType` + NoResult (to define blocks
/// that have no return type)
#[derive(Clone, Copy, Debug, PartialEq, Eq, Hash, Structural)]
pub enum BlockType {
    /// Value-type specified block type
    Value(ValueType),
    /// No specified block type
    NoResult,
}

pub open spec fn block_type_bytes(b: BlockType) -> Seq<u8> {
    match b {
        BlockType::NoResult => seq![i7_byte(NORESULTTYPE)],
        BlockType::Value(v) => value_type_bytes(v),
    }
}

pub open spec fn parse_block_type(s: Seq<u8>) -> Parsed<BlockType> {
    match parse_var_i7(s) {
        Err(e) => Err(e),
        Ok((t, k)) => if t == NORESULTTYPE {
            Ok((BlockType::NoResult, k))
        } else {
            match value_type_of_tag(t) {
                None => Err((Error::UnknownValueType(t), k)),
                Some(v) => match shifted(k, parse_value_type_rest(v, s.skip(k as int))) {
                    Ok((v2, n)) => Ok((BlockType::Value(v2), n)),
                    Err(e) => Err(e),
                },
            }
        },
    }
}

impl BlockType {
    pub fn deserialize(r: &mut Reader) -> (res: Result<BlockType, Error>)
        ensures
            follows(parse_block_type(old(r).rest()), res, *old(r), *final(r)),
    {
        let val = read_var_i7(r)?;
        if val == NORESULTTYPE {
            return Ok(BlockType::NoResult);
        }
        match ValueType::from_bits(val) {
            Some(item) => {
                let ghost mid = *r;
                let ghost start = item;
                let mut item = item;
                let res = item.read_rest(r);
                let out = match res {
                    Ok(_) => Ok(BlockType::Value(item)),
                    Err(e) => Err(e),
                };
                proof {
                    lemma_follows_after(
                        1,
                        match parse_value_type_rest(start, mid.rest()) {
                            Ok((v, n)) => Ok((BlockType::Value(v), n)),
                            Err(e) => Err(e),
                        },
                        out,
                        *old(r),
                        mid,
                        *r,
                    );
                }
                out
            },
            None => Err(Error::UnknownValueType(val)),
        }
    }

    pub fn serialize(self, out: &mut Vec<u8>)
        ensures
            final(out)@ == old(out)@ + block_type_bytes(self),
    {
        match self {
            BlockType::NoResult => write_var_i7(out, NORESULTTYPE),
            BlockType::Value(v) => v.serialize(out),
        }
        assert(out@ =~= old(out)@ + block_type_bytes(self));
    }
}

} // verus!
