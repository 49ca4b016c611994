//! Aggregate type definitions: function signatures, struct and array
//! layouts, and the tagged union of type-section entries.
use vstd::prelude::*;
use crate::codec::{
    Error, Parsed, Reader, shifted, advanced, follows, prepended, view_result, lemma_advanced_trans,
    lemma_follows_after, i7_byte, bool_byte, parse_byte, parse_var_i7, parse_var_u1, parse_var_u32,
    parse_list, parse_counted, list_bytes, counted_bytes, read_var_i7, write_var_i7, read_var_u1,
    write_var_u1, read_var_u32, write_var_u32, RETURN_ARITY_MESSAGE,
};
use crate::types::{
    ValueType, StorageType, parse_value_type, value_type_bytes, parse_storage_type,
    storage_type_bytes, FUNCTIONTYPE, STRUCTTYPE, ARRAYTYPE,
};

verus! {

/// The form byte that starts a function type in the baseline dialect.
pub const FUNCTION_FORM: u8 = 0x60;

// -------------------------------------------------------------- FieldType

/// Field type: an element type and whether the field can be written.
#[derive(Clone, Copy, Debug, PartialEq, Eq, Hash, Structural)]
pub struct FieldType {
    pub elem: StorageType,
    pub mutable: bool,
}

/// The mutability flag, then the element type.
pub open spec fn field_type_bytes(f: FieldType) -> Seq<u8> {
    seq![bool_byte(f.mutable)] + storage_type_bytes(f.elem)
}

pub open spec fn parse_field_type(s: Seq<u8>) -> Parsed<FieldType> {
    match parse_var_u1(s) {
        Err(e) => Err(e),
        Ok((mutable, k)) => match parse_storage_type(s.skip(k as int)) {
            Ok((elem, n)) => Ok((FieldType { elem, mutable }, k + n)),
            Err((e, n)) => Err((e, k + n)),
        },
    }
}

pub open spec fn field_type_parser() -> spec_fn(Seq<u8>) -> Parsed<FieldType> {
    |s: Seq<u8>| parse_field_type(s)
}

pub open spec fn field_type_encoder() -> spec_fn(FieldType) -> Seq<u8> {
    |f: FieldType| field_type_bytes(f)
}

impl FieldType {
    pub fn new(elem: StorageType, mutable: bool) -> (r: FieldType)
        ensures
            r == (FieldType { elem, mutable }),
    {
        FieldType { elem, mutable }
    }

    /// The element type.
    pub fn elem(&self) -> (r: StorageType)
        ensures
            r == self.elem,
    {
        self.elem
    }

    /// Whether the field can be written.
    pub fn is_mutable(&self) -> (r: bool)
        ensures
            r == self.mutable,
    {
        self.mutable
    }

    pub fn deserialize(r: &mut Reader) -> (res: Result<FieldType, Error>)
        ensures
            follows(parse_field_type(old(r).rest()), res, *old(r), *final(r)),
    {
        let mutable = read_var_u1(r)?;
        let ghost mid = *r;
        let elem = StorageType::deserialize(r);
        let res = match elem {
            Ok(elem) => Ok(FieldType { elem, mutable }),
            Err(e) => Err(e),
        };
        proof {
            lemma_follows_after(
                1,
                match parse_storage_type(mid.rest()) {
                    Ok((elem, n)) => Ok((FieldType { elem, mutable }, n)),
                    Err((e, n)) => Err((e, n)),
                },
                res,
                *old(r),
                mid,
                *r,
            );
        }
        res
    }

    pub fn serialize(self, out: &mut Vec<u8>)
        ensures
            final(out)@ == old(out)@ + field_type_bytes(self),
    {
        write_var_u1(out, self.mutable);
        self.elem.serialize(out);
        assert(out@ =~= old(out)@ + field_type_bytes(self));
    }
}

// ------------------------------------------------------------- StructType

/// Structure type: its fields, in order.
#[derive(Debug, Clone, PartialEq, Eq, Hash)]
pub struct StructType {
    fields: Vec<FieldType>,
}

impl View for StructType {
    type V = Seq<FieldType>;

    closed spec fn view(&self) -> Seq<FieldType> {
        self.fields@
    }
}

pub open spec fn struct_type_bytes(fields: Seq<FieldType>) -> Seq<u8> {
    counted_bytes(fields, field_type_encoder())
}

pub open spec fn parse_struct_type(s: Seq<u8>) -> Parsed<Seq<FieldType>> {
    parse_counted(s, field_type_parser())
}

/// Reads a length-prefixed sequence of field types.
fn read_field_types(r: &mut Reader) -> (res: Result<Vec<FieldType>, Error>)
    ensures
        follows(parse_counted(old(r).rest(), field_type_parser()), view_result(res), *old(r), *final(r)),
{
    let count = read_var_u32(r)?;
    let ghost r0 = *r;
    let ghost k0 = (parse_var_u32(old(r).rest()) -> Ok_0).1;
    let ghost mut consumed: nat = 0;
    let mut items: Vec<FieldType> = Vec::new();
    let mut i: u32 = 0;
    proof {
        match parse_list(r0.rest(), count as nat, field_type_parser()) {
            Ok((vs, _)) => assert(Seq::<FieldType>::empty() + vs =~= vs),
            Err(_) => {},
        }
        assert(r0.rest() =~= r0.rest().skip(0));
        assert(r0.rest() =~= old(r).rest().skip(k0 as int));
    }
    while i < count
        invariant
            i <= count,
            items@.len() == i,
            advanced(*old(r), r0, k0),
            parse_counted(old(r).rest(), field_type_parser()) == shifted(
                k0,
                parse_list(r0.rest(), count as nat, field_type_parser()),
            ),
            advanced(r0, *r, consumed),
            parse_list(r0.rest(), count as nat, field_type_parser()) == prepended(
                items@,
                consumed,
                parse_list(r.rest(), (count - i) as nat, field_type_parser()),
            ),
        decreases count - i,
    {
        let ghost before = *r;
        let ghost prev = items@;
        let item = FieldType::deserialize(r);
        let ghost k = match field_type_parser()(before.rest()) {
            Ok((_, k)) => k,
            Err((_, k)) => k,
        };
        proof {
            lemma_advanced_trans(r0, before, *r, consumed, k);
        }
        match item {
            Ok(v) => {
                proof {
                    assert(before.rest().skip(k as int) == r.rest());
                    match parse_list(r.rest(), (count - i - 1) as nat, field_type_parser()) {
                        Ok((vs, _)) => assert(prev + (seq![v] + vs) =~= prev.push(v) + vs),
                        Err(_) => {},
                    }
                    consumed = consumed + k;
                }
                items.push(v);
                i = i + 1;
            },
            Err(e) => {
                proof {
                    lemma_follows_after(
                        k0,
                        parse_list(r0.rest(), count as nat, field_type_parser()),
                        view_result(Err::<Vec<FieldType>, Error>(e)),
                        *old(r),
                        r0,
                        *r,
                    );
                }
                return Err(e);
            },
        }
    }
    proof {
        assert(items@ + Seq::<FieldType>::empty() =~= items@);
        lemma_follows_after(
            k0,
            parse_list(r0.rest(), count as nat, field_type_parser()),
            view_result(Ok::<Vec<FieldType>, Error>(items)),
            *old(r),
            r0,
            *r,
        );
    }
    Ok(items)
}

/// Appends a length-prefixed sequence of field types.
fn write_field_types(items: &Vec<FieldType>, out: &mut Vec<u8>)
    requires
        items@.len() <= u32::MAX,
    ensures
        final(out)@ == old(out)@ + counted_bytes(items@, field_type_encoder()),
{
    write_var_u32(out, items.len() as u32);
    let mut i: usize = 0;
    proof {
        assert(items@.skip(0) =~= items@);
    }
    while i < items.len()
        invariant
            i <= items@.len(),
            old(out)@ + counted_bytes(items@, field_type_encoder()) == out@ + list_bytes(items@.skip(i as int), field_type_encoder()),
        decreases items.len() - i,
    {
        let ghost prev = out@;
        proof {
            assert(items@.skip(i as int).drop_first() =~= items@.skip(i + 1 as int));
        }
        items[i].serialize(out);
        i = i + 1;
    }
    proof {
        assert(list_bytes(items@.skip(i as int), field_type_encoder()) =~= Seq::<u8>::empty());
    }
}

impl StructType {
    pub fn new(fields: Vec<FieldType>) -> (r: StructType)
        ensures
            r@ == fields@,
    {
        StructType { fields }
    }

    /// The fields, in order.
    pub fn fields(&self) -> (r: &[FieldType])
        ensures
            r@ == self@,
    {
        self.fields.as_slice()
    }

    pub fn deserialize(r: &mut Reader) -> (res: Result<StructType, Error>)
        ensures
            follows(parse_struct_type(old(r).rest()), view_result(res), *old(r), *final(r)),
    {
        match read_field_types(r) {
            Ok(fields) => Ok(StructType { fields }),
            Err(e) => Err(e),
        }
    }

    pub fn serialize(self, out: &mut Vec<u8>)
        requires
            self@.len() <= u32::MAX,
        ensures
            final(out)@ == old(out)@ + struct_type_bytes(self@),
    {
        write_field_types(&self.fields, out);
    }
}

// -------------------------------------------------------------- ArrayType

/// Array type: one field type that every element has.
#[derive(Clone, Copy, Debug, PartialEq, Eq, Hash, Structural)]
pub struct ArrayType {
    pub elem: FieldType,
}

/// The element's field type, with no count before it.
pub open spec fn array_type_bytes(a: ArrayType) -> Seq<u8> {
    field_type_bytes(a.elem)
}

pub open spec fn parse_array_type(s: Seq<u8>) -> Parsed<ArrayType> {
    match parse_field_type(s) {
        Ok((elem, n)) => Ok((ArrayType { elem }, n)),
        Err(e) => Err(e),
    }
}

impl ArrayType {
    pub fn new(elem: FieldType) -> (r: ArrayType)
        ensures
            r == (ArrayType { elem }),
    {
        ArrayType { elem }
    }

    /// The field type of the elements.
    pub fn elem(&self) -> (r: FieldType)
        ensures
            r == self.elem,
    {
        self.elem
    }

    pub fn deserialize(r: &mut Reader) -> (res: Result<ArrayType, Error>)
        ensures
            follows(parse_array_type(old(r).rest()), res, *old(r), *final(r)),
    {
        match FieldType::deserialize(r) {
            Ok(elem) => Ok(ArrayType { elem }),
            Err(e) => Err(e),
        }
    }

    pub fn serialize(self, out: &mut Vec<u8>)
        ensures
            final(out)@ == old(out)@ + array_type_bytes(self),
    {
        self.elem.serialize(out);
    }
}

// ----------------------------------------------------------- FunctionType

pub open spec fn value_type_parser() -> spec_fn(Seq<u8>) -> Parsed<ValueType> {
    |s: Seq<u8>| parse_value_type(s)
}

pub open spec fn value_type_encoder() -> spec_fn(ValueType) -> Seq<u8> {
    |v: ValueType| value_type_bytes(v)
}

/// What a function signature is: its parameters in order and its result,
/// if it has one.
pub struct FunctionTypeView {
    pub params: Seq<ValueType>,
    pub return_type: Option<ValueType>,
}

/// Function signature type.
#[derive(Debug, Clone, PartialEq, Eq, Hash)]
pub struct FunctionType {
    params: Vec<ValueType>,
    return_type: Option<ValueType>,
}

impl View for FunctionType {
    type V = FunctionTypeView;

    closed spec fn view(&self) -> FunctionTypeView {
        FunctionTypeView { params: self.params@, return_type: self.return_type }
    }
}

/// The parameters as a length-prefixed sequence, then a presence flag, then
/// the result type if there is one.
pub open spec fn function_type_bytes(f: FunctionTypeView) -> Seq<u8> {
    counted_bytes(f.params, value_type_encoder()) + match f.return_type {
        Some(v) => seq![bool_byte(true)] + value_type_bytes(v),
        None => seq![bool_byte(false)],
    }
}

/// The parameters, then the number of results, which must be 0 or 1, then
/// the result type if there is one.
pub open spec fn parse_function_type(s: Seq<u8>) -> Parsed<FunctionTypeView> {
    match parse_counted(s, value_type_parser()) {
        Err(e) => Err(e),
        Ok((params, k)) => match parse_var_u32(s.skip(k as int)) {
            Err((e, m)) => Err((e, k + m)),
            Ok((count, m)) => if count == 1 {
                match parse_value_type(s.skip((k + m) as int)) {
                    Ok((v, n)) => Ok((FunctionTypeView { params, return_type: Some(v) }, k + m + n)),
                    Err((e, n)) => Err((e, k + m + n)),
                }
            } else if count == 0 {
                Ok((FunctionTypeView { params, return_type: None }, k + m))
            } else {
                Err((Error::Other(RETURN_ARITY_MESSAGE), k + m))
            },
        },
    }
}

/// Baseline dialect: the function form byte, then the signature.
pub open spec fn function_type_baseline_bytes(f: FunctionTypeView) -> Seq<u8> {
    seq![FUNCTION_FORM] + function_type_bytes(f)
}

/// Baseline dialect: a form byte that must be the function form, then the
/// signature.
pub open spec fn parse_function_type_baseline(s: Seq<u8>) -> Parsed<FunctionTypeView> {
    match parse_byte(s) {
        Err(e) => Err(e),
        Ok((form, k)) => if form != FUNCTION_FORM {
            Err((Error::UnknownFunctionForm(form), k))
        } else {
            shifted(k, parse_function_type(s.skip(k as int)))
        },
    }
}

/// Reads a length-prefixed sequence of value types.
fn read_value_types(r: &mut Reader) -> (res: Result<Vec<ValueType>, Error>)
    ensures
        follows(parse_counted(old(r).rest(), value_type_parser()), view_result(res), *old(r), *final(r)),
{
    let count = read_var_u32(r)?;
    let ghost r0 = *r;
    let ghost k0 = (parse_var_u32(old(r).rest()) -> Ok_0).1;
    let ghost mut consumed: nat = 0;
    let mut items: Vec<ValueType> = Vec::new();
    let mut i: u32 = 0;
    proof {
        match parse_list(r0.rest(), count as nat, value_type_parser()) {
            Ok((vs, _)) => assert(Seq::<ValueType>::empty() + vs =~= vs),
            Err(_) => {},
        }
        assert(r0.rest() =~= r0.rest().skip(0));
        assert(r0.rest() =~= old(r).rest().skip(k0 as int));
    }
    while i < count
        invariant
            i <= count,
            items@.len() == i,
            advanced(*old(r), r0, k0),
            parse_counted(old(r).rest(), value_type_parser()) == shifted(
                k0,
                parse_list(r0.rest(), count as nat, value_type_parser()),
            ),
            advanced(r0, *r, consumed),
            parse_list(r0.rest(), count as nat, value_type_parser()) == prepended(
                items@,
                consumed,
                parse_list(r.rest(), (count - i) as nat, value_type_parser()),
            ),
        decreases count - i,
    {
        let ghost before = *r;
        let ghost prev = items@;
        let item = ValueType::deserialize(r);
        let ghost k = match value_type_parser()(before.rest()) {
            Ok((_, k)) => k,
            Err((_, k)) => k,
        };
        proof {
            lemma_advanced_trans(r0, before, *r, consumed, k);
        }
        match item {
            Ok(v) => {
                proof {
                    assert(before.rest().skip(k as int) == r.rest());
                    match parse_list(r.rest(), (count - i - 1) as nat, value_type_parser()) {
                        Ok((vs, _)) => assert(prev + (seq![v] + vs) =~= prev.push(v) + vs),
                        Err(_) => {},
                    }
                    consumed = consumed + k;
                }
                items.push(v);
                i = i + 1;
            },
            Err(e) => {
                proof {
                    lemma_follows_after(
                        k0,
                        parse_list(r0.rest(), count as nat, value_type_parser()),
                        view_result(Err::<Vec<ValueType>, Error>(e)),
                        *old(r),
                        r0,
                        *r,
                    );
                }
                return Err(e);
            },
        }
    }
    proof {
        assert(items@ + Seq::<ValueType>::empty() =~= items@);
        lemma_follows_after(
            k0,
            parse_list(r0.rest(), count as nat, value_type_parser()),
            view_result(Ok::<Vec<ValueType>, Error>(items)),
            *old(r),
            r0,
            *r,
        );
    }
    Ok(items)
}

/// Appends a length-prefixed sequence of value types.
fn write_value_types(items: &Vec<ValueType>, out: &mut Vec<u8>)
    requires
        items@.len() <= u32::MAX,
    ensures
        final(out)@ == old(out)@ + counted_bytes(items@, value_type_encoder()),
{
    write_var_u32(out, items.len() as u32);
    let mut i: usize = 0;
    proof {
        assert(items@.skip(0) =~= items@);
    }
    while i < items.len()
        invariant
            i <= items@.len(),
            old(out)@ + counted_bytes(items@, value_type_encoder()) == out@ + list_bytes(items@.skip(i as int), value_type_encoder()),
        decreases items.len() - i,
    {
        let ghost prev = out@;
        proof {
            assert(items@.skip(i as int).drop_first() =~= items@.skip(i + 1 as int));
        }
        items[i].serialize(out);
        i = i + 1;
    }
    proof {
        assert(list_bytes(items@.skip(i as int), value_type_encoder()) =~= Seq::<u8>::empty());
    }
}


impl Default for FunctionType {
    fn default() -> (r: FunctionType)
        ensures
            r@.params == Seq::<ValueType>::empty(),
            r@.return_type is None,
    {
        FunctionType { params: Vec::new(), return_type: None }
    }
}

impl FunctionType {
    /// New function type given the signature in-params(`params`) and return
    /// type (`return_type`)
    pub fn new(params: Vec<ValueType>, return_type: Option<ValueType>) -> (r: FunctionType)
        ensures
            r@ == (FunctionTypeView { params: params@, return_type }),
    {
        FunctionType { params, return_type }
    }

    /// Parameters in the function signature.
    pub fn params(&self) -> (r: &[ValueType])
        ensures
            r@ == self@.params,
    {
        self.params.as_slice()
    }

    /// Mutable parameters in the function signature.
    pub fn params_mut(&mut self) -> (r: &mut Vec<ValueType>)
        ensures
            r@ == old(self)@.params,
            final(self)@ == (FunctionTypeView {
                params: final(r)@,
                return_type: old(self)@.return_type,
            }),
    {
        &mut self.params
    }

    /// Return type in the function signature, if any.
    pub fn return_type(&self) -> (r: Option<ValueType>)
        ensures
            r == self@.return_type,
    {
        self.return_type
    }

    /// Mutable type in the function signature, if any.
    pub fn return_type_mut(&mut self) -> (r: &mut Option<ValueType>)
        ensures
            *r == old(self)@.return_type,
            final(self)@ == (FunctionTypeView {
                params: old(self)@.params,
                return_type: *final(r),
            }),
    {
        &mut self.return_type
    }

    pub fn deserialize(r: &mut Reader) -> (res: Result<FunctionType, Error>)
        ensures
            follows(parse_function_type(old(r).rest()), view_result(res), *old(r), *final(r)),
    {
        let params = read_value_types(r)?;
        let ghost k = old(r).rest().len() - r.rest().len();
        let ghost r1 = *r;
        let counted = read_var_u32(r);
        let ghost r2 = *r;
        let ghost m = r1.rest().len() - r2.rest().len();
        proof {
            lemma_advanced_trans(*old(r), r1, r2, k as nat, m as nat);
        }
        let return_types = match counted {
            Ok(c) => c,
            Err(e) => return Err(e),
        };
        if return_types == 1 {
            let ghost s = old(r).rest();
            match ValueType::deserialize(r) {
                Ok(v) => {
                    proof {
                        let n = (parse_value_type(r2.rest()) -> Ok_0).1;
                        lemma_advanced_trans(*old(r), r2, *r, (k + m) as nat, n);
                        assert(s.skip(k + m) == r2.rest());
                    }
                    Ok(FunctionType { params, return_type: Some(v) })
                },
                Err(e) => {
                    proof {
                        let n = (parse_value_type(r2.rest()) -> Err_0).1;
                        lemma_advanced_trans(*old(r), r2, *r, (k + m) as nat, n);
                        assert(s.skip(k + m) == r2.rest());
                    }
                    Err(e)
                },
            }
        } else if return_types == 0 {
            Ok(FunctionType { params, return_type: None })
        } else {
            Err(Error::Other(RETURN_ARITY_MESSAGE))
        }
    }

    pub fn serialize(self, out: &mut Vec<u8>)
        requires
            self@.params.len() <= u32::MAX,
        ensures
            final(out)@ == old(out)@ + function_type_bytes(self@),
    {
        write_value_types(&self.params, out);
        match self.return_type {
            Some(v) => {
                write_var_u1(out, true);
                v.serialize(out);
            },
            None => write_var_u1(out, false),
        }
        assert(out@ =~= old(out)@ + function_type_bytes(self@));
    }

    /// Reads a function type in the baseline dialect, where a form byte
    /// precedes the signature.
    pub fn deserialize_baseline(r: &mut Reader) -> (res: Result<FunctionType, Error>)
        ensures
            follows(parse_function_type_baseline(old(r).rest()), view_result(res), *old(r), *final(r)),
    {
        let form = r.read_byte()?;
        if form != FUNCTION_FORM {
            return Err(Error::UnknownFunctionForm(form));
        }
        let ghost mid = *r;
        let res = FunctionType::deserialize(r);
        proof {
            lemma_follows_after(
                1,
                parse_function_type(mid.rest()),
                view_result(res),
                *old(r),
                mid,
                *r,
            );
        }
        res
    }

    /// Appends a function type in the baseline dialect, with its form byte.
    pub fn serialize_baseline(self, out: &mut Vec<u8>)
        requires
            self@.params.len() <= u32::MAX,
        ensures
            final(out)@ == old(out)@ + function_type_baseline_bytes(self@),
    {
        out.push(FUNCTION_FORM);
        self.serialize(out);
        assert(out@ =~= old(out)@ + function_type_baseline_bytes(self@));
    }
}

// ------------------------------------------------------------------- Type

/// What a type-section entry is.
pub enum TypeView {
    Function(FunctionTypeView),
    Struct(Seq<FieldType>),
    Array(ArrayType),
}

/// Type definition in types section.
#[derive(Debug, Clone, PartialEq, Eq, Hash)]
pub enum Type {
    /// Function type.
    Function(FunctionType),
    /// Structure type.
    Struct(StructType),
    /// ArrayType.
    Array(ArrayType),
}

impl View for Type {
    type V = TypeView;

    open spec fn view(&self) -> TypeView {
        match self {
            Type::Function(f) => TypeView::Function(f@),
            Type::Struct(st) => TypeView::Struct(st@),
            Type::Array(a) => TypeView::Array(*a),
        }
    }
}

impl From<FunctionType> for Type {
    fn from(x: FunctionType) -> (r: Type)
        ensures
            r == Type::Function(x),
    {
        Type::Function(x)
    }
}

impl vstd::std_specs::convert::FromSpecImpl<FunctionType> for Type {
    open spec fn obeys_from_spec() -> bool {
        true
    }

    open spec fn from_spec(x: FunctionType) -> Type {
        Type::Function(x)
    }
}

impl From<StructType> for Type {
    fn from(x: StructType) -> (r: Type)
        ensures
            r == Type::Struct(x),
    {
        Type::Struct(x)
    }
}

impl vstd::std_specs::convert::FromSpecImpl<StructType> for Type {
    open spec fn obeys_from_spec() -> bool {
        true
    }

    open spec fn from_spec(x: StructType) -> Type {
        Type::Struct(x)
    }
}

impl From<ArrayType> for Type {
    fn from(x: ArrayType) -> (r: Type)
        ensures
            r == Type::Array(x),
    {
        Type::Array(x)
    }
}

impl vstd::std_specs::convert::FromSpecImpl<ArrayType> for Type {
    open spec fn obeys_from_spec() -> bool {
        true
    }

    open spec fn from_spec(x: ArrayType) -> Type {
        Type::Array(x)
    }
}

/// Whether every length-prefixed sequence in `t` has a count that fits the
/// 32-bit count field.
pub open spec fn type_encodable(t: TypeView) -> bool {
    match t {
        TypeView::Function(f) => f.params.len() <= u32::MAX,
        TypeView::Struct(fields) => fields.len() <= u32::MAX,
        TypeView::Array(_) => true,
    }
}

/// The discriminant of the variant, then the variant's own encoding.
pub open spec fn type_bytes(t: TypeView) -> Seq<u8> {
    match t {
        TypeView::Function(f) => seq![i7_byte(FUNCTIONTYPE)] + function_type_bytes(f),
        TypeView::Struct(fields) => seq![i7_byte(STRUCTTYPE)] + struct_type_bytes(fields),
        TypeView::Array(a) => seq![i7_byte(ARRAYTYPE)] + array_type_bytes(a),
    }
}

pub open spec fn parse_type(s: Seq<u8>) -> Parsed<TypeView> {
    match parse_var_i7(s) {
        Err(e) => Err(e),
        Ok((t, k)) => if t == FUNCTIONTYPE {
            match shifted(k, parse_function_type(s.skip(k as int))) {
                Ok((f, n)) => Ok((TypeView::Function(f), n)),
                Err(e) => Err(e),
            }
        } else if t == STRUCTTYPE {
            match shifted(k, parse_struct_type(s.skip(k as int))) {
                Ok((fields, n)) => Ok((TypeView::Struct(fields), n)),
                Err(e) => Err(e),
            }
        } else if t == ARRAYTYPE {
            match shifted(k, parse_array_type(s.skip(k as int))) {
                Ok((a, n)) => Ok((TypeView::Array(a), n)),
                Err(e) => Err(e),
            }
        } else {
            Err((Error::UnknownValueType(t), k))
        },
    }
}

/// Baseline dialect: the only entry is a function type, whose form byte
/// selects it.
pub open spec fn parse_type_baseline(s: Seq<u8>) -> Parsed<TypeView> {
    match parse_function_type_baseline(s) {
        Ok((f, n)) => Ok((TypeView::Function(f), n)),
        Err(e) => Err(e),
    }
}

impl Type {
    /// Reads an entry in the baseline dialect: a function type with its
    /// form byte.
    pub fn deserialize_baseline(r: &mut Reader) -> (res: Result<Type, Error>)
        ensures
            follows(parse_type_baseline(old(r).rest()), view_result(res), *old(r), *final(r)),
    {
        match FunctionType::deserialize_baseline(r) {
            Ok(f) => Ok(Type::Function(f)),
            Err(e) => Err(e),
        }
    }

    /// Appends an entry in the baseline dialect, where only function types
    /// exist.
    pub fn serialize_baseline(self, out: &mut Vec<u8>)
        requires
            self@ is Function,
            type_encodable(self@),
        ensures
            final(out)@ == old(out)@ + function_type_baseline_bytes(self@->Function_0),
    {
        if let Type::Function(f) = self {
            f.serialize_baseline(out);
        }
    }

    pub fn deserialize(r: &mut Reader) -> (res: Result<Type, Error>)
        ensures
            follows(parse_type(old(r).rest()), view_result(res), *old(r), *final(r)),
    {
        let val = read_var_i7(r)?;
        let ghost mid = *r;
        if val == FUNCTIONTYPE {
            let inner = FunctionType::deserialize(r);
            proof {
                lemma_follows_after(1, parse_function_type(mid.rest()), view_result(inner), *old(r), mid, *r);
            }
            match inner {
                Ok(f) => Ok(Type::Function(f)),
                Err(e) => Err(e),
            }
        } else if val == STRUCTTYPE {
            let inner = StructType::deserialize(r);
            proof {
                lemma_follows_after(1, parse_struct_type(mid.rest()), view_result(inner), *old(r), mid, *r);
            }
            match inner {
                Ok(st) => Ok(Type::Struct(st)),
                Err(e) => Err(e),
            }
        } else if val == ARRAYTYPE {
            let inner = ArrayType::deserialize(r);
            proof {
                lemma_follows_after(1, parse_array_type(mid.rest()), inner, *old(r), mid, *r);
            }
            match inner {
                Ok(a) => Ok(Type::Array(a)),
                Err(e) => Err(e),
            }
        } else {
            Err(Error::UnknownValueType(val))
        }
    }

    pub fn serialize(self, out: &mut Vec<u8>)
        requires
            type_encodable(self@),
        ensures
            final(out)@ == old(out)@ + type_bytes(self@),
    {
        match self {
            Type::Function(f) => {
                write_var_i7(out, FUNCTIONTYPE);
                f.serialize(out);
            },
            Type::Struct(st) => {
                write_var_i7(out, STRUCTTYPE);
                st.serialize(out);
            },
            Type::Array(a) => {
                write_var_i7(out, ARRAYTYPE);
                a.serialize(out);
            },
        }
        assert(out@ =~= old(out)@ + type_bytes(self@));
    }
}

} // verus!
