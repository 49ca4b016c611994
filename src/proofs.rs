//! What holds of the encoding as a whole: every value reads back as itself,
//! unknown tags are refused where they stand, and distinct values have
//! distinct encodings.
use vstd::prelude::*;
use crate::codec::{
    Error, i7_of, parse_var_u32, var_u32_bytes, inverts, lemma_var_u32_round_trip,
    lemma_counted_round_trip, counted_bytes, RETURN_ARITY_MESSAGE,
};
use crate::types::{
    NumType, RefType, ValueType, StorageType, BlockType, num_type_of_tag, num_type_tag,
    ref_type_bytes, parse_ref_type, ref_type_of_tag, value_type_bytes, value_type_rest_bytes,
    parse_value_type, value_type_of_tag, storage_type_bytes, parse_storage_type, block_type_bytes,
    parse_block_type, PACKEDI8TYPE, PACKEDI16TYPE, NORESULTTYPE, FUNCTIONTYPE, STRUCTTYPE,
    ARRAYTYPE,
};
use crate::aggregate::{
    FieldType, ArrayType, FunctionTypeView, TypeView, field_type_bytes, parse_field_type,
    field_type_parser, field_type_encoder, struct_type_bytes, parse_struct_type, array_type_bytes,
    parse_array_type, function_type_bytes, parse_function_type, function_type_baseline_bytes,
    parse_function_type_baseline, value_type_parser, value_type_encoder, type_bytes, parse_type,
    type_encodable, FUNCTION_FORM,
};

verus! {

/// The tag table of number types is the inverse of their tags.
pub proof fn lemma_num_type_round_trip(n: NumType)
    ensures
        num_type_of_tag(num_type_tag(n)) == Some(n),
{
}

/// A reference type reads back as itself, index included, and takes
/// exactly the bytes of its encoding.
pub proof fn lemma_ref_type_round_trip(r: RefType, rest: Seq<u8>)
    ensures
        parse_ref_type(ref_type_bytes(r) + rest) == Ok::<(RefType, nat), (Error, nat)>(
            (r, ref_type_bytes(r).len()),
        ),
{
    let s = ref_type_bytes(r) + rest;
    if let RefType::Ref(i) = r {
        assert(s.skip(1) =~= var_u32_bytes(i as nat) + rest);
        lemma_var_u32_round_trip(i, rest);
    }
}

/// A value type reads back as itself and takes exactly the bytes of its
/// encoding.
pub proof fn lemma_value_type_round_trip(v: ValueType, rest: Seq<u8>)
    ensures
        parse_value_type(value_type_bytes(v) + rest) == Ok::<(ValueType, nat), (Error, nat)>(
            (v, value_type_bytes(v).len()),
        ),
{
    let s = value_type_bytes(v) + rest;
    assert(s.skip(1) =~= value_type_rest_bytes(v) + rest);
    if let ValueType::Ref(RefType::Ref(i)) = v {
        lemma_var_u32_round_trip(i, rest);
    }
}

/// A storage type reads back as itself and takes exactly the bytes of its
/// encoding.
pub proof fn lemma_storage_type_round_trip(st: StorageType, rest: Seq<u8>)
    ensures
        parse_storage_type(storage_type_bytes(st) + rest) == Ok::<(StorageType, nat), (Error, nat)>(
            (st, storage_type_bytes(st).len()),
        ),
{
    if let StorageType::Value(v) = st {
        let s = value_type_bytes(v) + rest;
        assert(s.skip(1) =~= value_type_rest_bytes(v) + rest);
        if let ValueType::Ref(RefType::Ref(i)) = v {
            lemma_var_u32_round_trip(i, rest);
        }
    }
}

/// A block type reads back as itself and takes exactly the bytes of its
/// encoding.
pub proof fn lemma_block_type_round_trip(b: BlockType, rest: Seq<u8>)
    ensures
        parse_block_type(block_type_bytes(b) + rest) == Ok::<(BlockType, nat), (Error, nat)>(
            (b, block_type_bytes(b).len()),
        ),
{
    if let BlockType::Value(v) = b {
        let s = value_type_bytes(v) + rest;
        assert(s.skip(1) =~= value_type_rest_bytes(v) + rest);
        if let ValueType::Ref(RefType::Ref(i)) = v {
            lemma_var_u32_round_trip(i, rest);
        }
    }
}

/// A field type reads back as itself and takes exactly the bytes of its
/// encoding.
pub proof fn lemma_field_type_round_trip(f: FieldType, rest: Seq<u8>)
    ensures
        parse_field_type(field_type_bytes(f) + rest) == Ok::<(FieldType, nat), (Error, nat)>(
            (f, field_type_bytes(f).len()),
        ),
{
    let s = field_type_bytes(f) + rest;
    assert(s.skip(1) =~= storage_type_bytes(f.elem) + rest);
    lemma_storage_type_round_trip(f.elem, rest);
}

/// An array type reads back as itself and takes exactly the bytes of its
/// encoding.
pub proof fn lemma_array_type_round_trip(a: ArrayType, rest: Seq<u8>)
    ensures
        parse_array_type(array_type_bytes(a) + rest) == Ok::<(ArrayType, nat), (Error, nat)>(
            (a, array_type_bytes(a).len()),
        ),
{
    lemma_field_type_round_trip(a.elem, rest);
}

proof fn lemma_value_types_invert()
    ensures
        inverts(value_type_parser(), value_type_encoder()),
{
    assert forall|v: ValueType, rest: Seq<u8>|
        #[trigger] value_type_parser()(value_type_encoder()(v) + rest) == Ok::<
            (ValueType, nat),
            (Error, nat),
        >((v, value_type_encoder()(v).len())) by {
        lemma_value_type_round_trip(v, rest);
    }
}

proof fn lemma_field_types_invert()
    ensures
        inverts(field_type_parser(), field_type_encoder()),
{
    assert forall|f: FieldType, rest: Seq<u8>|
        #[trigger] field_type_parser()(field_type_encoder()(f) + rest) == Ok::<
            (FieldType, nat),
            (Error, nat),
        >((f, field_type_encoder()(f).len())) by {
        lemma_field_type_round_trip(f, rest);
    }
}

/// A struct type whose field count fits the count field reads back as
/// itself and takes exactly the bytes of its encoding.
pub proof fn lemma_struct_type_round_trip(fields: Seq<FieldType>, rest: Seq<u8>)
    requires
        fields.len() <= u32::MAX,
    ensures
        parse_struct_type(struct_type_bytes(fields) + rest) == Ok::<
            (Seq<FieldType>, nat),
            (Error, nat),
        >((fields, struct_type_bytes(fields).len())),
{
    lemma_field_types_invert();
    lemma_counted_round_trip(fields, field_type_encoder(), field_type_parser(), rest);
}

/// A function type whose parameter count fits the count field reads back
/// as itself and takes exactly the bytes of its encoding.
pub proof fn lemma_function_type_round_trip(f: FunctionTypeView, rest: Seq<u8>)
    requires
        f.params.len() <= u32::MAX,
    ensures
        parse_function_type(function_type_bytes(f) + rest) == Ok::<
            (FunctionTypeView, nat),
            (Error, nat),
        >((f, function_type_bytes(f).len())),
{
    let params = counted_bytes(f.params, value_type_encoder());
    let tail = match f.return_type {
        Some(v) => seq![1u8] + value_type_bytes(v),
        None => seq![0u8],
    };
    let s = function_type_bytes(f) + rest;
    assert(s =~= params + (tail + rest));
    lemma_value_types_invert();
    lemma_counted_round_trip(f.params, value_type_encoder(), value_type_parser(), tail + rest);
    let k = params.len();
    assert(s.skip(k as int) =~= tail + rest);
    match f.return_type {
        Some(v) => {
            assert(parse_var_u32(tail + rest) == Ok::<(u32, nat), (Error, nat)>((1, 1)));
            assert(s.skip(k + 1 as int) =~= value_type_bytes(v) + rest);
            lemma_value_type_round_trip(v, rest);
        },
        None => {
            assert(parse_var_u32(tail + rest) == Ok::<(u32, nat), (Error, nat)>((0, 1)));
        },
    }
}

/// Baseline dialect: a function type reads back as itself, form byte
/// included.
pub proof fn lemma_function_type_baseline_round_trip(f: FunctionTypeView, rest: Seq<u8>)
    requires
        f.params.len() <= u32::MAX,
    ensures
        parse_function_type_baseline(function_type_baseline_bytes(f) + rest) == Ok::<
            (FunctionTypeView, nat),
            (Error, nat),
        >((f, function_type_baseline_bytes(f).len())),
{
    let s = function_type_baseline_bytes(f) + rest;
    assert(s.skip(1) =~= function_type_bytes(f) + rest);
    lemma_function_type_round_trip(f, rest);
}

/// A type-section entry whose counts fit reads back as itself and takes
/// exactly the bytes of its encoding.
pub proof fn lemma_type_round_trip(t: TypeView, rest: Seq<u8>)
    requires
        type_encodable(t),
    ensures
        parse_type(type_bytes(t) + rest) == Ok::<(TypeView, nat), (Error, nat)>(
            (t, type_bytes(t).len()),
        ),
{
    let s = type_bytes(t) + rest;
    match t {
        TypeView::Function(f) => {
            assert(s.skip(1) =~= function_type_bytes(f) + rest);
            lemma_function_type_round_trip(f, rest);
        },
        TypeView::Struct(fields) => {
            assert(s.skip(1) =~= struct_type_bytes(fields) + rest);
            lemma_struct_type_round_trip(fields, rest);
        },
        TypeView::Array(a) => {
            assert(s.skip(1) =~= array_type_bytes(a) + rest);
            lemma_array_type_round_trip(a, rest);
        },
    }
}

/// A leading tag that is a well-formed 7-bit varint but matches no constant
/// of a dispatch level is refused there with that tag, after reading only
/// the tag byte.
pub proof fn lemma_unknown_tag_rejected(s: Seq<u8>)
    requires
        s.len() > 0,
        s[0] < 128,
    ensures
        ({
            let t = i7_of(s[0]);
            let refused = Err::<(RefType, nat), (Error, nat)>((Error::UnknownValueType(t), 1));
            ref_type_of_tag(t) is None ==> parse_ref_type(s) == refused
        }),
        ({
            let t = i7_of(s[0]);
            value_type_of_tag(t) is None ==> parse_value_type(s) == Err::<
                (ValueType, nat),
                (Error, nat),
            >((Error::UnknownValueType(t), 1))
        }),
        ({
            let t = i7_of(s[0]);
            t != PACKEDI8TYPE && t != PACKEDI16TYPE && value_type_of_tag(t) is None
                ==> parse_storage_type(s) == Err::<(StorageType, nat), (Error, nat)>(
                (Error::UnknownValueType(t), 1),
            )
        }),
        ({
            let t = i7_of(s[0]);
            t != NORESULTTYPE && value_type_of_tag(t) is None ==> parse_block_type(s) == Err::<
                (BlockType, nat),
                (Error, nat),
            >((Error::UnknownValueType(t), 1))
        }),
        ({
            let t = i7_of(s[0]);
            t != FUNCTIONTYPE && t != STRUCTTYPE && t != ARRAYTYPE ==> parse_type(s) == Err::<
                (TypeView, nat),
                (Error, nat),
            >((Error::UnknownValueType(t), 1))
        }),
{
}

/// Baseline dialect: a function type whose form byte is not the function
/// form is refused with that byte, after reading only the form byte.
pub proof fn lemma_unknown_function_form_rejected(s: Seq<u8>)
    requires
        s.len() > 0,
        s[0] != FUNCTION_FORM,
    ensures
        parse_function_type_baseline(s) == Err::<(FunctionTypeView, nat), (Error, nat)>(
            (Error::UnknownFunctionForm(s[0]), 1),
        ),
{
}

/// After the parameters, a result count of 0 gives no result type, 1 gives
/// the value type that follows, and any other count is refused right after
/// the count.
pub proof fn lemma_return_count(s: Seq<u8>, params: Seq<ValueType>, k: nat, count: u32, m: nat)
    requires
        crate::codec::parse_counted(s, value_type_parser()) == Ok::<
            (Seq<ValueType>, nat),
            (Error, nat),
        >((params, k)),
        parse_var_u32(s.skip(k as int)) == Ok::<(u32, nat), (Error, nat)>((count, m)),
    ensures
        count == 0 ==> parse_function_type(s) == Ok::<(FunctionTypeView, nat), (Error, nat)>(
            (FunctionTypeView { params, return_type: None }, k + m),
        ),
        count == 1 ==> parse_function_type(s) == match parse_value_type(s.skip((k + m) as int)) {
            Ok((v, n)) => Ok((FunctionTypeView { params, return_type: Some(v) }, k + m + n)),
            Err((e, n)) => Err((e, k + m + n)),
        },
        count >= 2 ==> parse_function_type(s) == Err::<(FunctionTypeView, nat), (Error, nat)>(
            (Error::Other(RETURN_ARITY_MESSAGE), k + m),
        ),
{
}

/// Distinct type-section entries whose counts fit have distinct encodings;
/// in particular two struct types with the same fields in another order do.
pub proof fn lemma_type_encoding_injective(a: TypeView, b: TypeView)
    requires
        type_encodable(a),
        type_encodable(b),
        a != b,
    ensures
        type_bytes(a) != type_bytes(b),
{
    lemma_type_round_trip(a, Seq::empty());
    lemma_type_round_trip(b, Seq::empty());
    assert(type_bytes(a) + Seq::empty() =~= type_bytes(a));
    assert(type_bytes(b) + Seq::empty() =~= type_bytes(b));
}

/// Struct types with different field sequences, such as the same fields in
/// another order, have different encodings.
pub proof fn lemma_struct_type_encoding_injective(a: Seq<FieldType>, b: Seq<FieldType>)
    requires
        a.len() <= u32::MAX,
        b.len() <= u32::MAX,
        a != b,
    ensures
        struct_type_bytes(a) != struct_type_bytes(b),
{
    lemma_struct_type_round_trip(a, Seq::empty());
    lemma_struct_type_round_trip(b, Seq::empty());
    assert(struct_type_bytes(a) + Seq::empty() =~= struct_type_bytes(a));
    assert(struct_type_bytes(b) + Seq::empty() =~= struct_type_bytes(b));
}

} // verus!
