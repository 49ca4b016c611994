use wasm_types::codec::{read_var_i7, read_var_u1, read_var_u32, write_var_u32, RETURN_ARITY_MESSAGE};
use wasm_types::{
    ArrayType, BlockType, Error, FieldType, FunctionType, NumType, OptionalValueTypeBuilder, Reader,
    RefType, StorageType, StructType, Type, ValueType, ValueTypeBuilder, ValueTypesBuilder,
};

fn encode_value(v: ValueType) -> Vec<u8> {
    let mut out = Vec::new();
    v.serialize(&mut out);
    out
}

fn all_value_types() -> Vec<ValueType> {
    vec![
        ValueType::Num(NumType::I32),
        ValueType::Num(NumType::I64),
        ValueType::Num(NumType::F32),
        ValueType::Num(NumType::F64),
        ValueType::Ref(RefType::AnyRef),
        ValueType::Ref(RefType::AnyFunc),
        ValueType::Ref(RefType::Ref(0)),
        ValueType::Ref(RefType::Ref(7)),
        ValueType::Ref(RefType::Ref(300)),
        ValueType::Ref(RefType::Ref(u32::MAX)),
        ValueType::V128,
    ]
}

#[test]
fn value_type_tags_are_exact() {
    assert_eq!(encode_value(ValueType::Num(NumType::I32)), vec![0x7f]);
    assert_eq!(encode_value(ValueType::Num(NumType::I64)), vec![0x7e]);
    assert_eq!(encode_value(ValueType::Num(NumType::F32)), vec![0x7d]);
    assert_eq!(encode_value(ValueType::Num(NumType::F64)), vec![0x7c]);
    assert_eq!(encode_value(ValueType::V128), vec![0x7b]);
    assert_eq!(encode_value(ValueType::Ref(RefType::AnyFunc)), vec![0x70]);
    assert_eq!(encode_value(ValueType::Ref(RefType::AnyRef)), vec![0x6f]);
}

#[test]
fn value_type_round_trip() {
    for v in all_value_types() {
        let bytes = encode_value(v);
        let mut r = Reader::new(bytes.clone());
        assert_eq!(ValueType::deserialize(&mut r), Ok(v));
        assert_eq!(r.position(), bytes.len());
        assert_eq!(r.remaining(), 0);
    }
}

#[test]
fn ref_type_round_trip() {
    for rt in [RefType::AnyRef, RefType::AnyFunc, RefType::Ref(0), RefType::Ref(128), RefType::Ref(u32::MAX)] {
        let mut out = Vec::new();
        rt.serialize(&mut out);
        let mut r = Reader::new(out);
        assert_eq!(RefType::deserialize(&mut r), Ok(rt));
        assert_eq!(r.remaining(), 0);
    }
}

#[test]
fn indexed_ref_encodes_tag_then_index() {
    let mut out = Vec::new();
    RefType::Ref(7).serialize(&mut out);
    assert_eq!(out, vec![0x6e, 0x07]);
    let mut r = Reader::new(out);
    assert_eq!(RefType::deserialize(&mut r), Ok(RefType::Ref(7)));
    assert_eq!(r.position(), 2);
}

#[test]
fn indexed_ref_with_multibyte_index() {
    assert_eq!(encode_value(ValueType::Ref(RefType::Ref(300))), vec![0x6e, 0xac, 0x02]);
    assert_eq!(
        encode_value(ValueType::Ref(RefType::Ref(u32::MAX))),
        vec![0x6e, 0xff, 0xff, 0xff, 0xff, 0x0f]
    );
}

#[test]
fn storage_type_round_trip() {
    let mut all = vec![StorageType::PackedI8, StorageType::PackedI16];
    for v in all_value_types() {
        all.push(StorageType::Value(v));
    }
    for st in all {
        let mut out = Vec::new();
        st.serialize(&mut out);
        let mut r = Reader::new(out);
        assert_eq!(StorageType::deserialize(&mut r), Ok(st));
        assert_eq!(r.remaining(), 0);
    }
    let mut out = Vec::new();
    StorageType::PackedI8.serialize(&mut out);
    StorageType::PackedI16.serialize(&mut out);
    assert_eq!(out, vec![0x68, 0x67]);
}

#[test]
fn block_type_round_trip() {
    let mut all = vec![BlockType::NoResult];
    for v in all_value_types() {
        all.push(BlockType::Value(v));
    }
    for b in all {
        let mut out = Vec::new();
        b.serialize(&mut out);
        let mut r = Reader::new(out);
        assert_eq!(BlockType::deserialize(&mut r), Ok(b));
        assert_eq!(r.remaining(), 0);
    }
    let mut out = Vec::new();
    BlockType::NoResult.serialize(&mut out);
    assert_eq!(out, vec![0x40]);
}

#[test]
fn field_type_writes_flag_then_element() {
    let f = FieldType::new(StorageType::PackedI16, true);
    let mut out = Vec::new();
    f.serialize(&mut out);
    assert_eq!(out, vec![0x01, 0x67]);
    let mut r = Reader::new(out);
    assert_eq!(FieldType::deserialize(&mut r), Ok(f));
    assert_eq!(f.elem(), StorageType::PackedI16);
    assert!(f.is_mutable());
}

#[test]
fn array_type_round_trip() {
    let a = ArrayType::new(FieldType::new(StorageType::Value(ValueType::Ref(RefType::Ref(3))), false));
    let mut out = Vec::new();
    a.serialize(&mut out);
    assert_eq!(out, vec![0x00, 0x6e, 0x03]);
    let mut r = Reader::new(out);
    assert_eq!(ArrayType::deserialize(&mut r), Ok(a));
    assert_eq!(a.elem(), FieldType::new(StorageType::Value(ValueType::Ref(RefType::Ref(3))), false));
}

#[test]
fn struct_type_round_trip() {
    let s = StructType::new(vec![
        FieldType::new(StorageType::PackedI8, false),
        FieldType::new(StorageType::Value(ValueType::Num(NumType::F64)), true),
    ]);
    let mut out = Vec::new();
    s.clone().serialize(&mut out);
    assert_eq!(out, vec![0x02, 0x00, 0x68, 0x01, 0x7c]);
    let mut r = Reader::new(out);
    assert_eq!(StructType::deserialize(&mut r), Ok(s.clone()));
    assert_eq!(s.fields().len(), 2);
}

#[test]
fn struct_field_order_matters() {
    let a = FieldType::new(StorageType::PackedI8, false);
    let b = FieldType::new(StorageType::Value(ValueType::Num(NumType::I32)), true);
    let s1 = StructType::new(vec![a, b]);
    let s2 = StructType::new(vec![b, a]);
    assert_ne!(s1, s2);
    let mut o1 = Vec::new();
    s1.serialize(&mut o1);
    let mut o2 = Vec::new();
    s2.serialize(&mut o2);
    assert_ne!(o1, o2);
}

#[test]
fn function_type_round_trip() {
    let cases = vec![
        FunctionType::new(vec![], None),
        FunctionType::new(vec![ValueType::Num(NumType::I32)], Some(ValueType::Num(NumType::I64))),
        FunctionType::new(all_value_types(), Some(ValueType::Ref(RefType::Ref(9)))),
        FunctionType::default(),
    ];
    for f in cases {
        let mut out = Vec::new();
        f.clone().serialize(&mut out);
        let len = out.len();
        let mut r = Reader::new(out);
        assert_eq!(FunctionType::deserialize(&mut r), Ok(f));
        assert_eq!(r.position(), len);
    }
}

#[test]
fn function_type_exact_bytes() {
    let f = FunctionType::new(vec![ValueType::Num(NumType::I32)], Some(ValueType::Num(NumType::I64)));
    let mut out = Vec::new();
    f.serialize(&mut out);
    assert_eq!(out, vec![0x01, 0x7f, 0x01, 0x7e]);
}

#[test]
fn return_count_zero_gives_no_result() {
    let mut r = Reader::new(vec![0x01, 0x7f, 0x00, 0xaa]);
    let f = FunctionType::deserialize(&mut r).unwrap();
    assert_eq!(f.params(), &[ValueType::Num(NumType::I32)]);
    assert_eq!(f.return_type(), None);
    assert_eq!(r.position(), 3);
}

#[test]
fn return_count_one_gives_result() {
    let mut r = Reader::new(vec![0x00, 0x01, 0x7c]);
    let f = FunctionType::deserialize(&mut r).unwrap();
    assert!(f.params().is_empty());
    assert_eq!(f.return_type(), Some(ValueType::Num(NumType::F64)));
}

#[test]
fn return_count_two_is_refused() {
    let mut r = Reader::new(vec![0x00, 0x02, 0x7f, 0x7f]);
    assert_eq!(FunctionType::deserialize(&mut r), Err(Error::Other(RETURN_ARITY_MESSAGE)));
    assert_eq!(r.position(), 2);
    assert_eq!(RETURN_ARITY_MESSAGE, "Return types length should be 0 or 1");
}

#[test]
fn function_type_accessors_mutate() {
    let mut f = FunctionType::new(vec![], None);
    f.params_mut().push(ValueType::V128);
    *f.return_type_mut() = Some(ValueType::Ref(RefType::AnyFunc));
    assert_eq!(f, FunctionType::new(vec![ValueType::V128], Some(ValueType::Ref(RefType::AnyFunc))));
}

#[test]
fn baseline_function_type_round_trip() {
    let f = FunctionType::new(vec![ValueType::Num(NumType::F32)], None);
    let mut out = Vec::new();
    f.clone().serialize_baseline(&mut out);
    assert_eq!(out, vec![0x60, 0x01, 0x7d, 0x00]);
    let mut r = Reader::new(out);
    assert_eq!(FunctionType::deserialize_baseline(&mut r), Ok(f));
}

#[test]
fn baseline_unknown_form_is_refused() {
    let mut r = Reader::new(vec![0x5f, 0x00, 0x00]);
    assert_eq!(FunctionType::deserialize_baseline(&mut r), Err(Error::UnknownFunctionForm(0x5f)));
    assert_eq!(r.position(), 1);
}

#[test]
fn type_round_trip() {
    let cases = vec![
        Type::from(FunctionType::new(vec![ValueType::Num(NumType::I64)], None)),
        Type::from(StructType::new(vec![FieldType::new(StorageType::PackedI16, true)])),
        Type::from(ArrayType::new(FieldType::new(StorageType::Value(ValueType::V128), false))),
    ];
    for t in cases {
        let mut out = Vec::new();
        t.clone().serialize(&mut out);
        let mut r = Reader::new(out);
        assert_eq!(Type::deserialize(&mut r), Ok(t));
        assert_eq!(r.remaining(), 0);
    }
}

#[test]
fn type_discriminants_are_exact() {
    let mut out = Vec::new();
    Type::Function(FunctionType::new(vec![], None)).serialize(&mut out);
    Type::Struct(StructType::new(vec![])).serialize(&mut out);
    Type::Array(ArrayType::new(FieldType::new(StorageType::PackedI8, false))).serialize(&mut out);
    assert_eq!(out, vec![0x60, 0x00, 0x00, 0x5f, 0x00, 0x5e, 0x00, 0x68]);
}

#[test]
fn unknown_tags_are_refused() {
    // 0x60 is the function discriminant: no value, storage or block type.
    let mut r = Reader::new(vec![0x60]);
    assert_eq!(ValueType::deserialize(&mut r), Err(Error::UnknownValueType(-0x20)));
    assert_eq!(r.position(), 1);
    let mut r = Reader::new(vec![0x7f]);
    assert_eq!(RefType::deserialize(&mut r), Err(Error::UnknownValueType(-0x01)));
    let mut r = Reader::new(vec![0x40]);
    assert_eq!(StorageType::deserialize(&mut r), Err(Error::UnknownValueType(-0x40)));
    let mut r = Reader::new(vec![0x68]);
    assert_eq!(BlockType::deserialize(&mut r), Err(Error::UnknownValueType(-0x18)));
    let mut r = Reader::new(vec![0x7f, 0x00]);
    assert_eq!(Type::deserialize(&mut r), Err(Error::UnknownValueType(-0x01)));
    assert_eq!(r.position(), 1);
    let mut r = Reader::new(vec![0x05]);
    assert_eq!(ValueType::deserialize(&mut r), Err(Error::UnknownValueType(5)));
}

#[test]
fn truncated_input_is_refused() {
    let mut r = Reader::new(vec![]);
    assert_eq!(ValueType::deserialize(&mut r), Err(Error::UnexpectedEof));
    let mut r = Reader::new(vec![0x6e]);
    assert_eq!(ValueType::deserialize(&mut r), Err(Error::UnexpectedEof));
    let mut r = Reader::new(vec![0x02, 0x7f]);
    assert_eq!(FunctionType::deserialize(&mut r), Err(Error::UnexpectedEof));
    assert_eq!(r.position(), 2);
}

#[test]
fn malformed_varints_are_refused() {
    let mut r = Reader::new(vec![0x80]);
    assert_eq!(read_var_i7(&mut r), Err(Error::InvalidVarInt7(0x80)));
    let mut r = Reader::new(vec![0x02]);
    assert_eq!(read_var_u1(&mut r), Err(Error::InvalidVarUint1(2)));
    let mut r = Reader::new(vec![0x02, 0x68]);
    assert_eq!(FieldType::deserialize(&mut r), Err(Error::InvalidVarUint1(2)));
    let mut r = Reader::new(vec![0xff, 0xff, 0xff, 0xff, 0x10]);
    assert_eq!(read_var_u32(&mut r), Err(Error::InvalidVarUint32));
    let mut r = Reader::new(vec![0x80, 0x80, 0x80, 0x80, 0x80, 0x00]);
    assert_eq!(read_var_u32(&mut r), Err(Error::InvalidVarUint32));
    assert_eq!(r.position(), 5);
}

#[test]
fn var_u32_values() {
    for v in [0u32, 1, 127, 128, 300, 16384, u32::MAX] {
        let mut out = Vec::new();
        write_var_u32(&mut out, v);
        let mut r = Reader::new(out);
        assert_eq!(read_var_u32(&mut r), Ok(v));
        assert_eq!(r.remaining(), 0);
    }
    let mut out = Vec::new();
    write_var_u32(&mut out, 624485);
    assert_eq!(out, vec![0xe5, 0x8e, 0x26]);
    // A longer than needed encoding is read too.
    let mut r = Reader::new(vec![0x80, 0x00]);
    assert_eq!(read_var_u32(&mut r), Ok(0));
}

#[test]
fn value_type_text() {
    assert_eq!(ValueType::Num(NumType::I32).to_string(), "i32");
    assert_eq!(ValueType::Num(NumType::I64).to_string(), "i64");
    assert_eq!(ValueType::Num(NumType::F32).to_string(), "f32");
    assert_eq!(ValueType::Num(NumType::F64).to_string(), "f64");
    assert_eq!(ValueType::Ref(RefType::AnyRef).to_string(), "anyref");
    assert_eq!(ValueType::Ref(RefType::AnyFunc).to_string(), "anyfunc");
    assert_eq!(ValueType::Ref(RefType::Ref(7)).to_string(), "(ref 7)");
    assert_eq!(ValueType::Ref(RefType::Ref(0)).to_string(), "(ref 0)");
    assert_eq!(ValueType::Ref(RefType::Ref(4294967295)).to_string(), "(ref 4294967295)");
    assert_eq!(ValueType::V128.to_string(), "v128");
}

#[test]
fn value_types_builder_collects_in_order() {
    let built = ValueTypesBuilder::with_callback(|v: Vec<ValueType>| v).i32().float64().build();
    assert_eq!(built, vec![ValueType::Num(NumType::I32), ValueType::Num(NumType::F64)]);
    let all = ValueTypesBuilder::with_callback(|v: Vec<ValueType>| v).i64().float32().i32().build();
    assert_eq!(
        all,
        vec![ValueType::Num(NumType::I64), ValueType::Num(NumType::F32), ValueType::Num(NumType::I32)]
    );
    let none = ValueTypesBuilder::with_callback(|v: Vec<ValueType>| v.len()).build();
    assert_eq!(none, 0);
}

#[test]
fn single_builders_hand_choice_to_continuation() {
    assert_eq!(ValueTypeBuilder::with_callback(|v: ValueType| v).i32(), ValueType::Num(NumType::I32));
    assert_eq!(ValueTypeBuilder::with_callback(|v: ValueType| v).i64(), ValueType::Num(NumType::I64));
    assert_eq!(ValueTypeBuilder::with_callback(|v: ValueType| v).float32(), ValueType::Num(NumType::F32));
    assert_eq!(ValueTypeBuilder::with_callback(|v: ValueType| v).float64(), ValueType::Num(NumType::F64));
    assert_eq!(
        OptionalValueTypeBuilder::with_callback(|v: Option<ValueType>| v).i32(),
        Some(ValueType::Num(NumType::I32))
    );
    assert_eq!(
        OptionalValueTypeBuilder::with_callback(|v: Option<ValueType>| v).float64(),
        Some(ValueType::Num(NumType::F64))
    );
    let f = ValueTypesBuilder::with_callback(|params: Vec<ValueType>| {
        OptionalValueTypeBuilder::with_callback(move |ret: Option<ValueType>| FunctionType::new(params, ret))
    })
    .i32()
    .i64()
    .build()
    .float32();
    assert_eq!(
        f,
        FunctionType::new(
            vec![ValueType::Num(NumType::I32), ValueType::Num(NumType::I64)],
            Some(ValueType::Num(NumType::F32))
        )
    );
}

#[test]
fn conversions_wrap_variants() {
    assert_eq!(ValueType::from(NumType::I64), ValueType::Num(NumType::I64));
    assert_eq!(ValueType::from(RefType::AnyRef), ValueType::Ref(RefType::AnyRef));
    assert_eq!(NumType::from_bits(-0x03), Some(NumType::F32));
    assert_eq!(NumType::from_bits(-0x05), None);
    assert_eq!(ValueType::from_bits(-0x05), Some(ValueType::V128));
    assert_eq!(RefType::from_bits(-0x12), Some(RefType::Ref(0)));
    assert_eq!(ValueType::Ref(RefType::Ref(5)).to_bits(), -0x12);
}

#[test]
fn baseline_type_round_trip() {
    let t = Type::Function(FunctionType::new(vec![ValueType::Ref(RefType::AnyFunc)], Some(ValueType::V128)));
    let mut out = Vec::new();
    t.clone().serialize_baseline(&mut out);
    assert_eq!(out, vec![0x60, 0x01, 0x70, 0x01, 0x7b]);
    let mut r = Reader::new(out);
    assert_eq!(Type::deserialize_baseline(&mut r), Ok(t));
    let mut r = Reader::new(vec![0x5e]);
    assert_eq!(Type::deserialize_baseline(&mut r), Err(Error::UnknownFunctionForm(0x5e)));
}
