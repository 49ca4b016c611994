//! Fluent builders that choose value types and hand them to a
//! continuation.
use vstd::prelude::*;
use crate::types::{NumType, ValueType};

verus! {

/// Chooses one value type; the choice is handed to the continuation.
pub struct ValueTypeBuilder<F> {
    callback: F,
}

impl<F> ValueTypeBuilder<F> {
    /// The continuation that receives the choice.
    pub closed spec fn callback(&self) -> F {
        self.callback
    }

    pub fn with_callback(callback: F) -> (b: Self)
        ensures
            b.callback() == callback,
    {
        ValueTypeBuilder { callback }
    }

    /// Chooses `i32` and hands it to the continuation.
    pub fn i32<R>(self) -> (r: R)
        where
            F: FnOnce(ValueType) -> R,
        requires
            self.callback().requires((ValueType::Num(NumType::I32),)),
        ensures
            self.callback().ensures((ValueType::Num(NumType::I32),), r),
    {
        (self.callback)(ValueType::Num(NumType::I32))
    }

    /// Chooses `i64` and hands it to the continuation.
    pub fn i64<R>(self) -> (r: R)
        where
            F: FnOnce(ValueType) -> R,
        requires
            self.callback().requires((ValueType::Num(NumType::I64),)),
        ensures
            self.callback().ensures((ValueType::Num(NumType::I64),), r),
    {
        (self.callback)(ValueType::Num(NumType::I64))
    }

    /// Chooses a 32-bit float and hands it to the continuation.
    pub fn float32<R>(self) -> (r: R)
        where
            F: FnOnce(ValueType) -> R,
        requires
            self.callback().requires((ValueType::Num(NumType::F32),)),
        ensures
            self.callback().ensures((ValueType::Num(NumType::F32),), r),
    {
        (self.callback)(ValueType::Num(NumType::F32))
    }

    /// Chooses a 64-bit float and hands it to the continuation.
    pub fn float64<R>(self) -> (r: R)
        where
            F: FnOnce(ValueType) -> R,
        requires
            self.callback().requires((ValueType::Num(NumType::F64),)),
        ensures
            self.callback().ensures((ValueType::Num(NumType::F64),), r),
    {
        (self.callback)(ValueType::Num(NumType::F64))
    }
}

/// Chooses one value type as a present optional value; the choice is
/// handed to the continuation.
pub struct OptionalValueTypeBuilder<F> {
    callback: F,
}

impl<F> OptionalValueTypeBuilder<F> {
    /// The continuation that receives the choice.
    pub closed spec fn callback(&self) -> F {
        self.callback
    }

    pub fn with_callback(callback: F) -> (b: Self)
        ensures
            b.callback() == callback,
    {
        OptionalValueTypeBuilder { callback }
    }

    /// Chooses `i32` and hands it to the continuation.
    pub fn i32<R>(self) -> (r: R)
        where
            F: FnOnce(Option<ValueType>) -> R,
        requires
            self.callback().requires((Some(ValueType::Num(NumType::I32)),)),
        ensures
            self.callback().ensures((Some(ValueType::Num(NumType::I32)),), r),
    {
        (self.callback)(Some(ValueType::Num(NumType::I32)))
    }

    /// Chooses `i64` and hands it to the continuation.
    pub fn i64<R>(self) -> (r: R)
        where
            F: FnOnce(Option<ValueType>) -> R,
        requires
            self.callback().requires((Some(ValueType::Num(NumType::I64)),)),
        ensures
            self.callback().ensures((Some(ValueType::Num(NumType::I64)),), r),
    {
        (self.callback)(Some(ValueType::Num(NumType::I64)))
    }

    /// Chooses a 32-bit float and hands it to the continuation.
    pub fn float32<R>(self) -> (r: R)
        where
            F: FnOnce(Option<ValueType>) -> R,
        requires
            self.callback().requires((Some(ValueType::Num(NumType::F32)),)),
        ensures
            self.callback().ensures((Some(ValueType::Num(NumType::F32)),), r),
    {
        (self.callback)(Some(ValueType::Num(NumType::F32)))
    }

    /// Chooses a 64-bit float and hands it to the continuation.
    pub fn float64<R>(self) -> (r: R)
        where
            F: FnOnce(Option<ValueType>) -> R,
        requires
            self.callback().requires((Some(ValueType::Num(NumType::F64)),)),
        ensures
            self.callback().ensures((Some(ValueType::Num(NumType::F64)),), r),
    {
        (self.callback)(Some(ValueType::Num(NumType::F64)))
    }
}

/// Collects value types in order; `build` hands them to the continuation.
pub struct ValueTypesBuilder<F> {
    callback: F,
    value_types: Vec<ValueType>,
}

impl<F> ValueTypesBuilder<F> {
    /// The continuation that receives the collected types.
    pub closed spec fn callback(&self) -> F {
        self.callback
    }

    /// The types chosen so far, in order.
    pub closed spec fn chosen(&self) -> Vec<ValueType> {
        self.value_types
    }

    pub fn with_callback(callback: F) -> (b: Self)
        ensures
            b.callback() == callback,
            b.chosen()@ == Seq::<ValueType>::empty(),
    {
        ValueTypesBuilder { callback, value_types: Vec::new() }
    }

    /// Appends `i32` to the chosen types.
    pub fn i32(self) -> (b: Self)
        ensures
            b.callback() == self.callback(),
            b.chosen()@ == self.chosen()@.push(ValueType::Num(NumType::I32)),
    {
        let mut b = self;
        b.value_types.push(ValueType::Num(NumType::I32));
        b
    }

    /// Appends `i64` to the chosen types.
    pub fn i64(self) -> (b: Self)
        ensures
            b.callback() == self.callback(),
            b.chosen()@ == self.chosen()@.push(ValueType::Num(NumType::I64)),
    {
        let mut b = self;
        b.value_types.push(ValueType::Num(NumType::I64));
        b
    }

    /// Appends a 32-bit float to the chosen types.
    pub fn float32(self) -> (b: Self)
        ensures
            b.callback() == self.callback(),
            b.chosen()@ == self.chosen()@.push(ValueType::Num(NumType::F32)),
    {
        let mut b = self;
        b.value_types.push(ValueType::Num(NumType::F32));
        b
    }

    /// Appends a 64-bit float to the chosen types.
    pub fn float64(self) -> (b: Self)
        ensures
            b.callback() == self.callback(),
            b.chosen()@ == self.chosen()@.push(ValueType::Num(NumType::F64)),
    {
        let mut b = self;
        b.value_types.push(ValueType::Num(NumType::F64));
        b
    }

    /// Hands the chosen types to the continuation.
    pub fn build<R>(self) -> (r: R)
        where
            F: FnOnce(Vec<ValueType>) -> R,
        requires
            self.callback().requires((self.chosen(),)),
        ensures
            self.callback().ensures((self.chosen(),), r),
    {
        (self.callback)(self.value_types)
    }
}

} // verus!
