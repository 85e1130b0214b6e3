//! Signature binding: the native signature of a routine.
//!
//! A native signature has one argument slot per parameter, in order, typed
//! by register class and width, and one return slot, or none for a function
//! that returns nothing.  It is built as a `cranelift_codegen::ir::Signature`
//! for the System V calling convention.

use super::ir::{FunctionSignature, SpecFunctionSignature};
use super::rules::{returns_nothing, supported_parameter, supported_return};
use crate::ast::Type;
use vstd::prelude::*;

verus! {

/// A register class and width.
#[derive(Debug, Clone, Copy, PartialEq, Eq, Structural)]
pub enum Register {
    /// An integral register of 8 bits: `types::I8`.
    Int8,
    /// An integral register of 64 bits: `types::I64`.
    Int64,
    /// A floating-point register of 64 bits: `types::F64`.
    Float64,
}

/// `cranelift_codegen::ir::Signature`.  Verus sees nothing inside it.
#[verifier::external_type_specification]
#[verifier::external_body]
pub struct ExNativeSignature(cranelift_codegen::ir::Signature);

/// The registers of the argument slots that a native signature holds in its
/// `params`, in order.
pub uninterp spec fn native_params(s: cranelift_codegen::ir::Signature) -> Seq<Register>;

/// The registers of the return slots that a native signature holds in its
/// `returns`, in order.
pub uninterp spec fn native_returns(s: cranelift_codegen::ir::Signature) -> Seq<Register>;

/// Whether a native signature's `call_conv` is `CallConv::SystemV`.
pub uninterp spec fn native_system_v(s: cranelift_codegen::ir::Signature) -> bool;

/// `Signature::new` with `CallConv::SystemV`: a signature with no argument
/// slot and no return slot, for the System V calling convention.
#[verifier::external_body]
fn blank() -> (s: cranelift_codegen::ir::Signature)
    ensures
        native_params(s) == Seq::<Register>::empty(),
        native_returns(s) == Seq::<Register>::empty(),
        native_system_v(s),
{
    cranelift_codegen::ir::Signature::new(cranelift_codegen::isa::CallConv::SystemV)
}

/// Appends `AbiParam::new(types::I8)` to `params`: one more argument slot,
/// an integral register of 8 bits.  As every such step, it leaves the other
/// slots and the calling convention as they were.
#[verifier::external_body]
fn push_int8_param(s: &mut cranelift_codegen::ir::Signature)
    ensures
        native_params(*final(s)) == native_params(*old(s)).push(Register::Int8),
        native_returns(*final(s)) == native_returns(*old(s)),
        native_system_v(*final(s)) == native_system_v(*old(s)),
{
    s.params.push(cranelift_codegen::ir::AbiParam::new(cranelift_codegen::ir::types::I8));
}

/// Appends `AbiParam::new(types::I64)` to `params`: one more argument slot,
/// an integral register of 64 bits.
#[verifier::external_body]
fn push_int64_param(s: &mut cranelift_codegen::ir::Signature)
    ensures
        native_params(*final(s)) == native_params(*old(s)).push(Register::Int64),
        native_returns(*final(s)) == native_returns(*old(s)),
        native_system_v(*final(s)) == native_system_v(*old(s)),
{
    s.params.push(cranelift_codegen::ir::AbiParam::new(cranelift_codegen::ir::types::I64));
}

/// Appends `AbiParam::new(types::F64)` to `params`: one more argument slot,
/// a floating-point register of 64 bits.
#[verifier::external_body]
fn push_float64_param(s: &mut cranelift_codegen::ir::Signature)
    ensures
        native_params(*final(s)) == native_params(*old(s)).push(Register::Float64),
        native_returns(*final(s)) == native_returns(*old(s)),
        native_system_v(*final(s)) == native_system_v(*old(s)),
{
    s.params.push(cranelift_codegen::ir::AbiParam::new(cranelift_codegen::ir::types::F64));
}

/// Appends `AbiParam::new(types::I8)` to `returns`: one more return slot, an
/// integral register of 8 bits.
#[verifier::external_body]
fn push_int8_return(s: &mut cranelift_codegen::ir::Signature)
    ensures
        native_params(*final(s)) == native_params(*old(s)),
        native_returns(*final(s)) == native_returns(*old(s)).push(Register::Int8),
        native_system_v(*final(s)) == native_system_v(*old(s)),
{
    s.returns.push(cranelift_codegen::ir::AbiParam::new(cranelift_codegen::ir::types::I8));
}

/// Appends `AbiParam::new(types::I64)` to `returns`: one more return slot,
/// an integral register of 64 bits.
#[verifier::external_body]
fn push_int64_return(s: &mut cranelift_codegen::ir::Signature)
    ensures
        native_params(*final(s)) == native_params(*old(s)),
        native_returns(*final(s)) == native_returns(*old(s)).push(Register::Int64),
        native_system_v(*final(s)) == native_system_v(*old(s)),
{
    s.returns.push(cranelift_codegen::ir::AbiParam::new(cranelift_codegen::ir::types::I64));
}

/// Appends `AbiParam::new(types::F64)` to `returns`: one more return slot, a
/// floating-point register of 64 bits.
#[verifier::external_body]
fn push_float64_return(s: &mut cranelift_codegen::ir::Signature)
    ensures
        native_params(*final(s)) == native_params(*old(s)),
        native_returns(*final(s)) == native_returns(*old(s)).push(Register::Float64),
        native_system_v(*final(s)) == native_system_v(*old(s)),
{
    s.returns.push(cranelift_codegen::ir::AbiParam::new(cranelift_codegen::ir::types::F64));
}

/// The register that holds a value of type `t`: integers in 64 bits,
/// floating-point numbers in 64 bits, booleans in 8 bits.  The other types
/// have none.
pub open spec fn register_of(t: Type) -> Option<Register> {
    match t {
        Type::Int => Some(Register::Int64),
        Type::Float => Some(Register::Float64),
        Type::Bool => Some(Register::Int8),
        _ => None,
    }
}

/// The register in which a value of type `t` is carried inside a routine:
/// its own register where it has one.  A value of another type is carried
/// in an integral register of 8 bits; nothing reads what it holds.
pub open spec fn carrier_of(t: Type) -> Register {
    match register_of(t) {
        Some(r) => r,
        None => Register::Int8,
    }
}

/// Whether a signature can be bound: every parameter has a register, and the
/// return type has one or stands for no value.
pub open spec fn bindable(signature: SpecFunctionSignature) -> bool {
    &&& forall|i: int|
        0 <= i < signature.params.len() ==> register_of(#[trigger] signature.params[i]) is Some
    &&& (register_of(signature.return_type) is Some || returns_nothing(signature.return_type))
}

/// The argument slots of a signature: the register of every parameter, in
/// order.
pub open spec fn argument_slots(signature: SpecFunctionSignature) -> Seq<Register> {
    Seq::new(signature.params.len(), |i: int| register_of(signature.params[i])->0)
}

/// The return slots of a signature: the register of the return type, or
/// none for a function that returns nothing.
pub open spec fn return_slots(signature: SpecFunctionSignature) -> Seq<Register> {
    if returns_nothing(signature.return_type) {
        Seq::empty()
    } else {
        seq![register_of(signature.return_type)->0]
    }
}

/// The register that holds a value of type `t`.
pub fn register(t: Type) -> (r: Option<Register>)
    ensures
        r == register_of(t),
{
    match t {
        Type::Int => Some(Register::Int64),
        Type::Float => Some(Register::Float64),
        Type::Bool => Some(Register::Int8),
        _ => None,
    }
}

/// The register in which a value of type `t` is carried inside a routine.
pub fn carrier(t: Type) -> (r: Register)
    ensures
        r == carrier_of(t),
{
    match register(t) {
        Some(r) => r,
        None => Register::Int8,
    }
}

/// The native signature of `signature`, where it can be bound: for the
/// System V calling convention, with one argument slot per parameter, in
/// order, and one return slot, or none for a function that returns nothing.
pub fn native_signature(signature: &FunctionSignature) -> (r: Option<cranelift_codegen::ir::Signature>)
    ensures
        r is Some <==> bindable(signature@),
        r is Some ==> native_params(r->0) == argument_slots(signature@) && native_returns(r->0)
            == return_slots(signature@) && native_system_v(r->0),
{
    let mut native = blank();
    let mut i: usize = 0;
    while i < signature.params.len()
        invariant
            i <= signature.params.len(),
            forall|k: int| 0 <= k < i ==> register_of(#[trigger] signature@.params[k]) is Some,
            native_params(native) == argument_slots(signature@).take(i as int),
            native_returns(native) == Seq::<Register>::empty(),
            native_system_v(native),
        decreases signature.params.len() - i,
    {
        match register(signature.params[i]) {
            Some(Register::Int8) => push_int8_param(&mut native),
            Some(Register::Int64) => push_int64_param(&mut native),
            Some(Register::Float64) => push_float64_param(&mut native),
            None => {
                assert(register_of(signature@.params[i as int]) is None);
                return None;
            },
        }
        i += 1;
        assert(native_params(native) =~= argument_slots(signature@).take(i as int));
    }
    assert(argument_slots(signature@).take(i as int) =~= argument_slots(signature@));
    match register(signature.return_type) {
        Some(Register::Int8) => push_int8_return(&mut native),
        Some(Register::Int64) => push_int64_return(&mut native),
        Some(Register::Float64) => push_float64_return(&mut native),
        None => {
            if !matches!(signature.return_type, Type::Void | Type::Null) {
                return None;
            }
        },
    }
    assert(native_returns(native) =~= return_slots(signature@));
    Some(native)
}

/// A signature whose types the lowering supports can be bound, except where
/// a function returns null, which is bound as returning nothing.
pub proof fn lemma_supported_is_bindable(signature: SpecFunctionSignature)
    requires
        forall|i: int|
            0 <= i < signature.params.len() ==> supported_parameter(#[trigger] signature.params[i]),
        supported_return(signature.return_type),
    ensures
        bindable(signature),
{
}

} // verus!
