use cranelift_codegen::ir::{types, AbiParam, Signature};
use cranelift_codegen::isa::CallConv;
use kennedy::ast::Type;
use kennedy::compiler::ir::FunctionSignature;
use kennedy::compiler::native::{carrier, native_signature, register, Register};
use kennedy::compiler::Compiler;

fn bound(params: Vec<Type>, return_type: Type) -> Option<Signature> {
    native_signature(&FunctionSignature { params, return_type })
}

#[test]
fn every_type_has_its_register_or_none() {
    assert_eq!(register(Type::Int), Some(Register::Int64));
    assert_eq!(register(Type::Float), Some(Register::Float64));
    assert_eq!(register(Type::Bool), Some(Register::Int8));
    assert_eq!(register(Type::String), None);
    assert_eq!(register(Type::Null), None);
    assert_eq!(register(Type::Void), None);
}

#[test]
fn signature_without_parameters_that_returns_nothing_is_blank() {
    let native = bound(vec![], Type::Void).unwrap();
    assert_eq!(native, Signature::new(CallConv::SystemV));
    assert!(native.params.is_empty());
    assert!(native.returns.is_empty());
    assert_eq!(bound(vec![], Type::Null).unwrap(), Signature::new(CallConv::SystemV));
}

#[test]
fn one_argument_slot_per_parameter_in_order() {
    let native = bound(vec![Type::Int, Type::Float, Type::Bool, Type::Int], Type::Void).unwrap();
    assert_eq!(
        native.params,
        vec![
            AbiParam::new(types::I64),
            AbiParam::new(types::F64),
            AbiParam::new(types::I8),
            AbiParam::new(types::I64),
        ]
    );
    assert!(native.returns.is_empty());
    assert_eq!(native.call_conv, CallConv::SystemV);
}

#[test]
fn one_return_slot_of_the_register_of_the_return_type() {
    assert_eq!(bound(vec![], Type::Int).unwrap().returns, vec![AbiParam::new(types::I64)]);
    assert_eq!(bound(vec![], Type::Float).unwrap().returns, vec![AbiParam::new(types::F64)]);
    assert_eq!(bound(vec![], Type::Bool).unwrap().returns, vec![AbiParam::new(types::I8)]);
    assert!(bound(vec![Type::Bool], Type::Int).unwrap().params == vec![AbiParam::new(types::I8)]);
}

#[test]
fn types_without_a_register_cannot_be_bound() {
    assert_eq!(bound(vec![Type::String], Type::Int), None);
    assert_eq!(bound(vec![Type::Int, Type::Null], Type::Int), None);
    assert_eq!(bound(vec![Type::Void], Type::Int), None);
    assert_eq!(bound(vec![], Type::String), None);
}

#[test]
fn every_routine_of_a_compiled_module_can_be_bound() {
    let source = "func a(x: int, y: bool): float { return 1.0; }\nfunc b(): null { let g = func (z: float): bool { return true; }; return null; }";
    let module = Compiler::default().compile(source).unwrap();
    let natives: Vec<Signature> =
        module.routines.iter().map(|r| native_signature(&r.signature).unwrap()).collect();
    assert_eq!(natives[0].params, vec![AbiParam::new(types::I64), AbiParam::new(types::I8)]);
    assert_eq!(natives[0].returns, vec![AbiParam::new(types::F64)]);
    assert!(natives[1].params.is_empty() && natives[1].returns.is_empty());
    assert_eq!(natives[2].params, vec![AbiParam::new(types::F64)]);
    assert_eq!(natives[2].returns, vec![AbiParam::new(types::I8)]);
}

#[test]
fn every_type_is_carried_in_its_register_or_in_a_byte() {
    assert_eq!(carrier(Type::Int), Register::Int64);
    assert_eq!(carrier(Type::Float), Register::Float64);
    assert_eq!(carrier(Type::Bool), Register::Int8);
    assert_eq!(carrier(Type::Null), Register::Int8);
    assert_eq!(carrier(Type::Void), Register::Int8);
    assert_eq!(carrier(Type::String), Register::Int8);
}
