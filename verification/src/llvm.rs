//! The parts of the `inkwell` LLVM bindings that code generation calls.
//! Each item here is a single call into `inkwell`, trusted as its contract says.
//! LLVM values are opaque handles. What is modelled of the state behind them:
//! the instructions a builder has inserted, in order, and the block it is
//! positioned in; a module's name and the names of its globals; a function's
//! name, a block's function and the value of an integer constant.
use vstd::prelude::*;
use inkwell::types::BasicType;
use inkwell::values::BasicValue;
use inkwell::builder::{Builder, BuilderError};
use inkwell::context::Context;
use inkwell::module::Module;
use inkwell::types::{BasicTypeEnum, FunctionType, IntType, PointerType, StructType};
use inkwell::values::{BasicValueEnum, CallSiteValue, CallableValue, FunctionValue, GlobalValue, IntValue, PhiValue, PointerValue};
use inkwell::basic_block::BasicBlock;
use crate::codegen::{CgValue, Comparison};

verus! {

#[verifier::external_type_specification]
#[verifier::external_body]
pub struct ExContext(inkwell::context::Context);

#[verifier::external_type_specification]
#[verifier::external_body]
pub struct ExBuilder<'ctx>(inkwell::builder::Builder<'ctx>);

#[verifier::external_type_specification]
#[verifier::external_body]
pub struct ExModule<'ctx>(inkwell::module::Module<'ctx>);

#[verifier::external_type_specification]
#[verifier::external_body]
pub struct ExIntType<'ctx>(inkwell::types::IntType<'ctx>);

#[verifier::external_type_specification]
#[verifier::external_body]
pub struct ExPointerType<'ctx>(inkwell::types::PointerType<'ctx>);

#[verifier::external_type_specification]
#[verifier::external_body]
pub struct ExFunctionType<'ctx>(inkwell::types::FunctionType<'ctx>);

#[verifier::external_type_specification]
#[verifier::external_body]
pub struct ExStructType<'ctx>(inkwell::types::StructType<'ctx>);

#[verifier::external_type_specification]
#[verifier::external_body]
pub struct ExBasicTypeEnum<'ctx>(inkwell::types::BasicTypeEnum<'ctx>);

#[verifier::external_type_specification]
#[verifier::external_body]
pub struct ExIntValue<'ctx>(inkwell::values::IntValue<'ctx>);

#[verifier::external_type_specification]
#[verifier::external_body]
pub struct ExPointerValue<'ctx>(inkwell::values::PointerValue<'ctx>);

#[verifier::external_type_specification]
#[verifier::external_body]
pub struct ExFunctionValue<'ctx>(inkwell::values::FunctionValue<'ctx>);

#[verifier::external_type_specification]
#[verifier::external_body]
pub struct ExGlobalValue<'ctx>(inkwell::values::GlobalValue<'ctx>);

#[verifier::external_type_specification]
#[verifier::external_body]
pub struct ExCallSiteValue<'ctx>(inkwell::values::CallSiteValue<'ctx>);

#[verifier::external_type_specification]
#[verifier::external_body]
pub struct ExCallableValue<'ctx>(inkwell::values::CallableValue<'ctx>);

#[verifier::external_type_specification]
#[verifier::external_body]
pub struct ExPhiValue<'ctx>(inkwell::values::PhiValue<'ctx>);

#[verifier::external_type_specification]
#[verifier::external_body]
pub struct ExBasicBlock<'ctx>(inkwell::basic_block::BasicBlock<'ctx>);

#[verifier::external_type_specification]
#[verifier::external_body]
pub struct ExBuilderError(inkwell::builder::BuilderError);

/// An instruction that a builder inserted, with its operands and, where it
/// has one, the value it produces (last).
pub enum Instr<'ctx> {
    IntAdd(IntValue<'ctx>, IntValue<'ctx>, IntValue<'ctx>),
    IntSub(IntValue<'ctx>, IntValue<'ctx>, IntValue<'ctx>),
    IntMul(IntValue<'ctx>, IntValue<'ctx>, IntValue<'ctx>),
    IntCompare(Comparison, IntValue<'ctx>, IntValue<'ctx>, IntValue<'ctx>),
    PtrToInt(PointerValue<'ctx>, IntValue<'ctx>),
    IntToPtr(IntValue<'ctx>, PointerValue<'ctx>),
    PointerCast(PointerValue<'ctx>, PointerValue<'ctx>),
    Return(IntValue<'ctx>),
    Call(CallableValue<'ctx>, IntValue<'ctx>, CallSiteValue<'ctx>),
    StructGep(PointerValue<'ctx>, u32, PointerValue<'ctx>),
    Store(PointerValue<'ctx>, CgValue<'ctx>),
    Load(PointerValue<'ctx>, CgValue<'ctx>),
    Alloca(PointerValue<'ctx>),
    Branch(BasicBlock<'ctx>),
    CondBranch(IntValue<'ctx>, BasicBlock<'ctx>, BasicBlock<'ctx>),
    Phi(PhiValue<'ctx>),
}

/// The instructions that the `build_*` methods of `Builder` have inserted
/// through `b`, in the order they were built.
pub uninterp spec fn built(b: Builder<'_>) -> Seq<Instr<'_>>;

/// `Builder::get_insert_block`: the block `b` is positioned in, if any.
pub uninterp spec fn insert_block_of(b: Builder<'_>) -> Option<BasicBlock<'_>>;

/// `Module::get_name`: the name of `m`.
pub uninterp spec fn module_name_of(m: Module<'_>) -> Seq<char>;

/// The names of the globals of `m`, the functions among them.
pub uninterp spec fn global_names_of(m: Module<'_>) -> Set<Seq<char>>;

/// `FunctionValue::get_name`: the name of `f`.
pub uninterp spec fn function_name_of(f: FunctionValue<'_>) -> Seq<char>;

/// `BasicBlock::get_parent`: the function `b` belongs to, if any.
pub uninterp spec fn block_parent_of(b: BasicBlock<'_>) -> Option<FunctionValue<'_>>;

/// `IntValue::get_sign_extended_constant`: the value of `v` where it is an
/// integer constant.
pub uninterp spec fn constant_of(v: IntValue<'_>) -> Option<i64>;

/// `Context::create_module`: a new module with no globals, named `name` (the
/// name goes to LLVM as a C string, so a name with a NUL in it is cut there).
#[verifier::external_body]
pub(crate) fn create_module<'ctx>(context: &'ctx Context, name: &str) -> (r: Module<'ctx>)
    ensures
        !name@.contains('\0') ==> module_name_of(r) == name@,
        global_names_of(r) == Set::<Seq<char>>::empty(),
{
    context.create_module(name)
}

/// `Context::create_builder`: a new builder, not positioned in any block, that
/// has inserted nothing.
#[verifier::external_body]
pub(crate) fn create_builder<'ctx>(context: &'ctx Context) -> (r: Builder<'ctx>)
    ensures
        built(r) == Seq::<Instr<'ctx>>::empty(),
        insert_block_of(r) is None,
{
    context.create_builder()
}

/// `Context::i64_type`: the 64-bit integer type.
#[verifier::external_body]
pub(crate) fn i64_type<'ctx>(context: &'ctx Context) -> IntType<'ctx> {
    context.i64_type()
}

/// `Context::i8_type`: the 8-bit integer type.
#[verifier::external_body]
pub(crate) fn i8_type<'ctx>(context: &'ctx Context) -> IntType<'ctx> {
    context.i8_type()
}

/// `Context::struct_type`: the unpacked struct type with the two given fields.
#[verifier::external_body]
pub(crate) fn struct_type<'ctx>(
    context: &'ctx Context,
    first: BasicTypeEnum<'ctx>,
    second: BasicTypeEnum<'ctx>,
) -> StructType<'ctx> {
    context.struct_type(&[first, second], false)
}

/// `Context::append_basic_block`: a new block at the end of `function`.
#[verifier::external_body]
pub(crate) fn append_basic_block<'ctx>(
    context: &'ctx Context,
    function: FunctionValue<'ctx>,
    name: &str,
) -> (r: BasicBlock<'ctx>)
    ensures
        block_parent_of(r) == Some(function),
{
    context.append_basic_block(function, name)
}

/// `IntType::const_int` of `Context::i64_type`: the 64-bit constant whose
/// bits are the two's complement bits of `n` (passed as a `u64` without sign
/// extension), whose sign-extended value is `n`.
#[verifier::external_body]
pub(crate) fn const_i64<'ctx>(context: &'ctx Context, n: i64) -> (r: IntValue<'ctx>)
    ensures
        constant_of(r) == Some(n),
{
    context.i64_type().const_int(n as u64, false)
}

/// `IntType::ptr_type`: the type of pointers to `t`, in the default address space.
#[verifier::external_body]
#[allow(deprecated)]
pub(crate) fn int_ptr_type<'ctx>(t: IntType<'ctx>) -> PointerType<'ctx> {
    t.ptr_type(inkwell::AddressSpace::default())
}

/// `IntType::fn_type`: the type of functions that take no argument and return `t`.
#[verifier::external_body]
pub(crate) fn int_fn_type_no_params<'ctx>(t: IntType<'ctx>) -> FunctionType<'ctx> {
    t.fn_type(&[], false)
}

/// `IntType::fn_type`: the type of functions that take a `param` and return `t`.
#[verifier::external_body]
pub(crate) fn int_fn_type<'ctx>(t: IntType<'ctx>, param: IntType<'ctx>) -> FunctionType<'ctx> {
    t.fn_type(&[param.into()], false)
}

/// `PointerType::fn_type`: the type of functions that take a `param` and return a `t`.
#[verifier::external_body]
pub(crate) fn ptr_fn_type<'ctx>(t: PointerType<'ctx>, param: IntType<'ctx>) -> FunctionType<'ctx> {
    t.fn_type(&[param.into()], false)
}

/// `FunctionType::ptr_type`: the type of pointers to functions of type `t`.
#[verifier::external_body]
#[allow(deprecated)]
pub(crate) fn fn_ptr_type<'ctx>(t: FunctionType<'ctx>) -> PointerType<'ctx> {
    t.ptr_type(inkwell::AddressSpace::default())
}

/// `StructType::ptr_type`: the type of pointers to `t`.
#[verifier::external_body]
#[allow(deprecated)]
pub(crate) fn struct_ptr_type<'ctx>(t: StructType<'ctx>) -> PointerType<'ctx> {
    t.ptr_type(inkwell::AddressSpace::default())
}

/// `StructType::size_of`: the size of `t` as a constant, where `t` is sized.
#[verifier::external_body]
pub(crate) fn struct_size<'ctx>(t: StructType<'ctx>) -> Option<IntValue<'ctx>> {
    t.size_of()
}

/// `BasicTypeEnum::size_of`: the size of `t` as a constant, where `t` is sized.
#[verifier::external_body]
pub(crate) fn basic_type_size<'ctx>(t: BasicTypeEnum<'ctx>) -> Option<IntValue<'ctx>> {
    t.size_of()
}

/// `BasicType::ptr_type`: the type of pointers to `t`.
#[verifier::external_body]
#[allow(deprecated)]
pub(crate) fn basic_ptr_type<'ctx>(t: BasicTypeEnum<'ctx>) -> PointerType<'ctx> {
    t.ptr_type(inkwell::AddressSpace::default())
}

/// `From<IntType> for BasicTypeEnum`: an integer type as a basic type.
#[verifier::external_body]
pub(crate) fn int_basic_type<'ctx>(t: IntType<'ctx>) -> BasicTypeEnum<'ctx> {
    t.into()
}

/// `From<PointerType> for BasicTypeEnum`: a pointer type as a basic type.
#[verifier::external_body]
pub(crate) fn ptr_basic_type<'ctx>(t: PointerType<'ctx>) -> BasicTypeEnum<'ctx> {
    t.into()
}

/// `BasicValueEnum::get_type`: the type of a value.
#[verifier::external_body]
pub(crate) fn type_of<'ctx>(v: CgValue<'ctx>) -> BasicTypeEnum<'ctx> {
    let b: BasicValueEnum<'ctx> = match v {
        CgValue::Int(i) => i.into(),
        CgValue::Ptr(p) => p.into(),
    };
    b.get_type()
}

/// `Module::add_function`: declares a function of type `ty` with the default
/// linkage, which becomes a global of the module. It is named `name` where no
/// global has that name and `name` holds no NUL; where one has, LLVM gives it
/// another name, which is not stated.
#[verifier::external_body]
pub(crate) fn add_function<'ctx>(
    module: &mut Module<'ctx>,
    name: &str,
    ty: FunctionType<'ctx>,
) -> (r: FunctionValue<'ctx>)
    ensures
        module_name_of(*final(module)) == module_name_of(*old(module)),
        global_names_of(*final(module)) == global_names_of(*old(module)).insert(function_name_of(r)),
        !global_names_of(*old(module)).contains(name@) && !name@.contains('\0')
            ==> function_name_of(r) == name@,
{
    module.add_function(name, ty, None)
}

/// `Builder::position_at_end`: later instructions go at the end of `block`.
/// Nothing is inserted.
#[verifier::external_body]
pub(crate) fn position_at_end<'ctx>(builder: &mut Builder<'ctx>, block: BasicBlock<'ctx>)
    ensures
        built(*final(builder)) == built(*old(builder)),
        insert_block_of(*final(builder)) == Some(block),
{
    builder.position_at_end(block)
}

/// `Builder::get_insert_block`: the block the builder is positioned in, if any.
#[verifier::external_body]
pub(crate) fn get_insert_block<'ctx>(builder: &Builder<'ctx>) -> (r: Option<BasicBlock<'ctx>>)
    ensures
        r == insert_block_of(*builder),
{
    builder.get_insert_block()
}

/// The `build_*` methods fail only where the builder has not been positioned
/// (`BuilderError::UnsetPosition`); a builder that is in a block has been, as
/// only the `position_*` methods put it in one. Where a wrapper below states
/// that it succeeds in a block, that is the only error the method has.
///
/// The effect of a `build_*` call on the builder: where it succeeds, `i` is
/// inserted; where it fails (the builder is not positioned), nothing is. The
/// builder stays in its block.
pub open spec fn builds<'ctx>(after: Builder<'ctx>, before: Builder<'ctx>, ok: bool, i: Instr<'ctx>) -> bool {
    &&& insert_block_of(after) == insert_block_of(before)
    &&& built(after) == if ok {
        built(before).push(i)
    } else {
        built(before)
    }
}

/// `Builder::build_int_add`.
#[verifier::external_body]
pub(crate) fn build_int_add<'ctx>(
    builder: &mut Builder<'ctx>,
    lhs: IntValue<'ctx>,
    rhs: IntValue<'ctx>,
    name: &str,
) -> (r: Result<IntValue<'ctx>, BuilderError>)
    ensures
        builds(*final(builder), *old(builder), r is Ok, Instr::IntAdd(lhs, rhs, r->Ok_0)),
        insert_block_of(*old(builder)) is Some ==> r is Ok,
{
    builder.build_int_add(lhs, rhs, name)
}

/// `Builder::build_int_sub`.
#[verifier::external_body]
pub(crate) fn build_int_sub<'ctx>(
    builder: &mut Builder<'ctx>,
    lhs: IntValue<'ctx>,
    rhs: IntValue<'ctx>,
    name: &str,
) -> (r: Result<IntValue<'ctx>, BuilderError>)
    ensures
        builds(*final(builder), *old(builder), r is Ok, Instr::IntSub(lhs, rhs, r->Ok_0)),
        insert_block_of(*old(builder)) is Some ==> r is Ok,
{
    builder.build_int_sub(lhs, rhs, name)
}

/// `Builder::build_int_mul`.
#[verifier::external_body]
pub(crate) fn build_int_mul<'ctx>(
    builder: &mut Builder<'ctx>,
    lhs: IntValue<'ctx>,
    rhs: IntValue<'ctx>,
    name: &str,
) -> (r: Result<IntValue<'ctx>, BuilderError>)
    ensures
        builds(*final(builder), *old(builder), r is Ok, Instr::IntMul(lhs, rhs, r->Ok_0)),
{
    builder.build_int_mul(lhs, rhs, name)
}

/// `Builder::build_int_compare` with the predicate `EQ` or `ULT`.
#[verifier::external_body]
pub(crate) fn build_int_compare<'ctx>(
    builder: &mut Builder<'ctx>,
    op: Comparison,
    lhs: IntValue<'ctx>,
    rhs: IntValue<'ctx>,
    name: &str,
) -> (r: Result<IntValue<'ctx>, BuilderError>)
    ensures
        builds(*final(builder), *old(builder), r is Ok, Instr::IntCompare(op, lhs, rhs, r->Ok_0)),
        insert_block_of(*old(builder)) is Some ==> r is Ok,
{
    let predicate = match op {
        Comparison::Equal => inkwell::IntPredicate::EQ,
        Comparison::UnsignedLess => inkwell::IntPredicate::ULT,
    };
    builder.build_int_compare(predicate, lhs, rhs, name)
}

/// `Builder::build_ptr_to_int`.
#[verifier::external_body]
pub(crate) fn build_ptr_to_int<'ctx>(
    builder: &mut Builder<'ctx>,
    ptr: PointerValue<'ctx>,
    t: IntType<'ctx>,
    name: &str,
) -> (r: Result<IntValue<'ctx>, BuilderError>)
    ensures
        builds(*final(builder), *old(builder), r is Ok, Instr::PtrToInt(ptr, r->Ok_0)),
{
    builder.build_ptr_to_int(ptr, t, name)
}

/// `Builder::build_int_to_ptr`.
#[verifier::external_body]
pub(crate) fn build_int_to_ptr<'ctx>(
    builder: &mut Builder<'ctx>,
    value: IntValue<'ctx>,
    t: PointerType<'ctx>,
    name: &str,
) -> (r: Result<PointerValue<'ctx>, BuilderError>)
    ensures
        builds(*final(builder), *old(builder), r is Ok, Instr::IntToPtr(value, r->Ok_0)),
{
    builder.build_int_to_ptr(value, t, name)
}

/// `Builder::build_pointer_cast`.
#[verifier::external_body]
pub(crate) fn build_pointer_cast<'ctx>(
    builder: &mut Builder<'ctx>,
    ptr: PointerValue<'ctx>,
    t: PointerType<'ctx>,
    name: &str,
) -> (r: Result<PointerValue<'ctx>, BuilderError>)
    ensures
        builds(*final(builder), *old(builder), r is Ok, Instr::PointerCast(ptr, r->Ok_0)),
{
    builder.build_pointer_cast(ptr, t, name)
}

/// `Builder::build_return` of an integer.
#[verifier::external_body]
pub(crate) fn build_return<'ctx>(builder: &mut Builder<'ctx>, v: IntValue<'ctx>) -> (r: Result<(), BuilderError>)
    ensures
        builds(*final(builder), *old(builder), r is Ok, Instr::Return(v)),
        insert_block_of(*old(builder)) is Some ==> r is Ok,
{
    builder.build_return(Some(&v)).map(|_| ())
}

/// `From<FunctionValue> for CallableValue`: a function as a callee.
#[verifier::external_body]
pub(crate) fn callable_function<'ctx>(f: FunctionValue<'ctx>) -> CallableValue<'ctx> {
    f.into()
}

/// `TryFrom<PointerValue> for CallableValue`: the pointer as a callee, where
/// it points to a function.
#[verifier::external_body]
pub(crate) fn callable_pointer<'ctx>(p: PointerValue<'ctx>) -> Option<CallableValue<'ctx>> {
    CallableValue::try_from(p).ok()
}

/// `Builder::build_call` with one integer argument.
#[verifier::external_body]
pub(crate) fn build_call<'ctx>(
    builder: &mut Builder<'ctx>,
    callee: CallableValue<'ctx>,
    arg: IntValue<'ctx>,
    name: &str,
) -> (r: Result<CallSiteValue<'ctx>, BuilderError>)
    ensures
        builds(*final(builder), *old(builder), r is Ok, Instr::Call(callee, arg, r->Ok_0)),
{
    builder.build_call(callee, &[arg.into()], name)
}

/// `CallSiteValue::set_tail_call`.
#[verifier::external_body]
pub(crate) fn set_tail_call<'ctx>(call: CallSiteValue<'ctx>, tail: bool) {
    call.set_tail_call(tail)
}

/// `CallSiteValue::try_as_basic_value`: the value a call returns, where it is an
/// integer or a pointer.
#[verifier::external_body]
pub(crate) fn call_result<'ctx>(call: CallSiteValue<'ctx>) -> Option<CgValue<'ctx>> {
    match call.try_as_basic_value().basic() {
        Some(BasicValueEnum::IntValue(i)) => Some(CgValue::Int(i)),
        Some(BasicValueEnum::PointerValue(p)) => Some(CgValue::Ptr(p)),
        _ => None,
    }
}

/// `Builder::build_struct_gep`: the address of field `index` of the struct that
/// `ptr` points to.
#[verifier::external_body]
pub(crate) fn build_struct_gep<'ctx>(
    builder: &mut Builder<'ctx>,
    ptr: PointerValue<'ctx>,
    index: u32,
    name: &str,
) -> (r: Result<PointerValue<'ctx>, BuilderError>)
    ensures
        builds(*final(builder), *old(builder), r is Ok, Instr::StructGep(ptr, index, r->Ok_0)),
{
    builder.build_struct_gep(ptr, index, name)
}

/// `Builder::build_store`.
#[verifier::external_body]
pub(crate) fn build_store<'ctx>(
    builder: &mut Builder<'ctx>,
    ptr: PointerValue<'ctx>,
    v: CgValue<'ctx>,
) -> (r: Result<(), BuilderError>)
    ensures
        builds(*final(builder), *old(builder), r is Ok, Instr::Store(ptr, v)),
{
    match v {
        CgValue::Int(i) => builder.build_store(ptr, i).map(|_| ()),
        CgValue::Ptr(p) => builder.build_store(ptr, p).map(|_| ()),
    }
}

/// `Builder::build_load` through a typed pointer: the loaded value, where the
/// pointer points to an integer or a pointer (`PointerType::get_element_type`
/// tells the two apart from the others; `build_load` is not called on those,
/// where inkwell would reach `unreachable!`).
#[verifier::external_body]
pub(crate) fn build_load<'ctx>(
    builder: &mut Builder<'ctx>,
    ptr: PointerValue<'ctx>,
    name: &str,
) -> (r: Result<Option<CgValue<'ctx>>, BuilderError>)
    ensures
        builds(*final(builder), *old(builder), r matches Ok(Some(_)), Instr::Load(ptr, r->Ok_0->Some_0)),
{
    match ptr.get_type().get_element_type() {
        inkwell::types::AnyTypeEnum::IntType(_) | inkwell::types::AnyTypeEnum::PointerType(_) => {},
        _ => return Ok(None),
    }
    builder.build_load(ptr, name).map(|v| match v {
        BasicValueEnum::IntValue(i) => Some(CgValue::Int(i)),
        BasicValueEnum::PointerValue(p) => Some(CgValue::Ptr(p)),
        _ => None,
    })
}

/// `Builder::build_alloca` of an integer.
#[verifier::external_body]
pub(crate) fn build_alloca<'ctx>(
    builder: &mut Builder<'ctx>,
    t: IntType<'ctx>,
    name: &str,
) -> (r: Result<PointerValue<'ctx>, BuilderError>)
    ensures
        builds(*final(builder), *old(builder), r is Ok, Instr::Alloca(r->Ok_0)),
{
    builder.build_alloca(t, name)
}

/// `Builder::build_unconditional_branch`.
#[verifier::external_body]
pub(crate) fn build_unconditional_branch<'ctx>(
    builder: &mut Builder<'ctx>,
    target: BasicBlock<'ctx>,
) -> (r: Result<(), BuilderError>)
    ensures
        builds(*final(builder), *old(builder), r is Ok, Instr::Branch(target)),
{
    builder.build_unconditional_branch(target).map(|_| ())
}

/// `Builder::build_conditional_branch`.
#[verifier::external_body]
pub(crate) fn build_conditional_branch<'ctx>(
    builder: &mut Builder<'ctx>,
    condition: IntValue<'ctx>,
    then_block: BasicBlock<'ctx>,
    else_block: BasicBlock<'ctx>,
) -> (r: Result<(), BuilderError>)
    ensures
        builds(*final(builder), *old(builder), r is Ok, Instr::CondBranch(condition, then_block, else_block)),
{
    builder.build_conditional_branch(condition, then_block, else_block).map(|_| ())
}

/// `Builder::build_phi`.
#[verifier::external_body]
pub(crate) fn build_phi<'ctx>(
    builder: &mut Builder<'ctx>,
    t: BasicTypeEnum<'ctx>,
    name: &str,
) -> (r: Result<PhiValue<'ctx>, BuilderError>)
    ensures
        builds(*final(builder), *old(builder), r is Ok, Instr::Phi(r->Ok_0)),
{
    builder.build_phi(t, name)
}

/// `PhiValue::add_incoming` of two values with the blocks they come from.
#[verifier::external_body]
pub(crate) fn add_incoming<'ctx>(
    phi: PhiValue<'ctx>,
    first: CgValue<'ctx>,
    first_block: BasicBlock<'ctx>,
    second: CgValue<'ctx>,
    second_block: BasicBlock<'ctx>,
) {
    let a: BasicValueEnum<'ctx> = match first {
        CgValue::Int(i) => i.into(),
        CgValue::Ptr(p) => p.into(),
    };
    let b: BasicValueEnum<'ctx> = match second {
        CgValue::Int(i) => i.into(),
        CgValue::Ptr(p) => p.into(),
    };
    phi.add_incoming(&[(&a as &dyn BasicValue<'ctx>, first_block), (&b, second_block)])
}

/// `PhiValue::as_basic_value`: the phi's value, where it is an integer or a pointer.
#[verifier::external_body]
pub(crate) fn phi_value<'ctx>(phi: PhiValue<'ctx>) -> Option<CgValue<'ctx>> {
    match phi.as_basic_value() {
        BasicValueEnum::IntValue(i) => Some(CgValue::Int(i)),
        BasicValueEnum::PointerValue(p) => Some(CgValue::Ptr(p)),
        _ => None,
    }
}

/// `FunctionValue::get_nth_param`: the parameter at `n`, where there is one and it
/// is an integer.
/// `n + 1` is computed there, so `n` is below `u32::MAX`.
#[verifier::external_body]
pub(crate) fn int_param<'ctx>(f: FunctionValue<'ctx>, n: u32) -> Option<IntValue<'ctx>>
    requires
        n < u32::MAX,
{
    match f.get_nth_param(n) {
        Some(BasicValueEnum::IntValue(i)) => Some(i),
        _ => None,
    }
}

/// `BasicValueEnum::set_name` of an integer value.
#[verifier::external_body]
pub(crate) fn set_int_name<'ctx>(v: IntValue<'ctx>, name: &str) {
    v.set_name(name)
}

/// `FunctionValue::as_global_value`.
#[verifier::external_body]
pub(crate) fn function_global<'ctx>(f: FunctionValue<'ctx>) -> GlobalValue<'ctx> {
    f.as_global_value()
}

/// `GlobalValue::as_pointer_value`: the address of the global.
#[verifier::external_body]
pub(crate) fn global_pointer<'ctx>(g: GlobalValue<'ctx>) -> PointerValue<'ctx> {
    g.as_pointer_value()
}

/// `BasicBlock::get_parent`: the function the block belongs to, if any.
#[verifier::external_body]
pub(crate) fn block_parent<'ctx>(block: BasicBlock<'ctx>) -> (r: Option<FunctionValue<'ctx>>)
    ensures
        r == block_parent_of(block),
{
    block.get_parent()
}

/// The text of a builder error (its `Display`).
#[verifier::external_body]
pub(crate) fn builder_error_text(e: BuilderError) -> String {
    e.to_string()
}

} // verus!
