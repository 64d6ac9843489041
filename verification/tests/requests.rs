use gcc_builder::builder::Builder;
use gcc_builder::context::CodegenCx;
use gcc_builder::graph::{Block, Function, LValue, RValue};
use gcc_builder::layout::{
    Abi, Align, Layout, OperandRef, OperandValue, PlaceRef, Primitive, Scalar, Size, WrappingRange,
};
use gcc_builder::types::Type;

fn fresh() -> (Builder, Function) {
    let mut cx = CodegenCx::new(8);
    let ret = cx.i32_type;
    let f = cx.graph.new_function("f", vec![], ret);
    let entry = cx.graph.new_block(f, "entry");
    (Builder::build(cx, entry), f)
}

fn named(bx: &mut Builder, f: Function, ty: Type, name: &str) -> RValue {
    bx.cx.graph.new_local(f, ty, name).to_rvalue()
}

#[test]
fn handles_of_the_graph_are_told_from_others() {
    let (mut bx, f) = fresh();
    let i32_type = bx.cx.i32_type;
    let a = named(&mut bx, f, i32_type, "a");
    let sum = bx.add(a, a);
    assert!(bx.holds_value(a));
    assert!(bx.holds_value(sum));
    assert!(!bx.holds_value(RValue { id: sum.id + 1 }));
    assert!(bx.holds_values(&[]));
    assert!(bx.holds_values(&[a, sum]));
    assert!(!bx.holds_values(&[a, RValue { id: 99 }, sum]));
    assert!(bx.holds_storage(LValue { id: a.id }));
    assert!(!bx.holds_storage(LValue { id: sum.id }));
    assert!(!bx.holds_storage(LValue { id: 99 }));
    assert!(bx.holds_type(i32_type));
    assert!(!bx.holds_type(Type { id: bx.cx.graph.types.infos.len() }));
    assert!(bx.holds_block(Block { id: 0 }));
    assert!(!bx.holds_block(Block { id: 1 }));
}

#[test]
fn a_block_is_ready_until_it_has_its_terminator() {
    let (mut bx, f) = fresh();
    let i32_type = bx.cx.i32_type;
    let a = bx.cx.graph.new_local(f, i32_type, "a");
    assert!(bx.is_ready());
    bx.assign(a, a.to_rvalue());
    assert!(bx.is_ready());
    bx.ret(a.to_rvalue());
    assert!(!bx.is_ready());
    let next = bx.append_sibling_block("next");
    bx.switch_to_block(next);
    assert!(bx.is_ready());
}

#[test]
fn a_store_asks_for_a_pointer_where_the_types_are_the_same() {
    let (mut bx, f) = fresh();
    let i32_type = bx.cx.i32_type;
    let ptr = bx.cx.graph.make_pointer(i32_type);
    let v = named(&mut bx, f, i32_type, "v");
    let w = named(&mut bx, f, i32_type, "w");
    let p = named(&mut bx, f, ptr, "p");
    assert!(bx.admits_store(v, p));
    assert!(bx.admits_store(p, p));
    assert!(bx.admits_store(p, v));
    assert!(!bx.admits_store(v, w));
    assert!(!bx.admits_store(v, RValue { id: 99 }));
    assert!(bx.points(p));
    assert!(!bx.points(v));
    assert!(!bx.points(RValue { id: 99 }));
    bx.ret(v);
    assert!(!bx.admits_store(v, p));
}

#[test]
fn an_address_computation_asks_for_a_pointer_or_an_array() {
    let (mut bx, f) = fresh();
    let i32_type = bx.cx.i32_type;
    let ptr = bx.cx.graph.make_pointer(i32_type);
    let array = bx.cx.graph.new_array_type(i32_type, 4);
    let parray = bx.cx.graph.make_pointer(array);
    let i = named(&mut bx, f, i32_type, "i");
    let p = named(&mut bx, f, ptr, "p");
    let a = named(&mut bx, f, array, "a");
    let q = named(&mut bx, f, parray, "q");
    assert!(bx.admits_gep(i, &[]));
    assert!(!bx.admits_gep(i, &[i]));
    assert!(bx.admits_gep(p, &[i, i, i]));
    assert!(bx.admits_gep(a, &[i]));
    assert!(!bx.admits_gep(p, &[RValue { id: 99 }]));
    assert!(bx.admits_inbounds_gep(p, &[i]));
    assert!(!bx.admits_inbounds_gep(p, &[]));
    assert!(!bx.admits_inbounds_gep(p, &[i, i]));
    assert!(bx.admits_inbounds_gep(q, &[i, i]));
    assert!(!bx.admits_inbounds_gep(q, &[i, i, i]));
    assert!(!bx.admits_inbounds_gep(a, &[i, i]));
}

#[test]
fn a_member_is_asked_of_what_has_one() {
    let (mut bx, f) = fresh();
    let i32_type = bx.cx.i32_type;
    let array = bx.cx.graph.new_array_type(i32_type, 4);
    let vector = bx.cx.graph.new_vector_type(i32_type, 4);
    let record = bx.cx.graph.new_struct_type("s", vec![i32_type, i32_type]);
    let parray = bx.cx.graph.make_pointer(array);
    let pvector = bx.cx.graph.make_pointer(vector);
    let precord = bx.cx.graph.make_pointer(record);
    let a = named(&mut bx, f, parray, "a");
    let v = named(&mut bx, f, pvector, "v");
    let s = named(&mut bx, f, precord, "s");
    let whole = named(&mut bx, f, record, "whole");
    let units = named(&mut bx, f, vector, "units");
    let elements = named(&mut bx, f, array, "elements");
    let x = named(&mut bx, f, i32_type, "x");
    assert!(bx.admits_struct_gep(array, a, 3));
    assert!(bx.admits_struct_gep(array, a, 1000));
    assert!(!bx.admits_struct_gep(array, a, u64::MAX));
    assert!(bx.admits_struct_gep(vector, v, 1));
    assert!(bx.admits_struct_gep(record, s, 1));
    assert!(!bx.admits_struct_gep(record, s, 2));
    assert!(!bx.admits_struct_gep(record, a, 0));
    assert!(!bx.admits_struct_gep(i32_type, s, 0));
    assert!(!bx.admits_struct_gep(record, whole, 0));

    assert!(bx.admits_extract_value(whole, 1));
    assert!(!bx.admits_extract_value(whole, 2));
    assert!(bx.admits_extract_value(s, 0));
    assert!(!bx.admits_extract_value(s, 2));
    assert!(bx.admits_extract_value(elements, 7));
    assert!(!bx.admits_extract_value(units, 0));
    assert!(!bx.admits_extract_value(x, 0));
    assert!(!bx.admits_extract_value(a, 0));

    assert!(bx.admits_insert_value(s, x, 1));
    assert!(!bx.admits_insert_value(s, x, 2));
    assert!(bx.admits_insert_value(elements, x, 0));
    assert!(bx.admits_insert_value(whole, x, 0));
    assert!(!bx.admits_insert_value(whole, x, 2));
    let copy = bx.cx.graph.new_cast(whole, record);
    assert!(!bx.admits_insert_value(copy, x, 0));
    assert!(!bx.admits_insert_value(units, x, 0));
    assert!(!bx.admits_insert_value(s, RValue { id: 99 }, 0));
}

#[test]
fn a_shuffle_asks_for_a_vector_and_a_struct_of_indices() {
    let (mut bx, f) = fresh();
    let i32_type = bx.cx.i32_type;
    let vector = bx.cx.graph.new_vector_type(i32_type, 4);
    let mask_type = bx.cx.graph.new_struct_type("mask", vec![i32_type, i32_type]);
    let v = named(&mut bx, f, vector, "v");
    let mask = named(&mut bx, f, mask_type, "mask");
    assert!(bx.admits_shuffle_vector(v, v, mask));
    assert!(!bx.admits_shuffle_vector(v, v, v));
    assert!(!bx.admits_shuffle_vector(mask, v, mask));
    assert!(!bx.admits_shuffle_vector(v, RValue { id: 99 }, mask));
}

#[test]
fn a_remainder_asks_for_a_float_or_a_double() {
    let (mut bx, f) = fresh();
    let float_type = bx.cx.float_type;
    let double_type = bx.cx.double_type;
    let i32_type = bx.cx.i32_type;
    let constant = bx.cx.graph.make_const(float_type);
    let volatile_double = bx.cx.graph.make_volatile(double_type);
    let a = named(&mut bx, f, float_type, "a");
    let b = named(&mut bx, f, double_type, "b");
    let c = named(&mut bx, f, constant, "c");
    let d = named(&mut bx, f, volatile_double, "d");
    let i = named(&mut bx, f, i32_type, "i");
    assert!(bx.admits_frem(a, a));
    assert!(bx.admits_frem(b, a));
    assert!(bx.admits_frem(c, a));
    assert!(bx.admits_frem(d, a));
    assert!(!bx.admits_frem(i, a));
    assert!(!bx.admits_frem(a, RValue { id: 99 }));
}

#[test]
fn a_call_asks_that_the_arguments_can_be_fitted() {
    let (mut bx, f) = fresh();
    let i32_type = bx.cx.i32_type;
    let u32_type = bx.cx.u32_type;
    let float_type = bx.cx.float_type;
    let vector = bx.cx.graph.new_vector_type(i32_type, 4);
    let record = bx.cx.graph.new_struct_type("s", vec![i32_type]);
    let precord = bx.cx.graph.make_pointer(record);
    let defined = bx.cx.graph.new_function("defined", vec![i32_type], i32_type);
    bx.cx.register_function(defined);
    let defined = bx.cx.graph.function_address(defined);
    let declared = bx.cx.graph.new_function("declared", vec![i32_type, record], i32_type);
    let declared = bx.cx.graph.function_address(declared);
    let signature = bx.cx.graph.types.dyncast_function_ptr_type(bx.val_ty(declared)).unwrap();
    let i = named(&mut bx, f, i32_type, "i");
    let u = named(&mut bx, f, u32_type, "u");
    let x = named(&mut bx, f, float_type, "x");
    let v = named(&mut bx, f, vector, "v");
    let s = named(&mut bx, f, record, "s");
    let p = named(&mut bx, f, precord, "p");

    assert!(bx.admits_call(defined, &[i]));
    assert!(bx.admits_call(defined, &[v, v, v]));
    assert!(!bx.admits_call(defined, &[RValue { id: 99 }]));
    assert!(!bx.admits_call(RValue { id: 99 }, &[i]));
    assert!(!bx.admits_call(i, &[i]));

    assert!(bx.admits_call(declared, &[i, s]));
    assert!(bx.admits_call(declared, &[u, s]));
    assert!(bx.admits_call(declared, &[x, s]));
    assert!(bx.admits_call(declared, &[i, p]));
    assert!(bx.admits_call(declared, &[i]));
    assert!(!bx.admits_call(declared, &[v, s]));
    assert!(!bx.admits_call(declared, &[i, v]));
    bx.cx.mark_on_stack(signature, 1);
    assert!(bx.admits_call(declared, &[i, p]));
    assert!(bx.admits_call(declared, &[i, s]));
    assert!(!bx.admits_call(declared, &[i, x]));
    assert!(!bx.admits_call(declared, &[i, v]));

    let void_type = bx.cx.void_type;
    let quiet = bx.cx.graph.new_function("quiet", vec![], void_type);
    bx.cx.register_function(quiet);
    let quiet = bx.cx.graph.function_address(quiet);
    bx.cx.return_value_count = usize::MAX;
    assert!(!bx.admits_call(defined, &[i]));
    assert!(!bx.admits_call(declared, &[i, s]));
    assert!(bx.admits_call(quiet, &[]));
    bx.cx.return_value_count = 0;
    bx.ret(i);
    assert!(!bx.admits_call(defined, &[i]));
}

fn plain(bytes: u8) -> Scalar {
    Scalar {
        value: Primitive::Int { bytes, signed: false },
        valid_range: WrappingRange { start: 0, end: 255 },
        size: Size { bytes: bytes as u64 },
        align: Align { bytes: bytes as u64 },
    }
}

#[test]
fn a_load_of_an_operand_asks_what_its_layout_needs() {
    let (mut bx, f) = fresh();
    let u8_type = bx.cx.u8_type;
    let pair = bx.cx.graph.new_struct_type("pair", vec![u8_type, u8_type]);
    let single = bx.cx.graph.new_struct_type("single", vec![u8_type]);
    let pu8 = bx.cx.graph.make_pointer(u8_type);
    let ppair = bx.cx.graph.make_pointer(pair);
    let psingle = bx.cx.graph.make_pointer(single);
    let v = named(&mut bx, f, u8_type, "v");
    let p = named(&mut bx, f, pu8, "p");
    let q = named(&mut bx, f, ppair, "q");
    let r = named(&mut bx, f, psingle, "r");
    let at = |llval, llextra, abi, bytes, gcc_type| PlaceRef {
        llval,
        llextra,
        layout: Layout { abi, size: Size { bytes }, gcc_type },
        align: Align { bytes: 1 },
    };
    let scalar = Abi::Scalar { scalar: plain(1) };
    let two = Abi::ScalarPair { first: plain(1), second: plain(1) };
    assert!(bx.admits_load_operand(at(p, None, scalar, 1, u8_type)));
    assert!(!bx.admits_load_operand(at(v, None, scalar, 1, u8_type)));
    assert!(!bx.admits_load_operand(at(p, Some(v), scalar, 1, u8_type)));
    assert!(bx.admits_load_operand(at(v, None, Abi::Aggregate { sized: true }, 0, u8_type)));
    assert!(bx.admits_load_operand(at(v, None, Abi::Aggregate { sized: true }, 9, u8_type)));
    assert!(bx.admits_load_operand(at(v, Some(v), Abi::Aggregate { sized: false }, 9, u8_type)));
    assert!(!bx.admits_load_operand(at(v, None, Abi::Aggregate { sized: false }, 9, u8_type)));
    assert!(bx.admits_load_operand(at(q, None, two, 2, pair)));
    assert!(!bx.admits_load_operand(at(r, None, two, 2, single)));
    assert!(!bx.admits_load_operand(at(q, None, two, 2, u8_type)));
    assert!(!bx.admits_load_operand(at(p, None, two, 2, pair)));
    assert!(!bx.admits_load_operand(at(RValue { id: 99 }, None, scalar, 1, u8_type)));
    bx.cx.return_value_count = usize::MAX - 1;
    assert!(bx.admits_load_operand(at(p, None, scalar, 1, u8_type)));
    assert!(!bx.admits_load_operand(at(q, None, two, 2, pair)));

    let array = bx.cx.graph.new_array_type(u8_type, 4);
    let parray = bx.cx.graph.make_pointer(array);
    let a = named(&mut bx, f, parray, "a");
    let pp = bx.cx.graph.make_pointer(pu8);
    let b = named(&mut bx, f, pp, "b");
    let pairs = bx.cx.graph.new_array_type(pair, 4);
    let ppairs = bx.cx.graph.make_pointer(pairs);
    let c = named(&mut bx, f, ppairs, "c");
    let one = |value| OperandRef {
        val: OperandValue::Immediate { value },
        layout: Layout { abi: scalar, size: Size { bytes: 1 }, gcc_type: u8_type },
    };
    let both = |first, second| OperandRef {
        val: OperandValue::Pair { first, second },
        layout: Layout { abi: two, size: Size { bytes: 2 }, gcc_type: pair },
    };
    let held = |ptr, extra| OperandRef {
        val: OperandValue::Ref { ptr, extra, align: Align { bytes: 1 } },
        layout: Layout { abi: Abi::Aggregate { sized: true }, size: Size { bytes: 4 }, gcc_type: u8_type },
    };
    let nothing = OperandRef {
        val: OperandValue::ZeroSized,
        layout: Layout { abi: Abi::Aggregate { sized: true }, size: Size { bytes: 0 }, gcc_type: u8_type },
    };
    assert!(bx.admits_write_repeatedly(one(v), at(a, None, scalar, 1, u8_type)));
    assert!(bx.admits_write_repeatedly(one(v), at(b, None, scalar, 1, u8_type)));
    assert!(!bx.admits_write_repeatedly(one(v), at(p, None, scalar, 1, u8_type)));
    assert!(!bx.admits_write_repeatedly(one(v), at(v, None, scalar, 1, u8_type)));
    assert!(!bx.admits_write_repeatedly(one(RValue { id: 99 }), at(a, None, scalar, 1, u8_type)));
    assert!(bx.admits_write_repeatedly(nothing, at(a, None, scalar, 1, u8_type)));
    assert!(bx.admits_write_repeatedly(held(p, None), at(a, None, scalar, 1, u8_type)));
    assert!(!bx.admits_write_repeatedly(held(p, Some(v)), at(a, None, scalar, 1, u8_type)));
    assert!(bx.admits_write_repeatedly(both(v, v), at(c, None, two, 2, pair)));
    assert!(!bx.admits_write_repeatedly(both(v, v), at(a, None, two, 2, pair)));
    assert!(!bx.admits_write_repeatedly(both(v, RValue { id: 99 }), at(c, None, two, 2, pair)));

    assert!(bx.admits_store_operand(OperandValue::ZeroSized, at(p, None, scalar, 1, u8_type)));
    assert!(bx.admits_store_operand(OperandValue::Immediate { value: v }, at(p, None, scalar, 1, u8_type)));
    assert!(!bx.admits_store_operand(OperandValue::Immediate { value: v }, at(v, None, scalar, 1, u8_type)));
    assert!(bx.admits_store_operand(OperandValue::Pair { first: v, second: v }, at(q, None, two, 2, pair)));
    assert!(!bx.admits_store_operand(OperandValue::Pair { first: v, second: v }, at(r, None, two, 2, pair)));
    assert!(!bx.admits_store_operand(OperandValue::Pair { first: v, second: v }, at(q, None, scalar, 2, pair)));
    assert!(bx.admits_store_operand(held(q, None).val, at(q, None, two, 2, pair)));
    assert!(!bx.admits_store_operand(held(q, Some(v)).val, at(q, None, two, 2, pair)));
    bx.ret(v);
    assert!(!bx.admits_write_repeatedly(one(v), at(a, None, scalar, 1, u8_type)));
    assert!(!bx.admits_store_operand(OperandValue::ZeroSized, at(p, None, scalar, 1, u8_type)));
}

#[test]
fn parameters_on_the_stack_are_kept_by_signature() {
    let (mut bx, _) = fresh();
    assert!(!bx.cx.is_on_stack(3, 1));
    bx.cx.mark_on_stack(3, 1);
    bx.cx.mark_on_stack(3, 4);
    bx.cx.mark_on_stack(5, 0);
    bx.cx.mark_on_stack(3, 1);
    assert!(bx.cx.is_on_stack(3, 1));
    assert!(bx.cx.is_on_stack(3, 4));
    assert!(bx.cx.is_on_stack(5, 0));
    assert!(!bx.cx.is_on_stack(3, 0));
    assert!(!bx.cx.is_on_stack(5, 1));
    assert!(!bx.cx.is_on_stack(4, 1));
    assert_eq!(bx.cx.on_stack_params.len(), 2);
}
