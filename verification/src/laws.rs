//! What holds of everything the emitter builds: laws over the reference
//! semantics and over the shape of blocks.

use vstd::prelude::*;
use crate::builder::{shorter, Builder};
use crate::builtins::Prim;
use crate::graph::{ends_once, Block, Builtin, Graph, Instr, LValue, NodeKind, RValue, Scope};
use crate::layout::Align;
use crate::ops::{AtomicOrdering, BinaryOp, ExtremumOperation};
use crate::semantics::{
    combined, compared, converted, fetch, flag, in_memory, put, sized, truthy, wrapped, Addr,
    Memory, Val,
};
use crate::types::{Type, TypeKind};

verus! {

/// The cell of the variable that the storage node `l` is, in `post`.
pub open spec fn cell_of(post: &Builder, l: LValue) -> Addr {
    match post.cx.graph.nodes@[l.id as int].kind {
        NodeKind::Var { var } => Addr { region: var, offset: 0 },
        _ => Addr { region: 0, offset: 0 },
    }
}

/// A sum evaluates to the sum of its operands, wrapped round at the width
/// of the type of the first.
///
/// After `add` has taken a builder from `pre` to `post`, the result
/// evaluates, in any memory, to what addition in the type of the first
/// operand gives of what the operands evaluate to, the first one first.
/// Where both operands are variables, nothing is written, and the
/// operands are what the cells of the variables hold; where those are
/// integers, the result is their sum as a value of that type.
pub proof fn law_sum_evaluates_to_the_sum(
    pre: Builder,
    post: Builder,
    a: RValue,
    b: RValue,
    r: RValue,
    s: Memory,
)
    requires
        pre.wf(),
        pre.has_value(a),
        pre.has_value(b),
        pre.emits(&post, r, Builder::binary_node(BinaryOp::Plus, pre.type_of(a), a, b)),
    ensures
        ({
            let g = post.cx.graph;
            let (x, s1) = g.eval(a.id as int, s);
            let (y, s2) = g.eval(b.id as int, s1);
            &&& g.eval(r.id as int, s) == (
                combined(&g.types, BinaryOp::Plus, pre.type_of(a), x, y),
                s2,
            )
            &&& g.kind_of(a) is Var && g.kind_of(b) is Var ==> {
                &&& s2 == s
                &&& x == fetch(s, cell_of(&post, LValue { id: a.id }))
                &&& y == fetch(s, cell_of(&post, LValue { id: b.id }))
            }
            &&& x is Int && y is Int ==> g.eval(r.id as int, s).0 == sized(
                &g.types,
                pre.type_of(a),
                x->value + y->value,
            )
        }),
{
    let g = post.cx.graph;
    let n = pre.cx.graph.nodes@.len() as int;
    assert(g.nodes@[n] == Builder::binary_node(BinaryOp::Plus, pre.type_of(a), a, b));
    assert(g.nodes.len() == g.nodes@.len());
    g.lemma_binary(r.id as int, s);
    pre.lemma_wf();
    assert(pre.cx.graph.node_ok(a.id as int)) by {
        reveal(Builder::wf);
    }
    assert(pre.cx.graph.node_ok(b.id as int)) by {
        reveal(Builder::wf);
    }
    assert(g.nodes@[a.id as int] == pre.cx.graph.nodes@[a.id as int]);
    assert(g.nodes@[b.id as int] == pre.cx.graph.nodes@[b.id as int]);
    if g.kind_of(a) is Var && g.kind_of(b) is Var {
        g.lemma_variable(a.id as int, s);
        g.lemma_variable(b.id as int, s);
    }
}

/// A choice evaluates to the value chosen: where the condition holds, to
/// the first value; where it does not, to the second, converted to the
/// type of the first where its type is not compatible with it.
///
/// After `select` has taken a builder from `pre` to `post`, a run of
/// the graph from where the block that was under the cursor went on,
/// through at most two jumps, ends at the start of the block now under
/// the cursor; the memory is the one after the evaluation of the
/// condition and of the chosen value, with that value in the cell of
/// the result's variable; and the result evaluates to that value there.
/// The memory must have the cell of that variable.
pub proof fn law_select_evaluates_to_the_chosen_value(
    pre: Builder,
    post: Builder,
    cond: RValue,
    then_val: RValue,
    else_val: RValue,
    r: RValue,
    s: Memory,
)
    requires
        pre.wf(),
        pre.has_value(cond),
        pre.has_value(then_val),
        pre.has_value(else_val),
        pre.selected(&post, cond, then_val, else_val, r),
        ({
            let g = post.cx.graph;
            let (c, s0) = g.eval(cond.id as int, s);
            let chosen = if truthy(c) {
                then_val
            } else {
                pre.select_else(then_val, else_val)
            };
            in_memory(g.eval(chosen.id as int, s0).1, cell_of(&post, LValue { id: r.id }))
        }),
    ensures
        ({
            let g = post.cx.graph;
            let (c, s0) = g.eval(cond.id as int, s);
            let chosen = if truthy(c) {
                then_val
            } else {
                pre.select_else(then_val, else_val)
            };
            let (x, s1) = g.eval(chosen.id as int, s0);
            let end = g.run(pre.block, pre.cx.graph.instrs(pre.block).len() as int, s, 2);
            &&& end.block == post.block
            &&& end.pc == 0
            &&& end.memory == put(s1, cell_of(&post, LValue { id: r.id }), x)
            &&& g.eval(r.id as int, end.memory) == (x, end.memory)
            &&& pre.select_converts(then_val, else_val) ==> forall|m: Memory|
                #[trigger] g.eval(pre.select_else(then_val, else_val).id as int, m) == (
                    converted(&g.types, g.eval(else_val.id as int, m).0, pre.type_of(then_val)),
                    g.eval(else_val.id as int, m).1,
                )
        }),
{
    pre.lemma_wf();
    let g = post.cx.graph;
    let n = pre.cx.graph.nodes@.len() as int;
    let blocks = pre.cx.graph.blocks@.len() as int;
    let entry = pre.block;
    let pc = pre.cx.graph.instrs(entry).len() as int;
    let then_block = pre.nth_block(0);
    let else_block = pre.nth_block(1);
    let after_block = pre.nth_block(2);
    let variable = pre.nth_storage(0);
    let ty = pre.type_of(then_val);
    assert(g.blocks.len() == g.blocks@.len());
    assert(g.nodes.len() == g.nodes@.len());
    assert(g.nodes@[n] == pre.var_node(ty));
    let var = pre.cx.graph.vars@.len() as usize;
    let cell = Addr { region: var, offset: 0 };
    assert(cell_of(&post, LValue { id: r.id }) == cell);
    let (c, s0) = g.eval(cond.id as int, s);
    let chosen = if truthy(c) {
        then_val
    } else {
        pre.select_else(then_val, else_val)
    };
    let branch = if truthy(c) {
        then_block
    } else {
        else_block
    };
    let (x, s1) = g.eval(chosen.id as int, s0);
    let s2 = put(s1, cell, x);
    // the branch
    assert(g.instrs(entry)[pc] == (Instr::Conditional {
        cond,
        on_true: then_block,
        on_false: else_block,
    }));
    assert(g.successor(g.instrs(entry)[pc], s) == (Some(branch), s0));
    g.lemma_run_over(entry, pc, s, 2);
    // the chosen block
    assert(g.instrs(branch) == seq![
        Instr::Assign { target: variable, value: chosen },
        Instr::Jump { dest: after_block },
    ]);
    g.lemma_variable(n, s1);
    assert(g.step(g.instrs(branch)[0], s0) == s2);
    g.lemma_run_on(branch, 0, s0, 1);
    assert(g.successor(g.instrs(branch)[1], s2) == (Some(after_block), s2));
    g.lemma_run_over(branch, 1, s2, 1);
    g.lemma_run_out(after_block, 0, s2, 0);
    // the result
    g.lemma_variable(n, s2);
    assert(fetch(s2, cell) == x);
    if pre.select_converts(then_val, else_val) {
        assert(g.nodes@[n + 1] == Builder::cast_node(else_val, ty));
        assert forall|m: Memory|
            #[trigger] g.eval(pre.select_else(then_val, else_val).id as int, m) == (
                converted(&g.types, g.eval(else_val.id as int, m).0, ty),
                g.eval(else_val.id as int, m).1,
            ) by {
            assert(pre.select_else(then_val, else_val).id == n + 1);
            g.lemma_conversion(n + 1, m);
        }
    }
}

/// The nodes that a store assigns through: the pointer `via`, a
/// reinterpretation of `p` or of a reinterpretation of `p`, of a pointer
/// type, and the storage `target` that it points to.
pub open spec fn assigns_through(g: &Graph, target: LValue, p: RValue) -> bool {
    let via = g.nodes@[target.id as int].kind->Deref_ptr;
    let inner = g.nodes@[via.id as int].kind->Bitcast_value;
    &&& g.sound_node(target.id as int)
    &&& g.nodes@[target.id as int].kind is Deref
    &&& g.sound_node(via.id as int)
    &&& g.nodes@[via.id as int].kind is Bitcast
    &&& g.types.shape(g.nodes@[via.id as int].ty) is Pointer
    &&& inner == p || {
        &&& g.sound_node(inner.id as int)
        &&& g.nodes@[inner.id as int].kind == (NodeKind::Bitcast { value: p })
        &&& g.types.shape(g.nodes@[inner.id as int].ty) is Pointer
    }
}

/// A store assigns through a reinterpretation of the pointer it was
/// given.
pub proof fn lemma_store_assigns_through(
    m1: Builder,
    m2: Builder,
    val: RValue,
    p: RValue,
    align: Align,
    zero: RValue,
)
    requires
        m1.wf(),
        m2.wf(),
        m1.has_value(p),
        m1.has_value(val),
        m1.stored(&m2, val, p, align, zero),
    ensures
        assigns_through(&m2.cx.graph, m1.store_target(val, p), p),
        m2.cx.graph.instrs(m1.block) == m1.cx.graph.instrs(m1.block) + seq![
            Instr::Assign { target: m1.store_target(val, p), value: val },
        ],
        m2.block == m1.block,
{
    m2.lemma_wf();
    let g2 = m2.cx.graph;
    let n1 = m1.cx.graph.nodes@.len() as int;
    let cast = m1.type_of(p) != m1.type_of(val);
    let k: int = if cast {
        1
    } else {
        0
    };
    let nodes = m1.store_nodes(&m2, val, p, align);
    assert(g2.nodes.len() == g2.nodes@.len());
    assert(g2.nodes@ == m1.cx.graph.nodes@ + nodes);
    assert(nodes.len() == k + 4);
    let aligned = m1.aligned_store_type(&m2, val, p, align);
    g2.types.lemma_found(TypeKind::Pointer { pointee: aligned });
    if cast {
        g2.types.lemma_found(TypeKind::Pointer { pointee: m1.type_of(val) });
        assert(g2.nodes@[n1] == nodes[0]);
    }
    assert(g2.nodes@[n1 + k + 1] == nodes[k + 1]);
    assert(g2.nodes@[n1 + k + 2] == nodes[k + 2]);
    assert(m1.store_target(val, p).id == n1 + k + 2);
}

/// Nodes that a store assigns through stay such nodes when the builder
/// goes on.
pub proof fn lemma_assigns_through_kept(m2: Builder, post: Builder, target: LValue, p: RValue)
    requires
        m2.wf(),
        m2.grew_into(&post),
        assigns_through(&m2.cx.graph, target, p),
    ensures
        assigns_through(&post.cx.graph, target, p),
{
    m2.lemma_grew_prefixes(&post);
    let g2 = m2.cx.graph;
    let via = g2.nodes@[target.id as int].kind->Deref_ptr;
    let inner = g2.nodes@[via.id as int].kind->Bitcast_value;
    m2.lemma_value_kept(&post, via);
    assert(post.cx.graph.nodes@[target.id as int] == g2.nodes@[target.id as int]);
    if inner != p {
        m2.lemma_value_kept(&post, inner);
    }
}

/// An assignment through a reinterpreted pointer writes to the cell the
/// pointer evaluates to.
pub proof fn lemma_assignment_through(g: &Graph, target: LValue, p: RValue, val: RValue, s: Memory, a: Addr)
    requires
        assigns_through(g, target, p),
        g.eval(p.id as int, g.eval(val.id as int, s).1) == (
            Val::Ptr { addr: a },
            g.eval(val.id as int, s).1,
        ),
    ensures
        g.step(Instr::Assign { target, value: val }, s) == put(
            g.eval(val.id as int, s).1,
            a,
            g.eval(val.id as int, s).0,
        ),
{
    let sx = g.eval(val.id as int, s).1;
    let via = g.nodes@[target.id as int].kind->Deref_ptr;
    let inner = g.nodes@[via.id as int].kind->Bitcast_value;
    if inner != p {
        g.lemma_conversion(inner.id as int, sx);
    }
    g.lemma_conversion(via.id as int, sx);
    g.lemma_dereference(target.id as int, sx);
}

/// What is written through the address of a member is read back through
/// it: of an element of an array, of a unit of a vector, of a field of a
/// struct alike.
///
/// `struct_gep` has taken a builder from `pre` to `m1` and has given the
/// address `p`; `store` of `val` through `p` has taken it to `m2`, and
/// `load` through `p` to `post`, with the result `r`. A run of the two
/// instructions ends with `r` evaluating to the value `val` had. This is
/// claimed where `p` evaluates to one and the same cell, `a`, before and
/// after the write, and changes no memory: an address that is read from
/// the very cell that is written through it may change with the write.
/// The memory must have the cell `a` and the cell of the variable that
/// `r` is.
pub proof fn law_member_written_is_member_read(
    pre: Builder,
    m1: Builder,
    m2: Builder,
    post: Builder,
    value_type: Type,
    base: RValue,
    idx: u64,
    val: RValue,
    p: RValue,
    align: Align,
    zero: RValue,
    r: RValue,
    s: Memory,
    a: Addr,
)
    requires
        pre.wf(),
        pre.has_value(val),
        pre.adds(&m1, pre.struct_gep_nodes(&m1, value_type, base, idx)),
        p.id == m1.cx.graph.nodes@.len() - 1,
        m1.cx.graph.has_value(p),
        m1.cx.graph.types.is_pointer(m1.type_of(p)),
        m1.stored(&m2, val, p, align, zero),
        m2.loaded(&post, p, r),
        m1.wf(),
        m2.wf(),
        ({
            let g = post.cx.graph;
            let (x, sx) = g.eval(val.id as int, s);
            let s2 = put(sx, a, x);
            &&& g.eval(p.id as int, sx) == (Val::Ptr { addr: a }, sx)
            &&& g.eval(p.id as int, s2) == (Val::Ptr { addr: a }, s2)
            &&& in_memory(sx, a)
            &&& in_memory(s2, cell_of(&post, LValue { id: r.id }))
        }),
    ensures
        ({
            let g = post.cx.graph;
            let x = g.eval(val.id as int, s).0;
            let end = g.run(m1.block, m1.cx.graph.instrs(m1.block).len() as int, s, 0);
            &&& end.block == m1.block
            &&& end.pc == m1.cx.graph.instrs(m1.block).len() + 2
            &&& fetch(end.memory, a) == x || a == cell_of(&post, LValue { id: r.id })
            &&& g.eval(r.id as int, end.memory) == (x, end.memory)
        }),
{
    m1.lemma_wf();
    m2.lemma_wf();
    m1.lemma_grew_prefixes(&m2);
    m2.lemma_grew_prefixes(&post);
    m1.lemma_value_kept(&m2, p);
    let g = post.cx.graph;
    let block = m1.block;
    let pc = m1.cx.graph.instrs(block).len() as int;
    let n2 = m2.cx.graph.nodes@.len() as int;
    let (x, sx) = g.eval(val.id as int, s);
    let s2 = put(sx, a, x);
    assert(g.nodes.len() == g.nodes@.len());
    assert(g.blocks.len() == g.blocks@.len());
    let target = m1.store_target(val, p);
    let store = Instr::Assign { target, value: val };
    lemma_store_assigns_through(m1, m2, val, p, align, zero);
    lemma_assigns_through_kept(m2, post, target, p);
    lemma_assignment_through(&g, target, p, val, s, a);
    assert(g.step(store, s) == s2);
    // the load
    assert(g.nodes@[n2] == Builder::deref_node(p, m2.pointee_of(p)));
    assert(g.nodes@[n2 + 1] == m2.var_node(m2.pointee_of(p)));
    g.lemma_dereference(n2, s2);
    assert(g.eval(n2, s2) == (x, s2));
    g.lemma_variable(n2 + 1, s2);
    let cell = cell_of(&post, LValue { id: r.id });
    let s3 = put(s2, cell, x);
    let load = Instr::Assign { target: m2.nth_storage(1), value: m2.nth(0) };
    assert(g.step(load, s2) == s3);
    // the run
    assert(g.instrs(block) == m2.cx.graph.instrs(block) + seq![load]);
    assert(g.instrs(block)[pc] == store);
    assert(g.instrs(block)[pc + 1] == load);
    g.lemma_run_on(block, pc, s, 0);
    g.lemma_run_on(block, pc + 1, s2, 0);
    g.lemma_run_out(block, pc + 2, s3, 0);
    g.lemma_variable(n2 + 1, s3);
}

/// A pointer converted to a type that a builtin takes its pointers as is
/// the same pointer.
pub proof fn lemma_pointer_converted(b: Builder, t: Type, p: Prim, a: Addr)
    requires
        b.wf(),
        b.cx.graph.types.is_prim(t, p),
        p == Prim::VoidPtr || p == Prim::ConstVoidPtr || p == Prim::VolatileVoidPtr || p
            == Prim::ConstVolatileVoidPtr,
    ensures
        converted(&b.cx.graph.types, Val::Ptr { addr: a }, t) == (Val::Ptr { addr: a }),
{
    b.lemma_wf();
    b.cx.graph.types.lemma_strip_plain(t);
}

/// A pointer converted to the volatile-qualified pointer type is the same
/// pointer.
pub proof fn lemma_volatile_pointer_converted(b: Builder, t: Type, a: Addr)
    requires
        b.wf(),
        b.is_volatile_pointer(t),
    ensures
        converted(&b.cx.graph.types, Val::Ptr { addr: a }, t) == (Val::Ptr { addr: a }),
{
    b.lemma_wf();
    let types = b.cx.graph.types;
    types.lemma_strip_qualified(t);
    types.lemma_strip_plain(types.kind(t).qualified());
}

/// An integer converted to the unsigned integer type of `bytes` bytes
/// wraps round.
pub proof fn lemma_integer_converted(b: Builder, t: Type, bytes: u8, v: i128)
    requires
        b.wf(),
        b.cx.graph.types.is_prim(t, Prim::UInt { bytes }),
    ensures
        converted(&b.cx.graph.types, Val::Int { value: v }, t) == wrapped(bytes, false, v as int),
{
    b.lemma_wf();
    b.cx.graph.types.lemma_strip_plain(t);
}

/// An atomic load evaluates to what the cell holds that its pointer
/// evaluates to, and changes no memory, where the evaluation of the
/// pointer changes none.
pub proof fn lemma_atomic_load_reads(
    b: Builder,
    base: int,
    list: int,
    ptr: RValue,
    order: AtomicOrdering,
    bytes: u8,
    m: Memory,
    a: Addr,
)
    requires
        b.wf(),
        b.load_at(base, list, ptr, order, bytes),
        ptr.id < base,
        b.cx.graph.eval(ptr.id as int, m) == (Val::Ptr { addr: a }, m),
    ensures
        b.cx.graph.eval(base + 2, m) == (fetch(m, a), m),
        b.cx.graph.types.is_prim(b.cx.graph.nodes@[base + 2].ty, Prim::UInt { bytes }),
{
    let g = b.cx.graph;
    let call = Builder::at(base, 2);
    assert(g.nodes.len() == g.nodes@.len());
    assert(g.lists.len() == g.lists@.len());
    let f = g.kind_of(call)->Call_func;
    let args = g.lists@[list]@;
    assert(args == g.list(list as usize));
    assert(args.len() == 2);
    lemma_pointer_converted(b, g.nodes@[base + 1].ty, Prim::ConstVolatileVoidPtr, a);
    g.lemma_conversion(base + 1, m);
    g.lemma_constant(base, m);
    g.lemma_no_arguments(args, base + 2, m);
    g.lemma_next_argument(args, 1, base + 2, m);
    g.lemma_next_argument(args, 2, base + 2, m);
    g.lemma_builtin_call(base + 2, Builtin::AtomicLoad { bytes }, m);
    let values = g.eval_list(args, 2, base + 2, m).0;
    assert(values[0] == (Val::Ptr { addr: a }));
    assert(values.len() == 2);
}

/// What a compare-and-exchange does in the memory `m`, where the
/// destination evaluates to the cell `a`, the storage of the expected
/// value is the variable at the cell `e`, and the new value evaluates to
/// the integer `v`, all without a change of memory: where the two cells
/// hold the same, the destination receives the new value, wrapped to the
/// width of the exchange, and the call evaluates to true; else the
/// storage of the expected value receives what the destination holds,
/// and the call evaluates to false.
pub proof fn lemma_exchange_semantics(
    b: Builder,
    base: int,
    list: int,
    dst: RValue,
    expected: LValue,
    src: RValue,
    bytes: u8,
    order: AtomicOrdering,
    failure_order: AtomicOrdering,
    weak: bool,
    m: Memory,
    a: Addr,
    e: Addr,
    v: i128,
)
    requires
        b.wf(),
        b.exchange_at(base, list, dst, expected, src, bytes, order, failure_order, weak),
        dst.id < base,
        src.id < base,
        expected.id < base,
        b.cx.graph.nodes@[expected.id as int].kind == (NodeKind::Var { var: e.region }),
        e.offset == 0,
        b.cx.graph.eval(dst.id as int, m) == (Val::Ptr { addr: a }, m),
        b.cx.graph.eval(src.id as int, m) == (Val::Int { value: v }, m),
    ensures
        b.cx.graph.eval(base + 7, m) == if fetch(m, a) == fetch(m, e) {
            (flag(true), put(m, a, wrapped(bytes, false, v as int)))
        } else {
            (flag(false), put(m, e, fetch(m, a)))
        },
{
    let g = b.cx.graph;
    assert(g.nodes.len() == g.nodes@.len());
    assert(g.lists.len() == g.lists@.len());
    let args = g.lists@[list]@;
    assert(args == g.list(list as usize));
    assert(args.len() == 6);
    let bound = base + 7;
    // the values of the arguments
    lemma_volatile_pointer_converted(b, g.nodes@[base + 3].ty, a);
    g.lemma_conversion(base + 3, m);
    g.lemma_variable(expected.id as int, m);
    g.lemma_address(base + 4, m);
    lemma_pointer_converted(b, g.nodes@[base + 5].ty, Prim::VoidPtr, e);
    g.lemma_conversion(base + 5, m);
    lemma_integer_converted(b, g.nodes@[base + 6].ty, bytes, v);
    g.lemma_conversion(base + 6, m);
    g.lemma_constant(base, m);
    g.lemma_constant(base + 1, m);
    g.lemma_constant(base + 2, m);
    // the list
    g.lemma_no_arguments(args, bound, m);
    g.lemma_next_argument(args, 1, bound, m);
    g.lemma_next_argument(args, 2, bound, m);
    g.lemma_next_argument(args, 3, bound, m);
    g.lemma_next_argument(args, 4, bound, m);
    g.lemma_next_argument(args, 5, bound, m);
    g.lemma_next_argument(args, 6, bound, m);
    let (values, m1) = g.eval_list(args, 6, bound, m);
    assert(m1 == m);
    assert(values.len() == 6);
    assert(values[0] == (Val::Ptr { addr: a }));
    assert(values[1] == (Val::Ptr { addr: e }));
    assert(values[2] == wrapped(bytes, false, v as int));
    g.lemma_builtin_call(base + 7, Builtin::AtomicCompareExchange { bytes }, m);
}

/// A write to a cell is read back from it and leaves every other cell
/// alone.
pub proof fn lemma_put(m: Memory, c: Addr, x: Val, other: Addr)
    requires
        in_memory(m, c),
    ensures
        fetch(put(m, c, x), c) == x,
        in_memory(put(m, c, x), other) == in_memory(m, other),
        other != c ==> fetch(put(m, c, x), other) == fetch(m, other),
{
}

/// The cell of the first variable that is declared after `pre`: of the
/// local in which an emulated atomic holds what it expects to find.
pub open spec fn previous_cell(pre: &Builder) -> Addr {
    Addr { region: pre.cx.graph.vars@.len() as usize, offset: 0 }
}

/// The cell of the second variable that is declared after `pre`: of the
/// local that an emulated extremum returns.
pub open spec fn result_cell(pre: &Builder) -> Addr {
    Addr { region: (pre.cx.graph.vars@.len() + 1) as usize, offset: 0 }
}

/// The memory when the loop of an emulated extremum is entered: the two
/// locals hold what the destination held.
pub open spec fn at_loop(pre: &Builder, s: Memory, a: Addr) -> Memory {
    put(put(s, previous_cell(pre), fetch(s, a)), result_cell(pre), fetch(s, a))
}

/// The premises of the law of the emulated extremum: the destination
/// evaluates to the cell `a` and the operand to the integer `v` in every
/// memory, without changing it; the memory has the cell `a` and the cells
/// of the two locals, which are other cells than `a`.
pub open spec fn uncontended(
    pre: &Builder,
    post: &Builder,
    dst: RValue,
    src: RValue,
    s: Memory,
    a: Addr,
    v: i128,
) -> bool {
    let g = post.cx.graph;
    &&& forall|m: Memory| #[trigger] g.eval(dst.id as int, m) == (Val::Ptr { addr: a }, m)
    &&& forall|m: Memory| #[trigger] g.eval(src.id as int, m) == (Val::Int { value: v }, m)
    &&& in_memory(s, a)
    &&& in_memory(s, previous_cell(pre))
    &&& in_memory(s, result_cell(pre))
    &&& a != previous_cell(pre)
    &&& a != result_cell(pre)
}

/// Whether an emulated extremum replaces what it found by the operand
/// `v`: what was found is below the operand, for a maximum, or above it,
/// for a minimum. A signed extremum compares what was found, read as a
/// value of the operand's type, with the operand; an unsigned one
/// compares it with the operand as the unsigned integer of the
/// operation's width.
pub open spec fn replaces(
    pre: &Builder,
    post: &Builder,
    operation: ExtremumOperation,
    src: RValue,
    found: Val,
    v: i128,
) -> bool {
    if operation.signed() {
        truthy(
            compared(
                operation.replace_test(),
                converted(&post.cx.graph.types, found, pre.type_of(src)),
                Val::Int { value: v },
            ),
        )
    } else {
        truthy(
            compared(operation.replace_test(), found, wrapped(pre.width_of(src), false, v as int)),
        )
    }
}

/// The entry of an emulated extremum: a run from where the block that
/// was under the cursor went on is, after one jump allowed less, a run
/// from the start of the loop in the memory in which the two locals hold
/// what the destination held.
pub proof fn lemma_extremum_entry(
    pre: Builder,
    post: Builder,
    operation: ExtremumOperation,
    dst: RValue,
    src: RValue,
    order: AtomicOrdering,
    r: RValue,
    s: Memory,
    a: Addr,
    v: i128,
    jumps: nat,
)
    requires
        pre.wf(),
        post.wf(),
        pre.has_value(dst),
        pre.has_value(src),
        pre.extremum_lowered(&post, operation, dst, src, order, r),
        uncontended(&pre, &post, dst, src, s, a, v),
        jumps > 0,
    ensures
        post.cx.graph.run(pre.block, pre.cx.graph.instrs(pre.block).len() as int, s, jumps)
            == post.cx.graph.run(pre.nth_block(0), 0, at_loop(&pre, s, a), (jumps - 1) as nat),
        post.cx.graph.types.is_prim(
            post.cx.graph.nodes@[pre.cx.graph.nodes@.len() as int + 2].ty,
            Prim::UInt { bytes: pre.width_of(src) },
        ),
{
    pre.lemma_wf();
    let g = post.cx.graph;
    let n = pre.cx.graph.nodes@.len() as int;
    let lists = pre.cx.graph.lists@.len() as int;
    let bytes = pre.width_of(src);
    let entry = pre.block;
    let pc = pre.cx.graph.instrs(entry).len() as int;
    let found = fetch(s, a);
    let previous = pre.nth_storage(3);
    let result = pre.nth_storage(4);
    assert(g.nodes.len() == g.nodes@.len());
    assert(g.blocks.len() == g.blocks@.len());
    assert(g.vars.len() == g.vars@.len());
    lemma_atomic_load_reads(post, n, lists, dst, order.load_ordering(), bytes, s, a);
    g.lemma_variable(n + 3, s);
    let s1 = put(s, previous_cell(&pre), found);
    let first = Instr::Assign { target: previous, value: pre.nth(2) };
    assert(g.step(first, s) == s1);
    g.lemma_variable(n + 3, s1);
    g.lemma_variable(n + 4, s1);
    lemma_put(s, previous_cell(&pre), found, result_cell(&pre));
    let s2 = put(s1, result_cell(&pre), found);
    let second = Instr::Assign { target: result, value: previous.read() };
    assert(g.step(second, s1) == s2);
    let third = Instr::Jump { dest: pre.nth_block(0) };
    assert(g.instrs(entry) == pre.cx.graph.instrs(entry) + seq![first, second, third]);
    assert(g.instrs(entry)[pc] == first);
    assert(g.instrs(entry)[pc + 1] == second);
    assert(g.instrs(entry)[pc + 2] == third);
    g.lemma_run_on(entry, pc, s, jumps);
    g.lemma_run_on(entry, pc + 1, s1, jumps);
    g.lemma_run_over(entry, pc + 2, s2, jumps);
}

/// The condition of the loop of an emulated extremum, evaluated where
/// the two locals hold what the destination holds: where what was found
/// is to be replaced, the destination receives the operand, wrapped to
/// the width of the operation; either way the condition fails.
pub proof fn lemma_extremum_condition(
    pre: Builder,
    post: Builder,
    operation: ExtremumOperation,
    dst: RValue,
    src: RValue,
    order: AtomicOrdering,
    r: RValue,
    s: Memory,
    a: Addr,
    v: i128,
)
    requires
        pre.wf(),
        post.wf(),
        pre.has_value(dst),
        pre.has_value(src),
        pre.extremum_lowered(&post, operation, dst, src, order, r),
        uncontended(&pre, &post, dst, src, s, a, v),
        post.cx.graph.types.is_prim(
            post.cx.graph.nodes@[pre.cx.graph.nodes@.len() as int + 2].ty,
            Prim::UInt { bytes: pre.width_of(src) },
        ),
    ensures
        ({
            let g = post.cx.graph;
            let m = at_loop(&pre, s, a);
            let candidate = wrapped(pre.width_of(src), false, v as int);
            let replaced = replaces(&pre, &post, operation, src, fetch(s, a), v);
            g.eval(pre.cx.graph.nodes@.len() as int + 16, m) == (
                flag(false),
                if replaced {
                    put(m, a, candidate)
                } else {
                    m
                },
            )
        }),
{
    pre.lemma_wf();
    let g = post.cx.graph;
    let n = pre.cx.graph.nodes@.len() as int;
    let lists = pre.cx.graph.lists@.len() as int;
    let bytes = pre.width_of(src);
    let found = fetch(s, a);
    let candidate = wrapped(bytes, false, v as int);
    let previous = pre.nth_storage(3);
    let p = previous_cell(&pre);
    let q = result_cell(&pre);
    let s1 = put(s, p, found);
    let m = at_loop(&pre, s, a);
    assert(g.nodes.len() == g.nodes@.len());
    assert(g.vars.len() == g.vars@.len());
    lemma_put(s, p, found, q);
    lemma_put(s, p, found, a);
    lemma_put(s1, q, found, p);
    lemma_put(s1, q, found, a);
    assert(fetch(m, p) == found);
    assert(fetch(m, a) == found);
    // the test
    g.lemma_variable(n + 3, m);
    lemma_integer_converted(post, g.nodes@[n + 2].ty, bytes, v);
    g.lemma_conversion(n + 5, m);
    g.lemma_comparison(n + 6, m);
    let test = if operation.signed() {
        compared(
            operation.replace_test(),
            converted(&g.types, found, pre.type_of(src)),
            Val::Int { value: v },
        )
    } else {
        compared(operation.replace_test(), found, candidate)
    };
    assert(g.eval(n + 6, m) == (test, m));
    g.lemma_conjunction(n + 16, m);
    if truthy(test) {
        lemma_exchange_semantics(
            post,
            n + 7,
            lists + 1,
            dst,
            previous,
            src,
            bytes,
            order,
            order.load_ordering(),
            false,
            m,
            a,
            p,
            v,
        );
        g.lemma_unary(n + 15, m);
    }
}

/// An extremum read-modify-write that meets no contention does what it
/// is to do: where what the destination holds is below the operand, for
/// a maximum, or above it, for a minimum, the destination receives the
/// operand; else it keeps what it holds; and either way the result is
/// what it held before.
///
/// After `atomic_rmw` with an extremum operation has taken a builder from
/// `pre` to `post`, a run from where the block that was under the cursor
/// went on, through at most two jumps, ends at the start of the block
/// now under the cursor. A signed extremum compares in the type of the
/// operand, an unsigned one in the unsigned integer type of the
/// operation's width; what the destination receives is the operand as
/// the builtin stores it, converted to that unsigned type, which read
/// as a value of the operand's integer type is the operand. This is claimed of a
/// destination and an operand that evaluate to the same in every memory
/// and change none, and of a destination that is none of the two locals
/// of the loop.
pub proof fn law_extremum_without_contention(
    pre: Builder,
    post: Builder,
    operation: ExtremumOperation,
    dst: RValue,
    src: RValue,
    order: AtomicOrdering,
    r: RValue,
    s: Memory,
    a: Addr,
    v: i128,
)
    requires
        pre.wf(),
        post.wf(),
        pre.has_value(dst),
        pre.has_value(src),
        pre.extremum_lowered(&post, operation, dst, src, order, r),
        uncontended(&pre, &post, dst, src, s, a, v),
    ensures
        ({
            let g = post.cx.graph;
            let found = fetch(s, a);
            let candidate = wrapped(pre.width_of(src), false, v as int);
            let replaced = replaces(&pre, &post, operation, src, found, v);
            let end = g.run(pre.block, pre.cx.graph.instrs(pre.block).len() as int, s, 2);
            &&& end.block == post.block
            &&& end.pc == 0
            &&& fetch(end.memory, a) == if replaced {
                candidate
            } else {
                found
            }
            &&& g.eval(r.id as int, end.memory) == (found, end.memory)
            &&& g.types.shape(pre.type_of(src)) is Int ==> converted(
                &g.types,
                fetch(end.memory, a),
                pre.type_of(src),
            ) == converted(
                &g.types,
                if replaced {
                    Val::Int { value: v }
                } else {
                    found
                },
                pre.type_of(src),
            )
        }),
{
    pre.lemma_wf();
    pre.lemma_value_kept(&post, src);
    assert(post.cx.graph.types.shape(pre.type_of(src)) is Int ==> converted(
        &post.cx.graph.types,
        wrapped(pre.width_of(src), false, v as int),
        pre.type_of(src),
    ) == converted(&post.cx.graph.types, Val::Int { value: v }, pre.type_of(src)));
    let g = post.cx.graph;
    let n = pre.cx.graph.nodes@.len() as int;
    let found = fetch(s, a);
    let candidate = wrapped(pre.width_of(src), false, v as int);
    let replaced = replaces(&pre, &post, operation, src, found, v);
    let loop_block = pre.nth_block(0);
    let after_block = pre.nth_block(1);
    let p = previous_cell(&pre);
    let q = result_cell(&pre);
    let s1 = put(s, p, found);
    let m = at_loop(&pre, s, a);
    assert(g.nodes.len() == g.nodes@.len());
    assert(g.blocks.len() == g.blocks@.len());
    assert(g.vars.len() == g.vars@.len());
    lemma_extremum_entry(pre, post, operation, dst, src, order, r, s, a, v, 2);
    lemma_extremum_condition(pre, post, operation, dst, src, order, r, s, a, v);
    let end_memory = if replaced {
        put(m, a, candidate)
    } else {
        m
    };
    let branch = Instr::Conditional { cond: pre.nth(16), on_true: loop_block, on_false: after_block };
    assert(g.instrs(loop_block)[0] == branch);
    assert(g.successor(branch, m) == (Some(after_block), end_memory));
    g.lemma_run_over(loop_block, 0, m, 1);
    g.lemma_run_out(after_block, 0, end_memory, 0);
    lemma_put(s, p, found, q);
    lemma_put(s, p, found, a);
    lemma_put(s1, q, found, p);
    lemma_put(s1, q, found, a);
    lemma_put(s1, q, found, q);
    lemma_put(m, a, candidate, q);
    lemma_put(m, a, candidate, a);
    g.lemma_variable(n + 4, end_memory);
}

/// The cell of field `field` of the struct in the variable that the
/// storage node `l` is, in `post`.
pub open spec fn field_cell(post: &Builder, l: LValue, field: usize) -> Addr {
    let g = post.cx.graph;
    Addr {
        region: cell_of(post, l).region,
        offset: g.field_offset(g.storage_type(l), field) as usize,
    }
}

/// The address of a field of a struct in a variable evaluates to the cell
/// of the field, and changes no memory.
pub proof fn lemma_field_addressed(m: Builder, m1: Builder, post: Builder, storage: LValue, field: usize, a: RValue, s: Memory)
    requires
        m.wf(),
        m.cx.graph.has_storage(storage),
        m.cx.graph.kind_of(storage.read()) is Var,
        m.field_addressed(&m1, storage, field, a),
        m1.grew_into(&post),
    ensures
        post.cx.graph.eval(a.id as int, s) == (Val::Ptr { addr: field_cell(&post, storage, field) }, s),
        post.has_value(a),
        m1.has_value(a),
{
    let g = post.cx.graph;
    let n = m.cx.graph.nodes@.len() as int;
    m1.lemma_grew_prefixes(&post);
    assert(m1.cx.graph.nodes.len() == m1.cx.graph.nodes@.len());
    assert(g.nodes.len() == g.nodes@.len());
    let ty = m.cx.graph.field_type(m.cx.graph.storage_type(storage), field);
    let added = seq![
        Builder::field_access_node(storage, field, ty),
        Builder::address_node(m.nth_storage(0), m1.pointer_to(ty)),
    ];
    assert(m1.cx.graph.nodes@ == m.cx.graph.nodes@ + added);
    assert(m1.cx.graph.nodes@[n] == added[0]);
    assert(m1.cx.graph.nodes@[n + 1] == added[1]);
    assert(g.nodes@[n] == m1.cx.graph.nodes@[n]);
    assert(g.nodes@[n + 1] == m1.cx.graph.nodes@[n + 1]);
    assert(m1.cx.graph.nodes@[storage.id as int] == m.cx.graph.nodes@[storage.id as int]);
    assert(g.nodes@[storage.id as int] == m1.cx.graph.nodes@[storage.id as int]);
    g.lemma_variable(storage.id as int, s);
    g.lemma_field_access(n, s);
    g.lemma_address(n + 1, s);
}

/// A compare-and-exchange replaces what it expected and reports what it
/// found.
///
/// `atomic_cmpxchg` has taken a builder from `pre` to `post`, through the
/// states `s1` to `s5`, with the result `r`, a struct in a variable. In
/// the memory `s`, `wanted` evaluates to `w`; with `w` in the cell `e` of
/// the local that holds what is expected, `dst` evaluates to the cell `a`
/// and `src` to the integer `v`; none of the three changes the memory.
/// A run of the three instructions that were emitted then goes as
/// follows. What `a` holds is compared with what `e` holds: where they
/// are the same, `a` receives `v`, wrapped round at the width of `src`;
/// where they are not, `e` receives what `a` holds. Then the second field
/// of the result receives whether they were the same, and the first what
/// `e` holds now: where `a` and `e` are two cells of the memory, that is
/// what `a` held, either way.
pub proof fn law_exchange_reports_what_it_found(
    pre: Builder,
    s1: Builder,
    s2: Builder,
    s3: Builder,
    s4: Builder,
    s5: Builder,
    post: Builder,
    dst: RValue,
    wanted: RValue,
    src: RValue,
    order: AtomicOrdering,
    failure_order: AtomicOrdering,
    weak: bool,
    r: RValue,
    s: Memory,
    a: Addr,
    w: Val,
    v: i128,
)
    requires
        pre.wf(),
        pre.has_value(dst),
        pre.has_value(wanted),
        pre.has_value(src),
        pre.swap_reported(
            &s1,
            &s2,
            &s3,
            &s4,
            &s5,
            &post,
            dst,
            wanted,
            src,
            order,
            failure_order,
            weak,
            r,
        ),
        ({
            let g = post.cx.graph;
            let m1 = put(s, previous_cell(&pre), w);
            &&& g.eval(wanted.id as int, s) == (w, s)
            &&& g.eval(dst.id as int, m1) == (Val::Ptr { addr: a }, m1)
            &&& g.eval(src.id as int, m1) == (Val::Int { value: v }, m1)
        }),
    ensures
        ({
            let g = post.cx.graph;
            let e = previous_cell(&pre);
            let result = LValue { id: r.id };
            let m1 = put(s, e, w);
            let found = fetch(m1, a);
            let same = found == fetch(m1, e);
            let m2 = if same {
                put(m1, a, wrapped(pre.width_of(src), false, v as int))
            } else {
                put(m1, e, found)
            };
            let m3 = put(m2, field_cell(&post, result, 1), flag(same));
            let m4 = put(m3, field_cell(&post, result, 0), fetch(m3, e));
            let pc = pre.cx.graph.instrs(pre.block).len() as int;
            let end = g.run(pre.block, pc, s, 0);
            &&& end.block == pre.block
            &&& end.pc == pc + 3
            &&& end.memory == m4
            &&& post.block == pre.block
            &&& g.instrs(pre.block).len() == pc + 3
            &&& cell_of(&post, result).region == pre.cx.graph.vars@.len() + 1
            &&& a != e && in_memory(m1, a) && in_memory(s, e) ==> fetch(m2, e) == found
        }),
{
    pre.lemma_wf();
    let g = post.cx.graph;
    let n = pre.cx.graph.nodes@.len() as int;
    let lists = s1.cx.graph.lists@.len() as int;
    let block = pre.block;
    let pc = pre.cx.graph.instrs(block).len() as int;
    let expected = pre.nth_storage(0);
    let success = s1.nth(7);
    let result = s2.nth_storage(0);
    let eight = Align { bytes: 8 };
    let bytes = pre.width_of(src);
    let e = previous_cell(&pre);
    let (mid, a1, z1, a0, z0): (Builder, RValue, RValue, RValue, RValue) = choose|
        mid: Builder,
        a1: RValue,
        z1: RValue,
        a0: RValue,
        z0: RValue,
    |
        #![trigger s4.field_addressed(&s5, result, 0, a0), mid.field_addressed(&s3, result, 1, a1), s3.stored(&s4, success, a1, eight, z1), s5.stored(&post, expected.read(), a0, eight, z0)]
        s2.pair_declared(
            &mid,
            pre.type_of(src),
            pre.cx.bool_type,
            ""@,
            "atomic_cmpxchg_result"@,
            result,
        ) && mid.field_addressed(&s3, result, 1, a1) && s3.stored(&s4, success, a1, eight, z1)
            && s4.field_addressed(&s5, result, 0, a0) && s5.stored(
            &post,
            expected.read(),
            a0,
            eight,
            z0,
        );
    // every state grows into the last
    s5.lemma_grew_refl();
    s4.lemma_grew_trans(&s5, &post);
    s3.lemma_grew_trans(&s4, &post);
    mid.lemma_grew_trans(&s3, &post);
    s2.lemma_grew_trans(&mid, &post);
    s1.lemma_grew_trans(&s2, &post);
    pre.lemma_grew_trans(&s1, &post);
    pre.lemma_grew_prefixes(&s1);
    s1.lemma_grew_prefixes(&s2);
    s1.lemma_grew_prefixes(&post);
    s2.lemma_grew_prefixes(&mid);
    s2.lemma_grew_prefixes(&post);
    mid.lemma_grew_prefixes(&post);
    s3.lemma_grew_prefixes(&s4);
    s4.lemma_grew_prefixes(&post);
    s5.lemma_grew_prefixes(&post);
    assert(g.nodes.len() == g.nodes@.len());
    assert(g.blocks.len() == g.blocks@.len());
    assert(g.vars.len() == g.vars@.len());
    assert(s1.cx.graph.nodes.len() == s1.cx.graph.nodes@.len());
    assert(s2.cx.graph.nodes.len() == s2.cx.graph.nodes@.len());
    assert(mid.cx.graph.nodes.len() == mid.cx.graph.nodes@.len());
    // the local that holds what is expected
    assert(s1.cx.graph.nodes@[n] == pre.var_node(pre.type_of(wanted)));
    assert(g.nodes@[n] == s1.cx.graph.nodes@[n]);
    g.lemma_variable(n, s);
    let m1 = put(s, e, w);
    let first = Instr::Assign { target: expected, value: wanted };
    assert(g.step(first, s) == m1);
    // the exchange
    s1.lemma_value_kept(&s2, dst);
    s1.lemma_value_kept(&s2, src);
    s2.lemma_exchange_at_kept(
        &post,
        n + 1,
        lists,
        dst,
        expected,
        src,
        s1.width_of(src),
        order,
        failure_order,
        weak,
    );
    pre.lemma_value_kept(&s1, src);
    assert(s1.width_of(src) == bytes);
    lemma_exchange_semantics(
        post,
        n + 1,
        lists,
        dst,
        expected,
        src,
        bytes,
        order,
        failure_order,
        weak,
        m1,
        a,
        e,
        v,
    );
    let found = fetch(m1, a);
    let same = found == fetch(m1, e);
    let m2 = if same {
        put(m1, a, wrapped(bytes, false, v as int))
    } else {
        put(m1, e, found)
    };
    assert(success.id == n + 8);
    assert(g.eval(success.id as int, m1) == (flag(same), m2));
    // the struct that reports
    assert(mid.cx.graph.nodes@[n + 9] == s2.var_node(mid.cx.graph.storage_type(result)));
    assert(result.id == n + 9);
    assert(g.nodes@[n + 9] == mid.cx.graph.nodes@[n + 9]);
    assert(cell_of(&post, result).region == pre.cx.graph.vars@.len() + 1);
    assert(r.id == result.id);
    lemma_field_addressed(mid, s3, post, result, 1, a1, m2);
    s3.lemma_value_kept(&s4, a1);
    assert(s3.has_value(success)) by {
        s2.lemma_grew_trans(&mid, &s3);
        s2.lemma_grew_prefixes(&s3);
    }
    lemma_store_assigns_through(s3, s4, success, a1, eight, z1);
    let target1 = s3.store_target(success, a1);
    lemma_assigns_through_kept(s4, post, target1, a1);
    let second = Instr::Assign { target: target1, value: success };
    lemma_assignment_through(&g, target1, a1, success, m1, field_cell(&post, result, 1));
    let m3 = put(m2, field_cell(&post, result, 1), flag(same));
    assert(g.step(second, m1) == m3);
    // what was found
    assert(s4.cx.graph.has_storage(result)) by {
        mid.lemma_grew_trans(&s3, &s4);
        mid.lemma_grew_prefixes(&s4);
        assert(s4.cx.graph.nodes@[n + 9] == mid.cx.graph.nodes@[n + 9]);
    }
    lemma_field_addressed(s4, s5, post, result, 0, a0, m3);
    assert(s5.has_value(expected.read())) by {
        s3.lemma_grew_trans(&s4, &s5);
        mid.lemma_grew_trans(&s3, &s5);
        s2.lemma_grew_trans(&mid, &s5);
        s1.lemma_grew_trans(&s2, &s5);
        s1.lemma_grew_prefixes(&s5);
    }
    lemma_store_assigns_through(s5, post, expected.read(), a0, eight, z0);
    let target0 = s5.store_target(expected.read(), a0);
    let third = Instr::Assign { target: target0, value: expected.read() };
    g.lemma_variable(n, m3);
    lemma_assignment_through(&g, target0, a0, expected.read(), m3, field_cell(&post, result, 0));
    let m4 = put(m3, field_cell(&post, result, 0), fetch(m3, e));
    assert(g.step(third, m3) == m4);
    // the run
    assert(s1.cx.graph.instrs(block) == pre.cx.graph.instrs(block) + seq![first]);
    assert(s3.cx.graph.instrs(block) == s1.cx.graph.instrs(block));
    assert(s4.cx.graph.instrs(block) == s3.cx.graph.instrs(block) + seq![second]);
    assert(s5.cx.graph.instrs(block) == s4.cx.graph.instrs(block));
    assert(g.instrs(block) == s5.cx.graph.instrs(block) + seq![third]);
    assert(g.instrs(block) == pre.cx.graph.instrs(block) + seq![first, second, third]);
    assert(g.instrs(block)[pc] == first);
    assert(g.instrs(block)[pc + 1] == second);
    assert(g.instrs(block)[pc + 2] == third);
    g.lemma_run_on(block, pc, s, 0);
    g.lemma_run_on(block, pc + 1, m1, 0);
    g.lemma_run_on(block, pc + 2, m3, 0);
    g.lemma_run_out(block, pc + 3, m4, 0);
    if a != e && in_memory(m1, a) && in_memory(s, e) {
        lemma_put(s, e, w, e);
        lemma_put(s, e, w, a);
        lemma_put(m1, a, wrapped(bytes, false, v as int), e);
        lemma_put(m1, e, found, e);
    }
}

/// Number of terminators among instructions.
pub open spec fn terminators(instrs: Seq<Instr>) -> nat
    decreases instrs.len(),
{
    if instrs.len() == 0 {
        0
    } else {
        terminators(instrs.drop_last()) + if instrs.last().is_terminator() {
            1nat
        } else {
            0nat
        }
    }
}

/// Instructions none of which ends a block hold no terminator.
pub proof fn lemma_no_terminators(instrs: Seq<Instr>)
    requires
        forall|k: int| 0 <= k < instrs.len() ==> !(#[trigger] instrs[k]).is_terminator(),
    ensures
        terminators(instrs) == 0,
    decreases instrs.len(),
{
    if instrs.len() > 0 {
        lemma_no_terminators(instrs.drop_last());
    }
}

/// Every block of a well-formed builder is well formed: it holds at most
/// one terminator, and no instruction after it. A block that has received
/// its terminator holds exactly one, as its last instruction; a block
/// that has not holds none.
///
/// Every request leaves a well-formed builder behind, so this holds of
/// every block that any sequence of requests produces.
pub proof fn law_blocks_end_once(b: Builder, block: Block)
    requires
        b.wf(),
        b.cx.graph.has_block(block),
    ensures
        ends_once(b.cx.graph.instrs(block)),
        b.cx.graph.closed(block) ==> terminators(b.cx.graph.instrs(block)) == 1
            && b.cx.graph.instrs(block).last().is_terminator(),
        !b.cx.graph.closed(block) ==> terminators(b.cx.graph.instrs(block)) == 0,
        forall|k: int|
            0 <= k < b.cx.graph.instrs(block).len() - 1 ==> !(
            #[trigger] b.cx.graph.instrs(block)[k]).is_terminator(),
{
    reveal(Builder::wf);

    let instrs = b.cx.graph.instrs(block);
    assert(b.cx.graph.block_ok(block.id as int));
    if instrs.len() > 0 {
        lemma_no_terminators(instrs.drop_last());
    }
}

/// The result of a call of a defined routine is bound: where the routine
/// returns a value, the result is a variable, a local of the routine under
/// construction, and the last instruction of the block under the cursor
/// assigns the call to it; where it returns none, the result is a zero of
/// the pointer-sized integer type, the call is evaluated by the last
/// instruction, and no node that reads through a pointer is added.
pub proof fn law_call_result_is_bound(
    pre: Builder,
    post: Builder,
    func: RValue,
    args: Seq<RValue>,
    r: RValue,
)
    requires
        pre.wf(),
        pre.has_value(func),
        pre.function_called(&post, func, args, r),
    ensures
        ({
            let g = post.cx.graph;
            let f = pre.callee(func);
            let last = g.instrs(post.block).last();
            &&& post.block == pre.block
            &&& g.instrs(post.block).len() == pre.cx.graph.instrs(pre.block).len() + 1
            &&& pre.cx.graph.return_type(f) != pre.cx.void_type ==> {
                &&& g.kind_of(r) == (NodeKind::Var { var: pre.cx.graph.vars@.len() as usize })
                &&& g.vars@.last().scope == (Scope::Local {
                    func: pre.cx.graph.block_function(pre.block),
                })
                &&& last is Assign
                &&& last->target == (LValue { id: r.id })
                &&& g.kind_of(last->Assign_value) is Call
                &&& g.kind_of(last->Assign_value)->Call_func == f
            }
            &&& pre.cx.graph.return_type(f) == pre.cx.void_type ==> {
                &&& g.nodes@[r.id as int] == Builder::const_node(0, pre.cx.isize_type)
                &&& last is Eval
                &&& g.kind_of(last->Eval_value) is Call
                &&& g.vars@ == pre.cx.graph.vars@
                &&& forall|k: int|
                    pre.cx.graph.nodes@.len() <= k < g.nodes@.len() ==> !((#[trigger] g.nodes@[k]).kind
                        is Deref)
            }
        }),
{
    let g = post.cx.graph;
    let f = pre.callee(func);
    let params = pre.cx.graph.params(f);
    let fitted = pre.fitting(params, args);
    let k = fitted.len() as int;
    let n = pre.cx.graph.nodes@.len() as int;
    assert(g.nodes.len() == g.nodes@.len());
    lemma_fitting_converts(pre, params, args, shorter(params.len() as int, args.len() as int));
    if pre.cx.graph.return_type(f) != pre.cx.void_type {
        let tail = seq![pre.var_node(pre.cx.graph.return_type(f)), pre.call_node(f)];
        assert(g.nodes@ == pre.cx.graph.nodes@ + fitted + tail);
        assert(g.nodes@[n + k] == tail[0]);
        assert(g.nodes@[n + k + 1] == tail[1]);
    } else {
        let tail = seq![pre.call_node(f), Builder::const_node(0, pre.cx.isize_type)];
        assert(g.nodes@ == pre.cx.graph.nodes@ + fitted + tail);
        assert(g.nodes@[n + k] == tail[0]);
        assert(g.nodes@[n + k + 1] == tail[1]);
        assert forall|j: int| n <= j < g.nodes@.len() implies !((#[trigger] g.nodes@[j]).kind
            is Deref) by {
            if j < n + k {
                assert(g.nodes@[j] == fitted[j - n]);
            }
        }
    }
}

/// The result of a call through a function pointer is bound: where the
/// signature returns a value, the result is a variable, a local of the
/// routine under construction, and the last instruction of the block
/// under the cursor assigns the call to it; where it returns none, the
/// call is evaluated, and the result is a local of the pointer-sized
/// integer type that the last instruction sets to zero.
pub proof fn law_pointer_call_result_is_bound(
    pre: Builder,
    post: Builder,
    func_ptr: RValue,
    args: Seq<RValue>,
    r: RValue,
)
    requires
        pre.wf(),
        pre.has_value(func_ptr),
        pre.pointer_called(&post, func_ptr, args, r),
    ensures
        ({
            let g = post.cx.graph;
            let ret = pre.cx.graph.pointer_return_type(pre.type_of(func_ptr));
            let before = pre.cx.graph.instrs(pre.block).len() as int;
            let last = g.instrs(post.block).last();
            &&& post.block == pre.block
            &&& g.kind_of(r) == (NodeKind::Var { var: pre.cx.graph.vars@.len() as usize })
            &&& g.vars@.last().scope == (Scope::Local {
                func: pre.cx.graph.block_function(pre.block),
            })
            &&& last is Assign
            &&& last->target == (LValue { id: r.id })
            &&& ret != pre.cx.void_type ==> {
                &&& g.instrs(post.block).len() == before + 1
                &&& g.type_of(r) == ret
                &&& g.kind_of(last->Assign_value) is CallThroughPtr
                &&& g.kind_of(last->Assign_value)->CallThroughPtr_ptr == func_ptr
            }
            &&& ret == pre.cx.void_type ==> {
                &&& g.instrs(post.block).len() == before + 2
                &&& g.type_of(r) == pre.cx.isize_type
                &&& g.nodes@[last->Assign_value.id as int] == Builder::const_node(
                    0,
                    pre.cx.isize_type,
                )
                &&& g.instrs(post.block)[before] is Eval
                &&& g.kind_of(g.instrs(post.block)[before]->Eval_value) is CallThroughPtr
                &&& g.kind_of(g.instrs(post.block)[before]->Eval_value)->CallThroughPtr_ptr
                    == func_ptr
            }
        }),
{
    let g = post.cx.graph;
    let fitted = pre.ptr_fitting(func_ptr, args);
    let k = fitted.len() as int;
    let n = pre.cx.graph.nodes@.len() as int;
    let ret = pre.cx.graph.pointer_return_type(pre.type_of(func_ptr));
    assert(g.nodes.len() == g.nodes@.len());
    if ret != pre.cx.void_type {
        let tail = seq![pre.var_node(ret), pre.call_ptr_node(func_ptr)];
        assert(g.nodes@ == pre.cx.graph.nodes@ + fitted + tail);
        assert(g.nodes@[n + k] == tail[0]);
        assert(g.nodes@[n + k + 1] == tail[1]);
    } else {
        let tail = seq![
            pre.call_ptr_node(func_ptr),
            pre.var_node(pre.cx.isize_type),
            Builder::const_node(0, pre.cx.isize_type),
        ];
        assert(g.nodes@ == pre.cx.graph.nodes@ + fitted + tail);
        assert(g.nodes@[n + k] == tail[0]);
        assert(g.nodes@[n + k + 1] == tail[1]);
        assert(g.nodes@[n + k + 2] == tail[2]);
    }
}

/// The nodes that fit arguments to the parameters of a defined routine
/// are conversions and reinterpretations.
pub proof fn lemma_fitting_converts(pre: Builder, params: Seq<Type>, args: Seq<RValue>, n: int)
    ensures
        forall|k: int|
            0 <= k < pre.coerced(params, args, n).0.len() ==> (#[trigger] pre.coerced(
                params,
                args,
                n,
            ).0[k]).kind is Bitcast || pre.coerced(params, args, n).0[k].kind is Cast,
    decreases n,
{
    if n > 0 {
        lemma_fitting_converts(pre, params, args, n - 1);
    }
}

} // verus!
