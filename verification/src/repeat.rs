//! What a run of the loop of a repeated write does: the law of
//! `write_operand_repeatedly` over the reference semantics, for an operand
//! that is held as one value.

use vstd::prelude::*;
use crate::builder::Builder;
use crate::graph::{Block, Graph, Instr, LValue, NodeKind, RValue};
use crate::laws::{
    assigns_through, lemma_assignment_through, lemma_assigns_through_kept, lemma_put,
    lemma_store_assigns_through, previous_cell,
};
use crate::layout::{OperandRef, OperandValue, PlaceRef};
use crate::operands::RepeatLoop;
use crate::ops::ComparisonOp;
use crate::semantics::{fetch, flag, in_memory, put, sized, Addr, Config, Memory, Val};
use crate::types::Type;

verus! {

/// The cell of element `i` of an array of elements of `k` cells that
/// starts at the cell `a`.
pub open spec fn element_cell(a: Addr, k: int, i: int) -> Addr {
    Addr { region: a.region, offset: (a.offset + i * k) as usize }
}

/// The memory when the loop has written `i` elements: the local of the
/// loop, at the cell `c`, points to element `i`, and the elements before
/// it hold `x`, written one after the other.
pub open spec fn written(s: Memory, c: Addr, a: Addr, k: int, i: nat, x: Val) -> Memory
    decreases i,
{
    if i == 0 {
        put(s, c, Val::Ptr { addr: a })
    } else {
        put(
            put(written(s, c, a, k, (i - 1) as nat, x), element_cell(a, k, i - 1), x),
            c,
            Val::Ptr { addr: element_cell(a, k, i as int) },
        )
    }
}

/// The nodes that the set-up of the loop made, from `n` on: the bounds
/// of the array and the local of the loop.
pub open spec fn bounds_held(
    g: &Graph,
    lp: RepeatLoop,
    dest: RValue,
    n: int,
    count: u64,
    elem: Type,
    size_type: Type,
) -> bool {
    &&& 0 <= n && n + 11 <= g.nodes@.len()
    &&& dest.id < n
    &&& g.nodes@[n] == Builder::const_node(0, size_type)
    &&& g.nodes@[n + 1] == Builder::const_node(count as u128, size_type)
    &&& g.nodes@[n + 3].kind == (NodeKind::Deref { ptr: dest })
    &&& g.types.shape(g.nodes@[n + 3].ty) is Array
    &&& g.nodes@[n + 4] == Builder::element_node(Builder::at(n, 3), Builder::at(n, 0), elem)
    &&& g.nodes@[n + 5].kind == (NodeKind::AddressOf { lvalue: LValue { id: (n + 4) as usize } })
    &&& g.nodes@[n + 7].kind == (NodeKind::Deref { ptr: dest })
    &&& g.types.shape(g.nodes@[n + 7].ty) is Array
    &&& g.nodes@[n + 8] == Builder::element_node(Builder::at(n, 7), Builder::at(n, 1), elem)
    &&& g.nodes@[n + 9].kind == (NodeKind::AddressOf { lvalue: LValue { id: (n + 8) as usize } })
    &&& lp.end == Builder::at(n, 9)
    &&& lp.current.id == n + 10
    &&& g.nodes@[n + 10].kind is Var
    &&& g.types.is_pointer(g.nodes@[n + 10].ty)
}

/// The instructions of the four blocks of the loop.
pub open spec fn blocks_held(
    g: &Graph,
    entry: Block,
    pc: int,
    lp: RepeatLoop,
    value: RValue,
    n: int,
    target: LValue,
    q: int,
) -> bool {
    &&& entry.id < g.blocks@.len()
    &&& lp.header.id < g.blocks@.len()
    &&& lp.body.id < g.blocks@.len()
    &&& lp.next.id < g.blocks@.len()
    &&& 0 <= pc
    &&& g.instrs(entry).len() == pc + 2
    &&& g.instrs(entry)[pc] == (Instr::Assign { target: lp.current, value: Builder::at(n, 5) })
    &&& g.instrs(entry)[pc + 1] == (Instr::Jump { dest: lp.header })
    &&& g.instrs(lp.header) == seq![
        Instr::Conditional { cond: Builder::at(n, 11), on_true: lp.body, on_false: lp.next },
    ]
    &&& g.instrs(lp.body) == seq![
        Instr::Assign { target, value },
        Instr::Assign { target: lp.current, value: Builder::at(q, 2) },
        Instr::Jump { dest: lp.header },
    ]
    &&& g.instrs(lp.next) == Seq::<Instr>::empty()
}

/// The loop as a graph holds it: the nodes from `n` on that the set-up
/// made, the test, the storage `target` that the body assigns the value
/// to through the local of the loop, the nodes from `q` on that step to
/// the next element, and the instructions of the four blocks.
pub open spec fn loop_held(
    g: &Graph,
    entry: Block,
    pc: int,
    lp: RepeatLoop,
    dest: RValue,
    value: RValue,
    n: int,
    count: u64,
    elem: Type,
    size_type: Type,
    target: LValue,
    q: int,
) -> bool {
    let current = lp.current.read();
    &&& bounds_held(g, lp, dest, n, count, elem, size_type)
    &&& blocks_held(g, entry, pc, lp, value, n, target, q)
    &&& n + 12 <= q && q + 3 <= g.nodes@.len()
    &&& value.id < n
    &&& forall|j: int| 0 <= j < g.nodes@.len() ==> #[trigger] g.sound_node(j)
    &&& g.nodes@[n + 11].kind == (NodeKind::Comparison {
        op: ComparisonOp::NotEquals,
        lhs: current,
        rhs: lp.end,
    })
    &&& assigns_through(g, target, current)
    &&& g.nodes@[q] == Builder::const_node(1, size_type)
    &&& g.nodes@[q + 1] == Builder::element_node(current, Builder::at(q, 0), elem)
    &&& g.nodes@[q + 2].kind == (NodeKind::AddressOf { lvalue: LValue { id: (q + 1) as usize } })
}

/// What the law asks of the memory and of the operands: the pointer of
/// the place evaluates to the cell `a` and the value to `x` in every
/// memory, without changing it; an element has `k` cells, one at least,
/// and `count` of them after `a` can be addressed; the size type of the
/// target holds the numbers 0, 1 and `count`; the local of the loop has
/// its cell `c`, in another region than the array.
pub open spec fn loop_premises(
    g: &Graph,
    dest: RValue,
    value: RValue,
    count: u64,
    elem: Type,
    size_type: Type,
    s: Memory,
    c: Addr,
    a: Addr,
    x: Val,
) -> bool {
    let k = g.stride(elem);
    &&& forall|m: Memory| #[trigger] g.eval(dest.id as int, m) == (Val::Ptr { addr: a }, m)
    &&& forall|m: Memory| #[trigger] g.eval(value.id as int, m) == (x, m)
    &&& k > 0
    &&& a.offset + count * k <= usize::MAX
    &&& sized(&g.types, size_type, 0) == (Val::Int { value: 0 })
    &&& sized(&g.types, size_type, 1) == (Val::Int { value: 1 })
    &&& sized(&g.types, size_type, count as int) == (Val::Int { value: count as i128 })
    &&& in_memory(s, c)
    &&& c.offset == 0
    &&& c.region != a.region
}

/// The local of the loop keeps its cell, and holds the address of element
/// `i`, when `i` elements have been written.
pub proof fn lemma_written(s: Memory, c: Addr, a: Addr, k: int, i: nat, x: Val)
    requires
        in_memory(s, c),
        c.region != a.region,
    ensures
        in_memory(written(s, c, a, k, i, x), c),
        fetch(written(s, c, a, k, i, x), c) == (Val::Ptr { addr: element_cell(a, k, i as int) }),
        forall|o: Addr| in_memory(written(s, c, a, k, i, x), o) == in_memory(s, o),
    decreases i,
{
    if i == 0 {
        assert(element_cell(a, k, 0) == a);
        assert forall|o: Addr| in_memory(written(s, c, a, k, i, x), o) == in_memory(s, o) by {
            lemma_put(s, c, Val::Ptr { addr: a }, o);
        }
        lemma_put(s, c, Val::Ptr { addr: a }, c);
    } else {
        lemma_written(s, c, a, k, (i - 1) as nat, x);
        let w = written(s, c, a, k, (i - 1) as nat, x);
        let e = element_cell(a, k, i - 1);
        let w1 = put(w, e, x);
        let v = Val::Ptr { addr: element_cell(a, k, i as int) };
        assert forall|o: Addr| in_memory(written(s, c, a, k, i, x), o) == in_memory(s, o) by {
            if in_memory(w, e) {
                lemma_put(w, e, x, o);
            }
            lemma_put(w1, c, v, o);
            if in_memory(w, e) {
                lemma_put(w, e, x, c);
            }
        }
        if in_memory(w, e) {
            lemma_put(w, e, x, c);
        }
        lemma_put(w1, c, v, c);
    }
}

/// What the memory holds when `i` elements have been written: the
/// elements before `i` hold `x`, where they are cells of the memory, and
/// every cell but those and the local's is as it was.
pub proof fn lemma_written_cells(s: Memory, c: Addr, a: Addr, k: int, i: nat, x: Val, o: Addr)
    requires
        in_memory(s, c),
        c.region != a.region,
        k > 0,
        a.offset + i * k <= usize::MAX,
        o != c,
    ensures
        (exists|j: int| 0 <= j < i && o == element_cell(a, k, j)) ==> in_memory(s, o) ==> fetch(
            written(s, c, a, k, i, x),
            o,
        ) == x,
        (forall|j: int| 0 <= j < i ==> o != element_cell(a, k, j)) ==> fetch(
            written(s, c, a, k, i, x),
            o,
        ) == fetch(s, o),
    decreases i,
{
    if i == 0 {
        lemma_put(s, c, Val::Ptr { addr: a }, o);
    } else {
        assert((i - 1) * k <= i * k) by (nonlinear_arith)
            requires
                k > 0,
                i >= 1,
        ;
        lemma_written_cells(s, c, a, k, (i - 1) as nat, x, o);
        lemma_written(s, c, a, k, (i - 1) as nat, x);
        let w = written(s, c, a, k, (i - 1) as nat, x);
        let e = element_cell(a, k, i - 1);
        let w1 = put(w, e, x);
        let v = Val::Ptr { addr: element_cell(a, k, i as int) };
        if in_memory(w, e) {
            lemma_put(w, e, x, c);
            lemma_put(w, e, x, o);
        }
        lemma_put(w1, c, v, o);
        if exists|j: int| 0 <= j < i && o == element_cell(a, k, j) {
            let j = choose|j: int| 0 <= j < i && o == element_cell(a, k, j);
            if j < i - 1 {
                assert(0 <= j < i - 1 && o == element_cell(a, k, j));
            }
        }
        if forall|j: int| 0 <= j < i ==> o != element_cell(a, k, j) {
            assert(o != element_cell(a, k, i - 1));
            assert forall|j: int| 0 <= j < i - 1 implies o != element_cell(a, k, j) by {}
        }
    }
}

/// The nodes of the loop evaluate as they are meant to: the bounds of
/// the array, the local, the test, and the step to the next element,
/// where the local points to element `i`.
pub proof fn lemma_loop_nodes(
    g: &Graph,
    entry: Block,
    pc: int,
    lp: RepeatLoop,
    dest: RValue,
    value: RValue,
    n: int,
    count: u64,
    elem: Type,
    size_type: Type,
    target: LValue,
    q: int,
    s: Memory,
    c: Addr,
    a: Addr,
    x: Val,
    m: Memory,
    i: int,
)
    requires
        loop_held(g, entry, pc, lp, dest, value, n, count, elem, size_type, target, q),
        loop_premises(g, dest, value, count, elem, size_type, s, c, a, x),
        g.nodes@[n + 10].kind == (NodeKind::Var { var: c.region }),
        0 <= i <= count,
    ensures
        g.eval(n + 5, m) == (Val::Ptr { addr: a }, m),
        g.place(n + 10, m) == (Val::Ptr { addr: c }, m),
        g.eval(n + 10, m) == (fetch(m, c), m),
        fetch(m, c) == (Val::Ptr { addr: element_cell(a, g.stride(elem), i) }) ==> g.eval(
            n + 11,
            m,
        ) == (flag(i != count), m),
        fetch(m, c) == (Val::Ptr { addr: element_cell(a, g.stride(elem), i) }) && i < count
            ==> g.eval(q + 2, m) == (
            Val::Ptr { addr: element_cell(a, g.stride(elem), i + 1) },
            m,
        ),
{
    let k = g.stride(elem);
    assert(g.nodes.len() == g.nodes@.len());
    assert(g.sound_node(n));
    assert(g.sound_node(n + 1));
    assert(g.sound_node(n + 3));
    assert(g.sound_node(n + 4));
    assert(g.sound_node(n + 5));
    assert(g.sound_node(n + 7));
    assert(g.sound_node(n + 8));
    assert(g.sound_node(n + 9));
    assert(g.sound_node(n + 10));
    assert(g.sound_node(n + 11));
    assert(g.sound_node(q));
    assert(g.sound_node(q + 1));
    assert(g.sound_node(q + 2));
    // the first element
    g.lemma_constant(n, m);
    g.lemma_dereference(n + 3, m);
    g.lemma_element(n + 4, m);
    g.lemma_address(n + 5, m);
    assert(0 * k == 0) by (nonlinear_arith);
    // the one past the last
    g.lemma_constant(n + 1, m);
    g.lemma_dereference(n + 7, m);
    g.lemma_element(n + 8, m);
    g.lemma_address(n + 9, m);
    assert(g.eval(n + 9, m) == (Val::Ptr { addr: element_cell(a, k, count as int) }, m));
    // the local and the test
    g.lemma_variable(n + 10, m);
    g.lemma_comparison(n + 11, m);
    assert(i * k <= count * k) by (nonlinear_arith)
        requires
            0 <= i <= count,
            k > 0,
    ;
    if i != count {
        assert(i * k < count * k) by (nonlinear_arith)
            requires
                0 <= i < count,
                k > 0,
        ;
        assert(element_cell(a, k, i) != element_cell(a, k, count as int));
        // the next element
        g.lemma_constant(q, m);
        g.lemma_element(q + 1, m);
        g.lemma_address(q + 2, m);
        assert((i + 1) * k == i * k + k) by (nonlinear_arith);
        assert((i + 1) * k <= count * k) by (nonlinear_arith)
            requires
                0 <= i < count,
                k > 0,
        ;
        assert(1 * k == k) by (nonlinear_arith);
    }
}

/// A run from the header of the loop, where `i` elements have been
/// written, ends at the block after the loop, where all have been.
pub proof fn lemma_loop_runs(
    g: &Graph,
    entry: Block,
    pc: int,
    lp: RepeatLoop,
    dest: RValue,
    value: RValue,
    n: int,
    count: u64,
    elem: Type,
    size_type: Type,
    target: LValue,
    q: int,
    s: Memory,
    c: Addr,
    a: Addr,
    x: Val,
    i: nat,
    jumps: nat,
)
    requires
        loop_held(g, entry, pc, lp, dest, value, n, count, elem, size_type, target, q),
        loop_premises(g, dest, value, count, elem, size_type, s, c, a, x),
        g.nodes@[n + 10].kind == (NodeKind::Var { var: c.region }),
        i <= count,
        jumps >= 2 * (count - i) + 1,
    ensures
        g.run(lp.header, 0, written(s, c, a, g.stride(elem), i, x), jumps) == (Config {
            block: lp.next,
            pc: 0,
            memory: written(s, c, a, g.stride(elem), count as nat, x),
        }),
    decreases count - i,
{
    let k = g.stride(elem);
    let m = written(s, c, a, k, i, x);
    lemma_written(s, c, a, k, i, x);
    lemma_loop_nodes(
        g,
        entry,
        pc,
        lp,
        dest,
        value,
        n,
        count,
        elem,
        size_type,
        target,
        q,
        s,
        c,
        a,
        x,
        m,
        i as int,
    );
    assert(g.blocks.len() == g.blocks@.len());
    assert(g.nodes.len() == g.nodes@.len());
    let branch = g.instrs(lp.header)[0];
    assert(branch == (Instr::Conditional {
        cond: Builder::at(n, 11),
        on_true: lp.body,
        on_false: lp.next,
    }));
    if i == count {
        assert(g.successor(branch, m) == (Some(lp.next), m));
        g.lemma_run_over(lp.header, 0, m, jumps);
        g.lemma_run_out(lp.next, 0, m, (jumps - 1) as nat);
    } else {
        assert(g.successor(branch, m) == (Some(lp.body), m));
        g.lemma_run_over(lp.header, 0, m, jumps);
        let e = element_cell(a, k, i as int);
        let current = lp.current.read();
        let store = Instr::Assign { target, value };
        lemma_assignment_through(g, target, current, value, m, e);
        let m1 = put(m, e, x);
        assert(g.step(store, m) == m1);
        if in_memory(m, e) {
            lemma_put(m, e, x, c);
        }
        assert(fetch(m1, c) == fetch(m, c));
        lemma_loop_nodes(
            g,
            entry,
            pc,
            lp,
            dest,
            value,
            n,
            count,
            elem,
            size_type,
            target,
            q,
            s,
            c,
            a,
            x,
            m1,
            i as int,
        );
        let step = Instr::Assign { target: lp.current, value: Builder::at(q, 2) };
        let m2 = put(m1, c, Val::Ptr { addr: element_cell(a, k, (i + 1) as int) });
        assert(g.step(step, m1) == m2);
        assert(m2 == written(s, c, a, k, (i + 1) as nat, x));
        let back = Instr::Jump { dest: lp.header };
        assert(g.instrs(lp.body)[0] == store);
        assert(g.instrs(lp.body)[1] == step);
        assert(g.instrs(lp.body)[2] == back);
        g.lemma_run_on(lp.body, 0, m, (jumps - 1) as nat);
        g.lemma_run_on(lp.body, 1, m1, (jumps - 1) as nat);
        assert(g.successor(back, m2) == (Some(lp.header), m2));
        g.lemma_run_over(lp.body, 2, m2, (jumps - 1) as nat);
        lemma_loop_runs(
            g,
            entry,
            pc,
            lp,
            dest,
            value,
            n,
            count,
            elem,
            size_type,
            target,
            q,
            s,
            c,
            a,
            x,
            (i + 1) as nat,
            (jumps - 2) as nat,
        );
    }
}

/// The set-up of the loop left the bounds of the array and the local of
/// the loop in the graph.
pub proof fn lemma_bounds_held(pre: Builder, s1: Builder, post: Builder, count: u64, dest: PlaceRef, lp: RepeatLoop)
    requires
        pre.wf(),
        pre.has_value(dest.llval),
        pre.cx.graph.types.is_pointer(pre.type_of(dest.llval)),
        pre.cx.graph.types.shape(pre.pointee_of(dest.llval)) is Array,
        pre.repeat_set_up(&s1, count, dest, lp),
        s1.grew_into(&post),
    ensures
        bounds_held(
            &post.cx.graph,
            lp,
            dest.llval,
            pre.cx.graph.nodes@.len() as int,
            count,
            pre.cx.graph.element_type(pre.pointee_of(dest.llval)),
            pre.cx.usize_type,
        ),
        post.cx.graph.nodes@[pre.cx.graph.nodes@.len() as int + 10].kind == (NodeKind::Var {
            var: pre.cx.graph.vars@.len() as usize,
        }),
        post.cx.graph.nodes@[pre.cx.graph.nodes@.len() as int + 10].ty == s1.pointer_to(
            pre.cx.graph.element_type(pre.pointee_of(dest.llval)),
        ),
        post.cx.graph.types.pointee(
            s1.pointer_to(pre.cx.graph.element_type(pre.pointee_of(dest.llval))),
        ) == pre.cx.graph.element_type(pre.pointee_of(dest.llval)),
{
    let g = post.cx.graph;
    let n = pre.cx.graph.nodes@.len() as int;
    let p = pre.pointee_of(dest.llval);
    let elem = pre.cx.graph.element_type(p);
    let ptr_type = s1.pointer_to(elem);
    pre.lemma_wf();
    s1.lemma_wf();
    pre.lemma_grew_trans(&s1, &post);
    s1.lemma_grew_prefixes(&post);
    assert(g.nodes.len() == g.nodes@.len());
    assert(s1.cx.graph.nodes.len() == s1.cx.graph.nodes@.len());
    reveal(Builder::holds_at);
    let first = pre.projected_at(&s1, n + 2, dest.llval, pre.nth(0));
    let last = pre.projected_at(&s1, n + 6, dest.llval, pre.nth(1));
    assert(s1.cx.graph.nodes@[n + 2 + 1] == first[1]);
    assert(s1.cx.graph.nodes@[n + 2 + 2] == first[2]);
    assert(s1.cx.graph.nodes@[n + 2 + 3] == first[3]);
    assert(s1.cx.graph.nodes@[n + 6 + 1] == last[1]);
    assert(s1.cx.graph.nodes@[n + 6 + 2] == last[2]);
    assert(s1.cx.graph.nodes@[n + 6 + 3] == last[3]);
    assert(g.nodes@[n] == s1.cx.graph.nodes@[n]);
    assert(g.nodes@[n + 1] == s1.cx.graph.nodes@[n + 1]);
    assert(g.nodes@[n + 3] == s1.cx.graph.nodes@[n + 3]);
    assert(g.nodes@[n + 4] == s1.cx.graph.nodes@[n + 4]);
    assert(g.nodes@[n + 5] == s1.cx.graph.nodes@[n + 5]);
    assert(g.nodes@[n + 7] == s1.cx.graph.nodes@[n + 7]);
    assert(g.nodes@[n + 8] == s1.cx.graph.nodes@[n + 8]);
    assert(g.nodes@[n + 9] == s1.cx.graph.nodes@[n + 9]);
    assert(g.nodes@[n + 10] == s1.cx.graph.nodes@[n + 10]);
    pre.lemma_pointee_held(dest.llval);
    pre.lemma_type_kept(&post, p);
    assert(s1.cx.graph.nodes@[n + 10] == pre.var_node(ptr_type));
    s1.lemma_value_kept(&post, lp.current.read());
    s1.cx.graph.types.lemma_strip_plain(ptr_type);
    s1.lemma_type_kept(&post, ptr_type);
}

/// The builders of a repeated write left the instructions of the loop in
/// its four blocks.
pub proof fn lemma_blocks_held(
    pre: Builder,
    s1: Builder,
    s2: Builder,
    s3: Builder,
    post: Builder,
    cg_elem: OperandRef,
    count: u64,
    dest: PlaceRef,
    lp: RepeatLoop,
    value: RValue,
    zero: RValue,
)
    requires
        pre.wf(),
        pre.written_repeatedly(&s1, &s2, &s3, &post, cg_elem, count, dest, lp),
        s2.stored(
            &s3,
            value,
            lp.current.read(),
            Builder::element_place(lp, cg_elem, dest).align,
            zero,
        ),
    ensures
        blocks_held(
            &post.cx.graph,
            pre.block,
            pre.cx.graph.instrs(pre.block).len() as int,
            lp,
            value,
            pre.cx.graph.nodes@.len() as int,
            s2.store_target(value, lp.current.read()),
            s3.cx.graph.nodes@.len() as int,
        ),
        post.block == lp.next,
{
    let g = post.cx.graph;
    let n = pre.cx.graph.nodes@.len() as int;
    let q = s3.cx.graph.nodes@.len() as int;
    let entry = pre.block;
    let target = s2.store_target(value, lp.current.read());
    pre.lemma_wf();
    assert(g.nodes.len() == g.nodes@.len());
    assert(g.blocks.len() == g.blocks@.len());
    assert(s1.cx.graph.nodes.len() == s1.cx.graph.nodes@.len());
    assert(s3.cx.graph.nodes.len() == s3.cx.graph.nodes@.len());
    assert(s1.cx.graph.blocks.len() == s1.cx.graph.blocks@.len());
    assert(entry.id < pre.cx.graph.blocks@.len());
    assert(s2.cx.graph.blocks@[entry.id as int] == s1.cx.graph.blocks@[entry.id as int]);
    assert(s3.cx.graph.blocks@[entry.id as int] == s2.cx.graph.blocks@[entry.id as int]);
    assert(g.blocks@[entry.id as int] == s3.cx.graph.blocks@[entry.id as int]);
    assert(s3.cx.graph.blocks@[lp.header.id as int] == s2.cx.graph.blocks@[lp.header.id as int]);
    assert(g.blocks@[lp.header.id as int] == s3.cx.graph.blocks@[lp.header.id as int]);
    assert(s2.cx.graph.blocks@[lp.body.id as int] == s1.cx.graph.blocks@[lp.body.id as int]);
    assert(s2.cx.graph.blocks@[lp.next.id as int] == s1.cx.graph.blocks@[lp.next.id as int]);
    assert(s3.cx.graph.blocks@[lp.next.id as int] == s2.cx.graph.blocks@[lp.next.id as int]);
    assert(g.blocks@[lp.next.id as int] == s3.cx.graph.blocks@[lp.next.id as int]);
    assert(g.instrs(entry) =~= pre.cx.graph.instrs(entry) + seq![
        Instr::Assign { target: lp.current, value: pre.nth(5) },
        Instr::Jump { dest: lp.header },
    ]);
    assert(g.instrs(lp.header) =~= seq![
        Instr::Conditional { cond: Builder::at(n, 11), on_true: lp.body, on_false: lp.next },
    ]);
    assert(g.instrs(lp.body) =~= seq![
        Instr::Assign { target, value },
        Instr::Assign { target: lp.current, value: Builder::at(q, 2) },
        Instr::Jump { dest: lp.header },
    ]);
}

/// The builders of a repeated write of a value hold the loop.
pub proof fn lemma_loop_is_held(
    pre: Builder,
    s1: Builder,
    s2: Builder,
    s3: Builder,
    post: Builder,
    cg_elem: OperandRef,
    count: u64,
    dest: PlaceRef,
    lp: RepeatLoop,
    value: RValue,
    zero: RValue,
)
    requires
        pre.wf(),
        pre.has_value(dest.llval),
        pre.has_value(value),
        pre.cx.graph.types.is_pointer(pre.type_of(dest.llval)),
        pre.cx.graph.types.shape(pre.pointee_of(dest.llval)) is Array,
        pre.written_repeatedly(&s1, &s2, &s3, &post, cg_elem, count, dest, lp),
        s2.stored(
            &s3,
            value,
            lp.current.read(),
            Builder::element_place(lp, cg_elem, dest).align,
            zero,
        ),
    ensures
        loop_held(
            &post.cx.graph,
            pre.block,
            pre.cx.graph.instrs(pre.block).len() as int,
            lp,
            dest.llval,
            value,
            pre.cx.graph.nodes@.len() as int,
            count,
            pre.cx.graph.element_type(pre.pointee_of(dest.llval)),
            pre.cx.usize_type,
            s2.store_target(value, lp.current.read()),
            s3.cx.graph.nodes@.len() as int,
        ),
        post.cx.graph.nodes@[pre.cx.graph.nodes@.len() as int + 10].kind == (NodeKind::Var {
            var: pre.cx.graph.vars@.len() as usize,
        }),
        post.block == lp.next,
{
    let g = post.cx.graph;
    let n = pre.cx.graph.nodes@.len() as int;
    let q = s3.cx.graph.nodes@.len() as int;
    let elem = pre.cx.graph.element_type(pre.pointee_of(dest.llval));
    let current = lp.current.read();
    let ptr_type = s1.pointer_to(elem);
    let align = Builder::element_place(lp, cg_elem, dest).align;
    let target = s2.store_target(value, current);
    s2.lemma_grew_trans(&s3, &post);
    s1.lemma_grew_trans(&s2, &post);
    s1.lemma_grew_trans(&s2, &s3);
    pre.lemma_grew_trans(&s1, &s2);
    lemma_bounds_held(pre, s1, post, count, dest, lp);
    lemma_bounds_held(pre, s1, s3, count, dest, lp);
    lemma_blocks_held(pre, s1, s2, s3, post, cg_elem, count, dest, lp, value, zero);
    s1.lemma_grew_prefixes(&s2);
    s2.lemma_grew_prefixes(&post);
    s3.lemma_grew_prefixes(&post);
    assert(g.nodes.len() == g.nodes@.len());
    assert(s1.cx.graph.nodes.len() == s1.cx.graph.nodes@.len());
    assert(s2.cx.graph.nodes.len() == s2.cx.graph.nodes@.len());
    assert(s3.cx.graph.nodes.len() == s3.cx.graph.nodes@.len());
    assert forall|j: int| 0 <= j < g.nodes@.len() implies #[trigger] g.sound_node(j) by {
        reveal(Builder::wf);
        assert(g.node_ok(j));
    }
    // the test
    assert(g.nodes@[n + 11] == s2.cx.graph.nodes@[n + 11]);
    // the store
    s1.lemma_wf();
    s1.lemma_value_kept(&s2, current);
    pre.lemma_value_kept(&s2, value);
    lemma_store_assigns_through(s2, s3, value, current, align, zero);
    lemma_assigns_through_kept(s3, post, target, current);
    // the step
    assert(s3.cx.graph.storage_type(lp.current) == ptr_type);
    let step = seq![
        s3.usize_node(1),
        Builder::element_node(
            current,
            s3.nth(0),
            s3.cx.graph.element_type(s3.cx.graph.storage_type(lp.current)),
        ),
        Builder::address_node(
            s3.nth_storage(1),
            post.pointer_to(s3.cx.graph.element_type(s3.cx.graph.storage_type(lp.current))),
        ),
    ];
    assert(g.nodes@ == s3.cx.graph.nodes@ + step);
    assert(g.nodes@[q] == step[0]);
    assert(g.nodes@[q + 1] == step[1]);
    assert(g.nodes@[q + 2] == step[2]);
}

/// A repeated write fills the elements: a run of the loop that
/// `write_operand_repeatedly` emits for an operand held as one value
/// writes the value to each of the first `count` elements of the array,
/// and to nothing else but the local of the loop.
///
/// `write_operand_repeatedly` has taken a builder from `pre` to `post`,
/// through the states `s1`, `s2` and `s3`. The pointer of the place points
/// to an array, evaluates to its first cell, `a`, and changes no memory;
/// the value evaluates to `x` alike. A run from where the block that was
/// under the cursor went on, through at most two jumps for each element
/// and two more, ends at the start of the block now under the cursor.
/// The loop has run `count` times: each of the `count` elements that is a
/// cell of the memory holds `x`, and every cell that is none of them, nor
/// the cell of the local of the loop, holds what it held.
pub proof fn law_repeated_write_fills_the_elements(
    pre: Builder,
    s1: Builder,
    s2: Builder,
    s3: Builder,
    post: Builder,
    cg_elem: OperandRef,
    count: u64,
    dest: PlaceRef,
    lp: RepeatLoop,
    value: RValue,
    s: Memory,
    a: Addr,
    x: Val,
)
    requires
        pre.wf(),
        pre.has_value(dest.llval),
        pre.has_value(value),
        cg_elem.val == (OperandValue::Immediate { value }),
        pre.cx.graph.types.is_pointer(pre.type_of(dest.llval)),
        pre.cx.graph.types.shape(pre.pointee_of(dest.llval)) is Array,
        pre.written_repeatedly(&s1, &s2, &s3, &post, cg_elem, count, dest, lp),
        loop_premises(
            &post.cx.graph,
            dest.llval,
            value,
            count,
            pre.cx.graph.element_type(pre.pointee_of(dest.llval)),
            pre.cx.usize_type,
            s,
            previous_cell(&pre),
            a,
            x,
        ),
    ensures
        ({
            let g = post.cx.graph;
            let c = previous_cell(&pre);
            let k = g.stride(pre.cx.graph.element_type(pre.pointee_of(dest.llval)));
            let pc = pre.cx.graph.instrs(pre.block).len() as int;
            let end = g.run(pre.block, pc, s, (2 * count + 2) as nat);
            &&& end.block == post.block
            &&& end.pc == 0
            &&& end.memory == written(s, c, a, k, count as nat, x)
            &&& forall|j: int|
                0 <= j < count && in_memory(s, element_cell(a, k, j)) ==> fetch(
                    end.memory,
                    #[trigger] element_cell(a, k, j),
                ) == x
            &&& forall|o: Addr|
                o != c && (forall|j: int| 0 <= j < count ==> o != element_cell(a, k, j))
                    ==> #[trigger] fetch(end.memory, o) == fetch(s, o)
        }),
{
    let g = post.cx.graph;
    let c = previous_cell(&pre);
    let n = pre.cx.graph.nodes@.len() as int;
    let q = s3.cx.graph.nodes@.len() as int;
    let entry = pre.block;
    let pc = pre.cx.graph.instrs(entry).len() as int;
    let elem = pre.cx.graph.element_type(pre.pointee_of(dest.llval));
    let k = g.stride(elem);
    let place = Builder::element_place(lp, cg_elem, dest);
    let zero = choose|zero: RValue| #[trigger]
        s2.stored(&s3, value, place.llval, place.align, zero);
    let target = s2.store_target(value, lp.current.read());
    lemma_loop_is_held(pre, s1, s2, s3, post, cg_elem, count, dest, lp, value, zero);
    assert(g.nodes.len() == g.nodes@.len());
    assert(g.blocks.len() == g.blocks@.len());
    assert(g.vars.len() == g.vars@.len());
    lemma_loop_nodes(
        &g,
        entry,
        pc,
        lp,
        dest.llval,
        value,
        n,
        count,
        elem,
        pre.cx.usize_type,
        target,
        q,
        s,
        c,
        a,
        x,
        s,
        0,
    );
    let first = Instr::Assign { target: lp.current, value: Builder::at(n, 5) };
    let m0 = written(s, c, a, k, 0, x);
    assert(g.step(first, s) == m0);
    let jump = Instr::Jump { dest: lp.header };
    assert(g.successor(jump, m0) == (Some(lp.header), m0));
    let jumps = (2 * count + 2) as nat;
    g.lemma_run_on(entry, pc, s, jumps);
    g.lemma_run_over(entry, pc + 1, m0, jumps);
    lemma_loop_runs(
        &g,
        entry,
        pc,
        lp,
        dest.llval,
        value,
        n,
        count,
        elem,
        pre.cx.usize_type,
        target,
        q,
        s,
        c,
        a,
        x,
        0,
        (jumps - 1) as nat,
    );
    let end_memory = written(s, c, a, k, count as nat, x);
    assert forall|j: int| 0 <= j < count && in_memory(s, element_cell(a, k, j)) implies fetch(
        end_memory,
        #[trigger] element_cell(a, k, j),
    ) == x by {
        lemma_written_cells(s, c, a, k, count as nat, x, element_cell(a, k, j));
    }
    assert forall|o: Addr|
        o != c && (forall|j: int| 0 <= j < count ==> o != element_cell(a, k, j))
            implies #[trigger] fetch(end_memory, o) == fetch(s, o) by {
        lemma_written_cells(s, c, a, k, count as nat, x, o);
    }
}

} // verus!
