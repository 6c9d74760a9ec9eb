//! Laws that relate several calls of the chips.

use crate::circuit::{Cell, Column, Error, GateConfig, Operation};
use crate::field::{field_add, field_mul, field_sub, modulus, FieldValue};
use crate::layouter::{
    cell_value, exposed_at, exposures_agree, Exposure, expose_outcome, gate_outcome, identity_holds, instance_value, load_outcome,
    Assignment, LayoutView, Number,
};
use vstd::arithmetic::div_mod::{lemma_add_mod_noop, lemma_mul_mod_noop_left, lemma_sub_mod_noop};
use vstd::prelude::*;

verus! {

/// A gate applied to handles bound in a satisfied record succeeds when two
/// rows are free and equality is enabled on every column the copies touch.
pub proof fn lemma_gate_succeeds(
    g: GateConfig,
    pre: LayoutView,
    a: Number,
    b: Number,
    post: LayoutView,
    r: Result<Number, Error>,
)
    requires
        pre.satisfied(),
        pre.binds(a),
        pre.binds(b),
        pre.next_row + 2 <= pre.usable_rows,
        pre.equality.contains(a.cell.column),
        pre.equality.contains(b.cell.column),
        pre.equality.contains(g.a),
        pre.equality.contains(g.b),
        gate_outcome(g, pre, a, b, post, r),
    ensures
        r is Ok,
{
    lemma_assigned_below(pre.assignments, a.cell, pre.next_row);
    lemma_assigned_below(pre.assignments, b.cell, pre.next_row);
}

/// With four free rows in a satisfied record, loading `x` and `y` into
/// column `col` and then combining both handles with `g` succeeds at every
/// step, and the result holds `g.op` of `x` and `y` modulo `p`.
pub proof fn lemma_load_then_apply(
    col: Column,
    g: GateConfig,
    l0: LayoutView,
    x: FieldValue,
    l1: LayoutView,
    rx: Result<Number, Error>,
    y: FieldValue,
    l2: LayoutView,
    ry: Result<Number, Error>,
    l3: LayoutView,
    r: Result<Number, Error>,
)
    requires
        l0.wf(),
        l0.satisfied(),
        l0.next_row + 4 <= l0.usable_rows,
        x.wf(),
        y.wf(),
        l0.equality.contains(col),
        l0.equality.contains(g.a),
        l0.equality.contains(g.b),
        load_outcome(col, l0, x, l1, rx),
        load_outcome(col, l1, y, l2, ry),
        gate_outcome(g, l2, rx->Ok_0, ry->Ok_0, l3, r),
    ensures
        rx is Ok,
        ry is Ok,
        r is Ok,
        r->Ok_0.value.val() == g.op.eval(x.val(), y.val()),
{
    lemma_load_keeps_satisfied(col, l0, x, l1, rx);
    lemma_load_keeps_satisfied(col, l1, y, l2, ry);
    lemma_gate_succeeds(g, l2, rx->Ok_0, ry->Ok_0, l3, r);
}

/// Adding, then multiplying, then subtracting, one gate after another, gives
/// the value of the whole expression `(a + b) * c - d` reduced once.
pub proof fn lemma_add_mul_sub(a: int, b: int, c: int, d: int)
    ensures
        field_sub(field_mul(field_add(a, b), c), d) == ((a + b) * c - d) % modulus(),
{
    let m = modulus();
    let p = (a + b) * c;
    lemma_mul_mod_noop_left(a + b, c, m);
    assert(field_mul(field_add(a, b), c) == p % m);
    lemma_sub_mod_noop(p, d, m);
    lemma_sub_mod_noop(p % m, d, m);
    vstd::arithmetic::div_mod::lemma_mod_twice(p, m);
}

/// With ten free rows in a satisfied record, loading `a`, `b`, `c`, `d`
/// and then adding, multiplying and subtracting one gate after another
/// succeeds at every step and gives `((a + b) * c - d) mod p`.
pub proof fn lemma_add_mul_sub_in_circuit(
    col: Column,
    ga: GateConfig,
    gm: GateConfig,
    gs: GateConfig,
    l: Seq<LayoutView>,
    v: Seq<FieldValue>,
    n: Seq<Result<Number, Error>>,
)
    requires
        l.len() == 8,
        v.len() == 4,
        n.len() == 7,
        l[0].wf(),
        l[0].satisfied(),
        l[0].next_row + 10 <= l[0].usable_rows,
        forall|i: int| 0 <= i < 4 ==> #[trigger] v[i].wf(),
        ga.op == Operation::Add && gm.op == Operation::Mul && gs.op == Operation::Sub,
        ga.a != ga.b && gm.a != gm.b && gs.a != gs.b,
        l[0].equality.contains(col),
        l[0].equality.contains(ga.a) && l[0].equality.contains(ga.b),
        l[0].equality.contains(gm.a) && l[0].equality.contains(gm.b),
        l[0].equality.contains(gs.a) && l[0].equality.contains(gs.b),
        forall|i: int| 0 <= i < 4 ==> load_outcome(col, l[i], v[i], l[i + 1], #[trigger] n[i]),
        gate_outcome(ga, l[4], n[0]->Ok_0, n[1]->Ok_0, l[5], n[4]),
        gate_outcome(gm, l[5], n[4]->Ok_0, n[2]->Ok_0, l[6], n[5]),
        gate_outcome(gs, l[6], n[5]->Ok_0, n[3]->Ok_0, l[7], n[6]),
    ensures
        forall|i: int| 0 <= i < 7 ==> #[trigger] n[i] is Ok,
        n[6]->Ok_0.value.val() == ((v[0].val() + v[1].val()) * v[2].val() - v[3].val())
            % modulus(),
{
    assert(v[0].wf() && v[1].wf() && v[2].wf() && v[3].wf());
    assert(load_outcome(col, l[0], v[0], l[1], n[0]));
    assert(load_outcome(col, l[1], v[1], l[2], n[1]));
    assert(load_outcome(col, l[2], v[2], l[3], n[2]));
    assert(load_outcome(col, l[3], v[3], l[4], n[3]));
    lemma_load_keeps_satisfied(col, l[0], v[0], l[1], n[0]);
    lemma_load_keeps_satisfied(col, l[1], v[1], l[2], n[1]);
    lemma_load_keeps_satisfied(col, l[2], v[2], l[3], n[2]);
    lemma_load_keeps_satisfied(col, l[3], v[3], l[4], n[3]);
    let (x0, x1, x2, x3) = (n[0]->Ok_0, n[1]->Ok_0, n[2]->Ok_0, n[3]->Ok_0);
    assert(l[1].binds(x0) && l[2].binds(x0) && l[3].binds(x0) && l[4].binds(x0));
    assert(l[2].binds(x1) && l[3].binds(x1) && l[4].binds(x1));
    assert(l[3].binds(x2) && l[4].binds(x2));
    assert(l[4].binds(x3));
    lemma_gate_succeeds(ga, l[4], x0, x1, l[5], n[4]);
    lemma_apply_keeps_satisfied(ga, l[4], x0, x1, l[5], n[4]);
    let s = n[4]->Ok_0;
    assert(l[5].binds(x2) && l[5].binds(x3));
    lemma_gate_succeeds(gm, l[5], s, x2, l[6], n[5]);
    lemma_apply_keeps_satisfied(gm, l[5], s, x2, l[6], n[5]);
    let m = n[5]->Ok_0;
    assert(l[6].binds(x3));
    lemma_gate_succeeds(gs, l[6], m, x3, l[7], n[6]);
    lemma_add_mul_sub(v[0].val(), v[1].val(), v[2].val(), v[3].val());
}

/// Once `num` is exposed at `row`, the instance column reads `num`'s value
/// there, provided no earlier exposure binds that row to another value.
pub proof fn lemma_expose_then_read(
    instance: Column,
    pre: LayoutView,
    num: Number,
    row: nat,
    post: LayoutView,
)
    requires
        pre.wf(),
        exposures_agree(pre.exposures, instance, row, num.value.repr@),
        expose_outcome(instance, pre, num, row, post, Ok(())),
    ensures
        instance_value(post.exposures, instance, row) == Some(num.value.val()),
{
    let ex = post.exposures;
    let last = pre.exposures.len() as int;
    assert(ex[last].value == num.value);
    assert(exposed_at(ex, instance, row, last));
    assert forall|j: int| #[trigger] exposed_at(ex, instance, row, j) implies ex[j].value.repr@
        == num.value.repr@ by {
        if j < last {
            assert(exposed_at(pre.exposures, instance, row, j));
        }
    }
    let c = choose|c: int| exposed_at(ex, instance, row, c);
    assert(ex[c].value.repr@ == num.value.repr@);
}

/// Exposing at a row that an earlier exposure binds to a value with another
/// encoding leaves a record that no instance column satisfies.
pub proof fn lemma_conflicting_exposure(
    instance: Column,
    pre: LayoutView,
    num: Number,
    row: nat,
    post: LayoutView,
    i: int,
)
    requires
        pre.wf(),
        exposed_at(pre.exposures, instance, row, i),
        pre.exposures[i].value.repr@ != num.value.repr@,
        expose_outcome(instance, pre, num, row, post, Ok(())),
    ensures
        !post.satisfied(),
        instance_value(post.exposures, instance, row).is_none(),
{
    let ex = post.exposures;
    let last = pre.exposures.len() as int;
    assert(ex[i] == pre.exposures[i]);
    assert(ex[last].value == num.value);
    assert(exposed_at(ex, instance, row, last));
    assert(exposed_at(ex, instance, row, i));
    assert(ex[i].instance == ex[last].instance && ex[i].row == ex[last].row);
    if exists|c: int| exposed_at(ex, instance, row, c) {
        let c = choose|c: int| exposed_at(ex, instance, row, c);
        if exposures_agree(ex, instance, row, ex[c].value.repr@) {
            assert(ex[i].value.repr@ == ex[c].value.repr@);
            assert(ex[last].value.repr@ == ex[c].value.repr@);
        }
    }
}

/// Applying the same gate twice to the same bound handles, with four rows
/// free, succeeds both times and gives two distinct result cells that hold
/// the same value.
pub proof fn lemma_apply_twice(
    g: GateConfig,
    l0: LayoutView,
    a: Number,
    b: Number,
    l1: LayoutView,
    r1: Result<Number, Error>,
    l2: LayoutView,
    r2: Result<Number, Error>,
)
    requires
        l0.wf(),
        l0.satisfied(),
        l0.binds(a),
        l0.binds(b),
        g.a != g.b,
        l0.next_row + 4 <= l0.usable_rows,
        l0.equality.contains(a.cell.column),
        l0.equality.contains(b.cell.column),
        l0.equality.contains(g.a),
        l0.equality.contains(g.b),
        gate_outcome(g, l0, a, b, l1, r1),
        gate_outcome(g, l1, a, b, l2, r2),
    ensures
        r1 is Ok,
        r2 is Ok,
        r1->Ok_0.cell != r2->Ok_0.cell,
        r1->Ok_0.value.val() == r2->Ok_0.value.val(),
{
    lemma_gate_succeeds(g, l0, a, b, l1, r1);
    lemma_apply_keeps_satisfied(g, l0, a, b, l1, r1);
    lemma_gate_succeeds(g, l1, a, b, l2, r2);
    assert(r1->Ok_0.cell.row < r2->Ok_0.cell.row);
}

/// Writing one more value changes the written cell alone.
pub proof fn lemma_cell_value_push(assignments: Seq<Assignment>, x: Assignment, c: Cell)
    ensures
        cell_value(assignments.push(x), c) == if x.cell == c {
            Some(x.value.val())
        } else {
            cell_value(assignments, c)
        },
{
    assert(assignments.push(x).drop_last() == assignments);
}

/// A cell that holds a value lies below any bound on the rows written.
pub proof fn lemma_assigned_below(assignments: Seq<Assignment>, c: Cell, bound: nat)
    requires
        forall|i: int|
            0 <= i < assignments.len() ==> #[trigger] assignments[i].cell.row < bound,
        cell_value(assignments, c).is_some(),
    ensures
        c.row < bound,
    decreases assignments.len(),
{
    if assignments.last().cell != c {
        let rest = assignments.drop_last();
        assert forall|i: int| 0 <= i < rest.len() implies #[trigger] rest[i].cell.row < bound by {
            assert(rest[i] == assignments[i]);
        }
        lemma_assigned_below(rest, c, bound);
    }
}

/// Values written at rows from `s` on leave every cell below `s` as it was.
proof fn lemma_rows_below_kept(pre: Seq<Assignment>, post: Seq<Assignment>, s: nat)
    requires
        post.len() >= pre.len(),
        forall|i: int| 0 <= i < pre.len() ==> post[i] == pre[i],
        forall|i: int| pre.len() <= i < post.len() ==> #[trigger] post[i].cell.row >= s,
    ensures
        forall|c: Cell|
            c.row < s ==> #[trigger] cell_value(post, c) == cell_value(pre, c),
    decreases post.len() - pre.len(),
{
    if post.len() > pre.len() {
        let shorter = post.drop_last();
        assert forall|i: int| pre.len() <= i < shorter.len() implies #[trigger] shorter[i].cell.row
            >= s by {
            assert(shorter[i] == post[i]);
        }
        lemma_rows_below_kept(pre, shorter, s);
        assert forall|c: Cell| c.row < s implies #[trigger] cell_value(post, c) == cell_value(
            pre,
            c,
        ) by {
            assert(post.last() == post[post.len() - 1]);
            assert(cell_value(shorter, c) == cell_value(pre, c));
        }
    } else {
        assert(post == pre);
    }
}

/// Applying a gate to two bound handles keeps every constraint satisfied,
/// keeps both handles bound, and binds the result.
pub proof fn lemma_apply_keeps_satisfied(
    g: GateConfig,
    pre: LayoutView,
    a: Number,
    b: Number,
    post: LayoutView,
    r: Result<Number, Error>,
)
    requires
        pre.wf(),
        pre.satisfied(),
        pre.binds(a),
        pre.binds(b),
        g.a != g.b,
        gate_outcome(g, pre, a, b, post, r),
    ensures
        post.satisfied(),
        forall|n: Number| pre.binds(n) ==> #[trigger] post.binds(n),
        r is Ok ==> post.binds(r->Ok_0),
{
    if r is Ok {
        let s = pre.next_row;
        let n = r->Ok_0;
        let lhs = Cell { column: g.a, row: s as usize };
        let rhs = Cell { column: g.b, row: s as usize };
        let out = Cell { column: g.a, row: (s + 1) as usize };
        let x0 = Assignment { cell: lhs, value: a.value };
        let x1 = Assignment { cell: rhs, value: b.value };
        let x2 = Assignment { cell: out, value: n.value };
        let a1 = pre.assignments.push(x0);
        let a2 = a1.push(x1);
        let a3 = a2.push(x2);
        assert(post.assignments == a3);
        lemma_rows_below_kept(pre.assignments, post.assignments, s);
        lemma_assigned_below(pre.assignments, a.cell, s);
        lemma_assigned_below(pre.assignments, b.cell, s);
        assert forall|m: Number| pre.binds(m) implies #[trigger] post.binds(m) by {
            lemma_assigned_below(pre.assignments, m.cell, s);
        }
        lemma_cell_value_push(pre.assignments, x0, lhs);
        lemma_cell_value_push(a1, x1, lhs);
        lemma_cell_value_push(a2, x2, lhs);
        lemma_cell_value_push(a1, x1, rhs);
        lemma_cell_value_push(a2, x2, rhs);
        lemma_cell_value_push(a2, x2, out);
        let len = pre.assignments.len() as int;
        assert(a3[len] == x0 && a3[len + 1] == x1 && a3[len + 2] == x2);
        assert forall|i: int| 0 <= i < post.assignments.len() implies #[trigger]
            post.assignments[i].cell.row < post.next_row by {
            if i < len {
                assert(post.assignments[i] == pre.assignments[i]);
                assert(pre.assignments[i].cell.row < pre.next_row);
            } else {
                assert(post.assignments[i].cell.row <= s + 1);
            }
        }
        assert forall|i: int| 0 <= i < post.enabled.len() implies identity_holds(
            post.assignments,
            #[trigger] post.enabled[i],
        ) by {
            if i < pre.enabled.len() {
                let e = pre.enabled[i];
                assert(identity_holds(pre.assignments, e));
                let ge = e.gate;
                lemma_assigned_below(pre.assignments, Cell { column: ge.a, row: e.row }, s);
                lemma_assigned_below(pre.assignments, Cell { column: ge.b, row: e.row }, s);
                lemma_assigned_below(
                    pre.assignments,
                    Cell { column: ge.a, row: (e.row + 1) as usize },
                    s,
                );
            }
        }
        assert forall|i: int| 0 <= i < post.copies.len() implies {
            let cp = #[trigger] post.copies[i];
            cell_value(post.assignments, cp.left).is_some() && cell_value(
                post.assignments,
                cp.left,
            ) == cell_value(post.assignments, cp.right)
        } by {
            if i < pre.copies.len() {
                let cp = pre.copies[i];
                assert(post.copies[i] == cp);
                lemma_assigned_below(pre.assignments, cp.left, s);
                lemma_assigned_below(pre.assignments, cp.right, s);
            }
        }
        assert forall|i: int| 0 <= i < post.exposures.len() implies {
            let ex = #[trigger] post.exposures[i];
            cell_value(post.assignments, ex.cell) == Some(ex.value.val())
        } by {
            lemma_assigned_below(pre.assignments, pre.exposures[i].cell, s);
        }
    }
}

/// Loading a value keeps every constraint satisfied, keeps every bound
/// handle bound, and binds the new handle.
pub proof fn lemma_load_keeps_satisfied(
    col: Column,
    pre: LayoutView,
    value: FieldValue,
    post: LayoutView,
    r: Result<Number, Error>,
)
    requires
        pre.wf(),
        pre.satisfied(),
        value.wf(),
        load_outcome(col, pre, value, post, r),
    ensures
        post.satisfied(),
        forall|n: Number| pre.binds(n) ==> #[trigger] post.binds(n),
        r is Ok ==> post.binds(r->Ok_0),
{
    if r is Ok {
        let s = pre.next_row;
        let cell = Cell { column: col, row: s as usize };
        let x = Assignment { cell, value };
        lemma_rows_below_kept(pre.assignments, post.assignments, s);
        lemma_cell_value_push(pre.assignments, x, cell);
        assert forall|n: Number| pre.binds(n) implies #[trigger] post.binds(n) by {
            lemma_assigned_below(pre.assignments, n.cell, s);
        }
        assert(post.assignments[pre.assignments.len() as int] == x);
        assert forall|i: int| 0 <= i < post.assignments.len() implies #[trigger]
            post.assignments[i].cell.row < post.next_row by {
            if i < pre.assignments.len() {
                assert(post.assignments[i] == pre.assignments[i]);
                assert(pre.assignments[i].cell.row < pre.next_row);
            } else {
                assert(post.assignments[i].cell.row == s);
            }
        }
        assert forall|i: int| 0 <= i < post.enabled.len() implies identity_holds(
            post.assignments,
            #[trigger] post.enabled[i],
        ) by {
            let e = pre.enabled[i];
            assert(identity_holds(pre.assignments, e));
            let ge = e.gate;
            lemma_assigned_below(pre.assignments, Cell { column: ge.a, row: e.row }, s);
            lemma_assigned_below(pre.assignments, Cell { column: ge.b, row: e.row }, s);
            lemma_assigned_below(
                pre.assignments,
                Cell { column: ge.a, row: (e.row + 1) as usize },
                s,
            );
        }
        assert forall|i: int| 0 <= i < post.copies.len() implies {
            let cp = #[trigger] post.copies[i];
            cell_value(post.assignments, cp.left).is_some() && cell_value(
                post.assignments,
                cp.left,
            ) == cell_value(post.assignments, cp.right)
        } by {
            lemma_assigned_below(pre.assignments, pre.copies[i].left, s);
            lemma_assigned_below(pre.assignments, pre.copies[i].right, s);
        }
        assert forall|i: int| 0 <= i < post.exposures.len() implies {
            let ex = #[trigger] post.exposures[i];
            cell_value(post.assignments, ex.cell) == Some(ex.value.val())
        } by {
            lemma_assigned_below(pre.assignments, pre.exposures[i].cell, s);
        }
    }
}

/// Exposing a bound handle at a row that no earlier exposure binds to
/// another value keeps every constraint satisfied.
pub proof fn lemma_expose_keeps_satisfied(
    instance: Column,
    pre: LayoutView,
    num: Number,
    row: nat,
    post: LayoutView,
    r: Result<(), Error>,
)
    requires
        pre.wf(),
        pre.satisfied(),
        pre.binds(num),
        exposures_agree(pre.exposures, instance, row, num.value.repr@),
        expose_outcome(instance, pre, num, row, post, r),
    ensures
        post.satisfied(),
{
    if r is Ok {
        let ex = post.exposures;
        let last = pre.exposures.len() as int;
        assert(ex[last] == (Exposure { cell: num.cell, instance, row: row as usize, value: num.value }));
        assert forall|i: int| 0 <= i < ex.len() implies {
            let e = #[trigger] ex[i];
            cell_value(post.assignments, e.cell) == Some(e.value.val())
        } by {
            if i < last {
                assert(ex[i] == pre.exposures[i]);
            }
        }
        assert forall|i: int, j: int|
            0 <= i < ex.len() && 0 <= j < ex.len() && #[trigger] ex[i].instance
                == #[trigger] ex[j].instance && ex[i].row == ex[j].row implies ex[i].value.repr@
            == ex[j].value.repr@ by {
            if i < last {
                assert(ex[i] == pre.exposures[i]);
            }
            if j < last {
                assert(ex[j] == pre.exposures[j]);
            }
            if i < last && j == last {
                assert(exposed_at(pre.exposures, instance, row, i));
            }
            if j < last && i == last {
                assert(exposed_at(pre.exposures, instance, row, j));
            }
        }
    }
}

} // verus!
