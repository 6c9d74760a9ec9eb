//! The record of one synthesis. Regions are laid out one after another in
//! call order, so no two regions share a row; every cell, enabled selector,
//! copy constraint and public exposure is kept for the backend to replay.

use crate::circuit::{
    contains_column, Cell, Column, ConstraintSystem, Error, ErrorKind, GateConfig, RegionName,
};
use crate::field::FieldValue;
use crate::lemmas::{
    lemma_apply_keeps_satisfied, lemma_expose_keeps_satisfied, lemma_load_keeps_satisfied,
};
use vstd::prelude::*;

verus! {

/// A value handle: a field value and the cell that holds it.
#[derive(Clone, Copy, Debug)]
pub struct Number {
    pub cell: Cell,
    pub value: FieldValue,
}

/// A value written into a cell.
#[derive(Clone, Copy, Debug)]
pub struct Assignment {
    pub cell: Cell,
    pub value: FieldValue,
}

/// A gate's selector switched on at an absolute row.
#[derive(Clone, Copy, Debug, PartialEq, Eq, Structural)]
pub struct EnabledSelector {
    pub gate: GateConfig,
    pub row: usize,
}

/// An equality constraint between two cells.
#[derive(Clone, Copy, Debug, PartialEq, Eq, Structural)]
pub struct CopyConstraint {
    pub left: Cell,
    pub right: Cell,
}

/// A cell constrained to equal a row of the instance column.
#[derive(Clone, Copy, Debug)]
pub struct Exposure {
    pub cell: Cell,
    pub instance: Column,
    pub row: usize,
    pub value: FieldValue,
}

/// The mathematical content of a `Layouter`.
pub struct LayoutView {
    pub usable_rows: nat,
    pub next_row: nat,
    pub equality: Seq<Column>,
    pub assignments: Seq<Assignment>,
    pub enabled: Seq<EnabledSelector>,
    pub copies: Seq<CopyConstraint>,
    pub exposures: Seq<Exposure>,
}

impl LayoutView {
    /// The row counts are those of a `Layouter`: they fit in a `usize`.
    pub open spec fn wf(&self) -> bool {
        self.usable_rows <= usize::MAX && self.next_row <= usize::MAX
    }
}

/// The value last written into cell `c`, if any.
pub open spec fn cell_value(assignments: Seq<Assignment>, c: Cell) -> Option<int>
    decreases assignments.len(),
{
    if assignments.len() == 0 {
        None
    } else if assignments.last().cell == c {
        Some(assignments.last().value.val())
    } else {
        cell_value(assignments.drop_last(), c)
    }
}

/// The identity of `e`'s gate holds at `e`'s row:
/// `f_op(a[row], b[row]) == a[row + 1]`, all three cells assigned.
pub open spec fn identity_holds(assignments: Seq<Assignment>, e: EnabledSelector) -> bool {
    let g = e.gate;
    let x = cell_value(assignments, Cell { column: g.a, row: e.row });
    let y = cell_value(assignments, Cell { column: g.b, row: e.row });
    let z = cell_value(assignments, Cell { column: g.a, row: (e.row + 1) as usize });
    &&& x.is_some()
    &&& y.is_some()
    &&& z.is_some()
    &&& z.unwrap() == g.op.eval(x.unwrap(), y.unwrap())
}

impl LayoutView {
    /// The handle `n` is bound here: its cell holds its value.
    pub open spec fn binds(&self, n: Number) -> bool {
        n.value.wf() && cell_value(self.assignments, n.cell) == Some(n.value.val())
    }

    /// Every constraint recorded holds of the values assigned: each enabled
    /// gate identity, each copy constraint, each exposure, and no two
    /// exposures of one instance row disagree; and every cell written lies
    /// above the next free row.
    pub open spec fn satisfied(&self) -> bool {
        &&& forall|i: int|
            0 <= i < self.assignments.len() ==> #[trigger] self.assignments[i].cell.row
                < self.next_row
        &&& forall|i: int|
            0 <= i < self.enabled.len() ==> identity_holds(
                self.assignments,
                #[trigger] self.enabled[i],
            )
        &&& forall|i: int|
            0 <= i < self.copies.len() ==> {
                let cp = #[trigger] self.copies[i];
                cell_value(self.assignments, cp.left).is_some() && cell_value(
                    self.assignments,
                    cp.left,
                ) == cell_value(self.assignments, cp.right)
            }
        &&& forall|i: int|
            0 <= i < self.exposures.len() ==> {
                let ex = #[trigger] self.exposures[i];
                cell_value(self.assignments, ex.cell) == Some(ex.value.val())
            }
        &&& forall|i: int, j: int|
            0 <= i < self.exposures.len() && 0 <= j < self.exposures.len()
                && #[trigger] self.exposures[i].instance == #[trigger] self.exposures[j].instance
                && self.exposures[i].row == self.exposures[j].row ==> self.exposures[i].value.repr@
                == self.exposures[j].value.repr@
    }
}

/// The synthesis record.
pub struct Layouter {
    pub usable_rows: usize,
    pub next_row: usize,
    pub equality: Vec<Column>,
    pub assignments: Vec<Assignment>,
    pub enabled: Vec<EnabledSelector>,
    pub copies: Vec<CopyConstraint>,
    pub exposures: Vec<Exposure>,
}

/// The column at fault when a copy between `left` and `right` is asked for,
/// if any: the left one is looked at first.
pub open spec fn copy_fault(equality: Seq<Column>, left: Column, right: Column) -> Option<Column> {
    if !equality.contains(left) {
        Some(left)
    } else if !equality.contains(right) {
        Some(right)
    } else {
        None
    }
}

/// The error a copy from cell `left` into a cell of column `right` at a row
/// already known to be usable runs into, if any: the row of `left` is
/// looked at first, then the two columns.
pub open spec fn copy_error(
    pre: LayoutView,
    left: Cell,
    right: Column,
    region: RegionName,
) -> Option<Error> {
    if left.row >= pre.usable_rows {
        Some(
            Error { kind: ErrorKind::NotEnoughRowsAvailable, region, column: left.column, offset: 0 },
        )
    } else if copy_fault(pre.equality, left.column, right).is_some() {
        Some(
            Error {
                kind: ErrorKind::ColumnNotInPermutation,
                region,
                column: copy_fault(pre.equality, left.column, right).unwrap(),
                offset: 0,
            },
        )
    } else {
        None
    }
}

/// Exposure `i` binds row `row` of column `instance`.
pub open spec fn exposed_at(exposures: Seq<Exposure>, instance: Column, row: nat, i: int) -> bool {
    0 <= i < exposures.len() && exposures[i].instance == instance && exposures[i].row == row
}

/// Every exposure at row `row` of `instance` carries the encoding `repr`.
pub open spec fn exposures_agree(
    exposures: Seq<Exposure>,
    instance: Column,
    row: nat,
    repr: Seq<u8>,
) -> bool {
    forall|j: int| #[trigger]
        exposed_at(exposures, instance, row, j) ==> exposures[j].value.repr@ == repr
}

/// The value row `row` of `instance` must hold: defined when at least one
/// exposure binds that row and all such exposures agree; when two disagree
/// no value of the instance column satisfies the circuit.
pub open spec fn instance_value(exposures: Seq<Exposure>, instance: Column, row: nat) -> Option<
    int,
> {
    if exists|i: int| exposed_at(exposures, instance, row, i) {
        let i = choose|i: int| exposed_at(exposures, instance, row, i);
        if exposures_agree(exposures, instance, row, exposures[i].value.repr@) {
            Some(exposures[i].value.val())
        } else {
            None
        }
    } else {
        None
    }
}

/// What applying gate `g` to `a` and `b` does: a two-row region at the next
/// free row, the selector on at its first row, `a` and `b` copied there, and
/// the result one row below `a`'s copy. The steps run in that order and the
/// first that fails gives the error; on failure synthesis stops and the
/// record is left as it was.
pub open spec fn gate_outcome(
    g: GateConfig,
    pre: LayoutView,
    a: Number,
    b: Number,
    post: LayoutView,
    r: Result<Number, Error>,
) -> bool {
    let s = pre.next_row;
    let region = g.op.region_spec();
    if s >= pre.usable_rows {
        post == pre && r == Err::<Number, Error>(
            Error { kind: ErrorKind::NotEnoughRowsAvailable, region, column: g.a, offset: 0 },
        )
    } else if copy_error(pre, a.cell, g.a, region).is_some() {
        post == pre && r == Err::<Number, Error>(copy_error(pre, a.cell, g.a, region).unwrap())
    } else if copy_error(pre, b.cell, g.b, region).is_some() {
        post == pre && r == Err::<Number, Error>(copy_error(pre, b.cell, g.b, region).unwrap())
    } else if s + 1 >= pre.usable_rows {
        post == pre && r == Err::<Number, Error>(
            Error { kind: ErrorKind::NotEnoughRowsAvailable, region, column: g.a, offset: 1 },
        )
    } else {
        let lhs = Cell { column: g.a, row: s as usize };
        let rhs = Cell { column: g.b, row: s as usize };
        let out = Cell { column: g.a, row: (s + 1) as usize };
        r is Ok && r->Ok_0.cell == out && r->Ok_0.value.wf() && r->Ok_0.value.val() == g.op.eval(
            a.value.val(),
            b.value.val(),
        ) && post == (LayoutView {
            next_row: s + 2,
            assignments: pre.assignments + seq![
                Assignment { cell: lhs, value: a.value },
                Assignment { cell: rhs, value: b.value },
                Assignment { cell: out, value: r->Ok_0.value },
            ],
            enabled: pre.enabled.push(EnabledSelector { gate: g, row: s as usize }),
            copies: pre.copies + seq![
                CopyConstraint { left: a.cell, right: lhs },
                CopyConstraint { left: b.cell, right: rhs },
            ],
            ..pre
        })
    }
}

/// What loading `value` into column `a` does: a one-row region at the next
/// free row holding it, with no constraint.
pub open spec fn load_outcome(
    a: Column,
    pre: LayoutView,
    value: FieldValue,
    post: LayoutView,
    r: Result<Number, Error>,
) -> bool {
    let s = pre.next_row;
    if s + 1 > pre.usable_rows {
        post == pre && r == Err::<Number, Error>(
            Error {
                kind: ErrorKind::NotEnoughRowsAvailable,
                region: RegionName::LoadPrivate,
                column: a,
                offset: 0,
            },
        )
    } else {
        let cell = Cell { column: a, row: s as usize };
        r == Ok::<Number, Error>(Number { cell, value }) && post == (LayoutView {
            next_row: s + 1,
            assignments: pre.assignments.push(Assignment { cell, value }),
            ..pre
        })
    }
}

/// What binding `num` to row `row` of column `instance` does: one exposure is
/// recorded, and no cell is written.
pub open spec fn expose_outcome(
    instance: Column,
    pre: LayoutView,
    num: Number,
    row: nat,
    post: LayoutView,
    r: Result<(), Error>,
) -> bool {
    if num.cell.row >= pre.usable_rows {
        post == pre && r == Err::<(), Error>(
            Error {
                kind: ErrorKind::NotEnoughRowsAvailable,
                region: RegionName::ExposePublic,
                column: num.cell.column,
                offset: 0,
            },
        )
    } else if row >= pre.usable_rows {
        post == pre && r == Err::<(), Error>(
            Error {
                kind: ErrorKind::NotEnoughRowsAvailable,
                region: RegionName::ExposePublic,
                column: instance,
                offset: 0,
            },
        )
    } else if copy_fault(pre.equality, num.cell.column, instance).is_some() {
        post == pre && r == Err::<(), Error>(
            Error {
                kind: ErrorKind::ColumnNotInPermutation,
                region: RegionName::ExposePublic,
                column: copy_fault(pre.equality, num.cell.column, instance).unwrap(),
                offset: 0,
            },
        )
    } else {
        r is Ok && post == (LayoutView {
            exposures: pre.exposures.push(
                Exposure { cell: num.cell, instance, row: row as usize, value: num.value },
            ),
            ..pre
        })
    }
}

impl Layouter {
    pub open spec fn view(&self) -> LayoutView {
        LayoutView {
            usable_rows: self.usable_rows as nat,
            next_row: self.next_row as nat,
            equality: self.equality@,
            assignments: self.assignments@,
            enabled: self.enabled@,
            copies: self.copies@,
            exposures: self.exposures@,
        }
    }

    /// A fresh synthesis over `cs` with `usable_rows` rows, nothing assigned.
    pub fn new(cs: &ConstraintSystem, usable_rows: usize) -> (r: Layouter)
        ensures
            r.view() == (LayoutView {
                usable_rows: usable_rows as nat,
                next_row: 0,
                equality: cs.equality@,
                assignments: Seq::empty(),
                enabled: Seq::empty(),
                copies: Seq::empty(),
                exposures: Seq::empty(),
            }),
            r.view().satisfied(),
    {
        let mut equality: Vec<Column> = Vec::new();
        let mut i: usize = 0;
        while i < cs.equality.len()
            invariant
                i <= cs.equality@.len(),
                equality@ == cs.equality@.subrange(0, i as int),
            decreases cs.equality@.len() - i,
        {
            equality.push(cs.equality[i]);
            i = i + 1;
        }
        assert(equality@ == cs.equality@);
        Layouter {
            usable_rows,
            next_row: 0,
            equality,
            assignments: Vec::new(),
            enabled: Vec::new(),
            copies: Vec::new(),
            exposures: Vec::new(),
        }
    }

    /// The error a copy from `left` into column `right` runs into, if any.
    fn copy_check(&self, left: Cell, right: Column, region: RegionName) -> (r: Option<Error>)
        ensures
            r == copy_error(self.view(), left, right, region),
    {
        if left.row >= self.usable_rows {
            Some(
                Error {
                    kind: ErrorKind::NotEnoughRowsAvailable,
                    region,
                    column: left.column,
                    offset: 0,
                },
            )
        } else if !contains_column(&self.equality, left.column) {
            Some(
                Error {
                    kind: ErrorKind::ColumnNotInPermutation,
                    region,
                    column: left.column,
                    offset: 0,
                },
            )
        } else if !contains_column(&self.equality, right) {
            Some(
                Error { kind: ErrorKind::ColumnNotInPermutation, region, column: right, offset: 0 },
            )
        } else {
            None
        }
    }

    /// Applies gate `g` to `a` and `b` in a fresh region. Bound handles in a
    /// satisfied record give a satisfied record and a bound result.
    pub fn apply_gate(&mut self, g: &GateConfig, a: &Number, b: &Number) -> (r: Result<
        Number,
        Error,
    >)
        requires
            a.value.wf(),
            b.value.wf(),
        ensures
            gate_outcome(*g, old(self).view(), *a, *b, final(self).view(), r),
            ({
                let pre = old(self).view();
                let post = final(self).view();
                pre.satisfied() && pre.binds(*a) && pre.binds(*b) && g.a != g.b
                    ==> post.satisfied() && (r is Ok ==> post.binds(r->Ok_0)) && (forall|n: Number|
                        pre.binds(n) ==> #[trigger] post.binds(n))
            }),
    {
        let ghost pre = self.view();
        let r = self.place_gate(g, a, b);
        proof {
            if pre.satisfied() && pre.binds(*a) && pre.binds(*b) && g.a != g.b {
                lemma_apply_keeps_satisfied(*g, pre, *a, *b, self.view(), r);
            }
        }
        r
    }

    fn place_gate(&mut self, g: &GateConfig, a: &Number, b: &Number) -> (r: Result<
        Number,
        Error,
    >)
        requires
            a.value.wf(),
            b.value.wf(),
        ensures
            gate_outcome(*g, old(self).view(), *a, *b, final(self).view(), r),
    {
        let ghost pre = self.view();
        let region = g.op.region();
        if self.next_row >= self.usable_rows {
            return Err(
                Error { kind: ErrorKind::NotEnoughRowsAvailable, region, column: g.a, offset: 0 },
            );
        }
        match self.copy_check(a.cell, g.a, region) {
            Some(e) => {
                return Err(e);
            },
            None => {},
        }
        match self.copy_check(b.cell, g.b, region) {
            Some(e) => {
                return Err(e);
            },
            None => {},
        }
        if self.usable_rows - self.next_row < 2 {
            return Err(
                Error { kind: ErrorKind::NotEnoughRowsAvailable, region, column: g.a, offset: 1 },
            );
        }
        let s = self.next_row;
        let lhs = Cell { column: g.a, row: s };
        let rhs = Cell { column: g.b, row: s };
        let out = Cell { column: g.a, row: s + 1 };
        let c = g.op.apply(&a.value, &b.value);
        self.enabled.push(EnabledSelector { gate: *g, row: s });
        self.assignments.push(Assignment { cell: lhs, value: a.value });
        self.copies.push(CopyConstraint { left: a.cell, right: lhs });
        self.assignments.push(Assignment { cell: rhs, value: b.value });
        self.copies.push(CopyConstraint { left: b.cell, right: rhs });
        self.assignments.push(Assignment { cell: out, value: c });
        self.next_row = s + 2;
        assert(self.assignments@ == pre.assignments + seq![
            Assignment { cell: lhs, value: a.value },
            Assignment { cell: rhs, value: b.value },
            Assignment { cell: out, value: c },
        ]);
        assert(self.copies@ == pre.copies + seq![
            CopyConstraint { left: a.cell, right: lhs },
            CopyConstraint { left: b.cell, right: rhs },
        ]);
        Ok(Number { cell: out, value: c })
    }

    /// Writes `value` into column `a` in a fresh one-row region. A satisfied
    /// record stays satisfied, and the new handle is bound.
    pub fn load(&mut self, a: Column, value: FieldValue) -> (r: Result<Number, Error>)
        ensures
            load_outcome(a, old(self).view(), value, final(self).view(), r),
            ({
                let pre = old(self).view();
                let post = final(self).view();
                pre.satisfied() && value.wf() ==> post.satisfied() && (r is Ok ==> post.binds(
                    r->Ok_0,
                )) && (forall|n: Number| pre.binds(n) ==> #[trigger] post.binds(n))
            }),
    {
        let ghost pre = self.view();
        let r = self.place_value(a, value);
        proof {
            if pre.satisfied() && value.wf() {
                lemma_load_keeps_satisfied(a, pre, value, self.view(), r);
            }
        }
        r
    }

    fn place_value(&mut self, a: Column, value: FieldValue) -> (r: Result<Number, Error>)
        ensures
            load_outcome(a, old(self).view(), value, final(self).view(), r),
    {
        if self.next_row >= self.usable_rows {
            return Err(
                Error {
                    kind: ErrorKind::NotEnoughRowsAvailable,
                    region: RegionName::LoadPrivate,
                    column: a,
                    offset: 0,
                },
            );
        }
        let cell = Cell { column: a, row: self.next_row };
        self.assignments.push(Assignment { cell, value });
        self.next_row = self.next_row + 1;
        Ok(Number { cell, value })
    }

    /// Constrains `num`'s cell to equal row `row` of column `instance`.
    pub fn constrain_instance(&mut self, num: &Number, instance: Column, row: usize) -> (r: Result<
        (),
        Error,
    >)
        ensures
            expose_outcome(instance, old(self).view(), *num, row as nat, final(self).view(), r),
            ({
                let pre = old(self).view();
                pre.satisfied() && pre.binds(*num) && exposures_agree(
                    pre.exposures,
                    instance,
                    row as nat,
                    num.value.repr@,
                ) ==> final(self).view().satisfied()
            }),
    {
        let ghost pre = self.view();
        let r = self.place_exposure(num, instance, row);
        proof {
            if pre.satisfied() && pre.binds(*num) && exposures_agree(
                pre.exposures,
                instance,
                row as nat,
                num.value.repr@,
            ) {
                lemma_expose_keeps_satisfied(instance, pre, *num, row as nat, self.view(), r);
            }
        }
        r
    }

    fn place_exposure(&mut self, num: &Number, instance: Column, row: usize) -> (r: Result<
        (),
        Error,
    >)
        ensures
            expose_outcome(instance, old(self).view(), *num, row as nat, final(self).view(), r),
    {
        if num.cell.row >= self.usable_rows {
            return Err(
                Error {
                    kind: ErrorKind::NotEnoughRowsAvailable,
                    region: RegionName::ExposePublic,
                    column: num.cell.column,
                    offset: 0,
                },
            );
        }
        if row >= self.usable_rows {
            return Err(
                Error {
                    kind: ErrorKind::NotEnoughRowsAvailable,
                    region: RegionName::ExposePublic,
                    column: instance,
                    offset: 0,
                },
            );
        }
        match self.copy_check(num.cell, instance, RegionName::ExposePublic) {
            Some(e) => {
                return Err(e);
            },
            None => {},
        }
        self.exposures.push(Exposure { cell: num.cell, instance, row, value: num.value });
        Ok(())
    }

    /// Reads row `row` of column `instance` as the exposures bind it: the
    /// value they all carry, or `None` when none binds the row or two
    /// disagree.
    pub fn instance_at(&self, instance: Column, row: usize) -> (r: Option<FieldValue>)
        ensures
            r.is_some() == instance_value(self.exposures@, instance, row as nat).is_some(),
            r.is_some() ==> r.unwrap().val() == instance_value(
                self.exposures@,
                instance,
                row as nat,
            ).unwrap(),
    {
        let ghost ex = self.exposures@;
        let ghost mut w: int = 0;
        let mut found: Option<FieldValue> = None;
        let mut i: usize = 0;
        while i < self.exposures.len()
            invariant
                i <= ex.len(),
                ex == self.exposures@,
                found.is_none() ==> forall|j: int|
                    0 <= j < i ==> !#[trigger] exposed_at(ex, instance, row as nat, j),
                found.is_some() ==> 0 <= w < i && exposed_at(ex, instance, row as nat, w)
                    && ex[w].value.repr@ == found.unwrap().repr@,
                found.is_some() ==> forall|j: int|
                    0 <= j < i && #[trigger] exposed_at(ex, instance, row as nat, j)
                        ==> ex[j].value.repr@ == found.unwrap().repr@,
            decreases ex.len() - i,
        {
            let e = self.exposures[i];
            if e.instance == instance && e.row == row {
                assert(exposed_at(ex, instance, row as nat, i as int));
                match found {
                    None => {
                        found = Some(e.value);
                        proof {
                            w = i as int;
                        }
                    },
                    Some(v) => {
                        if !v.same_repr(&e.value) {
                            proof {
                                let c = choose|c: int| exposed_at(ex, instance, row as nat, c);
                                if exposures_agree(ex, instance, row as nat, ex[c].value.repr@) {
                                    assert(exposed_at(ex, instance, row as nat, w));
                                    assert(exposed_at(ex, instance, row as nat, i as int));
                                }
                            }
                            return None;
                        }
                    },
                }
            }
            i = i + 1;
        }
        proof {
            if found.is_some() {
                let c = choose|c: int| exposed_at(ex, instance, row as nat, c);
                assert(exposed_at(ex, instance, row as nat, w));
                assert(ex[c].value.repr@ == found.unwrap().repr@);
                assert(exposures_agree(ex, instance, row as nat, ex[c].value.repr@));
            }
        }
        found
    }
}

} // verus!
