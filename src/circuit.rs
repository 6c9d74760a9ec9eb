//! The circuit model: columns, cells, selectors, gate identities, the
//! constraint system built at configuration time, and the record of a
//! synthesis (regions laid out in call order, cell assignments, enabled
//! selectors, copy constraints and public exposures).

use crate::field::{field_add, field_mul, field_sub, FieldValue};
use vstd::prelude::*;

verus! {

/// The role of a column.
#[derive(Clone, Copy, Debug, PartialEq, Eq, Hash, Structural)]
pub enum ColumnKind {
    /// Private or intermediate storage.
    Advice,
    /// Public inputs and outputs.
    Instance,
}

/// A column handle: its role and its index among the columns of that role.
#[derive(Clone, Copy, Debug, PartialEq, Eq, Hash, Structural)]
pub struct Column {
    pub kind: ColumnKind,
    pub index: usize,
}

/// A cell: a column and an absolute row.
#[derive(Clone, Copy, Debug, PartialEq, Eq, Hash, Structural)]
pub struct Cell {
    pub column: Column,
    pub row: usize,
}

/// A per-row toggle that switches a gate identity on.
#[derive(Clone, Copy, Debug, PartialEq, Eq, Structural)]
pub struct Selector {
    pub index: usize,
}

/// The operation a gate enforces.
#[derive(Clone, Copy, Debug, PartialEq, Eq, Structural)]
pub enum Operation {
    Add,
    Sub,
    Mul,
}

impl Operation {
    /// `f_op(a, b)` over the field.
    pub open spec fn eval(self, a: int, b: int) -> int {
        match self {
            Operation::Add => field_add(a, b),
            Operation::Sub => field_sub(a, b),
            Operation::Mul => field_mul(a, b),
        }
    }

    /// The name of the region in which a gate for this operation works.
    pub open spec fn region_spec(self) -> RegionName {
        match self {
            Operation::Add => RegionName::Add,
            Operation::Sub => RegionName::Sub,
            Operation::Mul => RegionName::Mul,
        }
    }

    /// Computes `f_op(a, b)`.
    pub fn apply(&self, a: &FieldValue, b: &FieldValue) -> (r: FieldValue)
        requires
            a.wf(),
            b.wf(),
        ensures
            r.wf(),
            r.val() == self.eval(a.val(), b.val()),
    {
        match self {
            Operation::Add => a.add(b),
            Operation::Sub => a.sub(b),
            Operation::Mul => a.mul(b),
        }
    }

    pub fn region(&self) -> (r: RegionName)
        ensures
            r == self.region_spec(),
    {
        match self {
            Operation::Add => RegionName::Add,
            Operation::Sub => RegionName::Sub,
            Operation::Mul => RegionName::Mul,
        }
    }
}

/// The configuration of one operation gate: the identity
/// `selector * (f_op(a[0], b[0]) - a[1]) = 0`, where `[0]` is the row the
/// selector is enabled at and `[1]` the row after it.
#[derive(Clone, Copy, Debug, PartialEq, Eq, Structural)]
pub struct GateConfig {
    pub a: Column,
    pub b: Column,
    pub selector: Selector,
    pub op: Operation,
}

/// The name of a region, carried by errors.
#[derive(Clone, Copy, Debug, PartialEq, Eq, Structural)]
pub enum RegionName {
    LoadPrivate,
    Add,
    Sub,
    Mul,
    ExposePublic,
}

/// What went wrong during synthesis.
#[derive(Clone, Copy, Debug, PartialEq, Eq, Structural)]
pub enum ErrorKind {
    /// A copy constraint names a column on which equality was not enabled.
    ColumnNotInPermutation,
    /// A cell lies beyond the usable rows of the circuit.
    NotEnoughRowsAvailable,
}

/// A synthesis error with its context: the region, the column and the row
/// offset within the region.
#[derive(Clone, Copy, Debug, PartialEq, Eq, Structural)]
pub struct Error {
    pub kind: ErrorKind,
    pub region: RegionName,
    pub column: Column,
    pub offset: usize,
}

/// The constraint system as configured: column counts, the columns with
/// equality enabled (each once) and the registered gates.
#[derive(Clone, Debug)]
pub struct ConstraintSystem {
    pub num_advice: usize,
    pub num_instance: usize,
    pub num_selectors: usize,
    pub equality: Vec<Column>,
    pub gates: Vec<GateConfig>,
}

impl ConstraintSystem {
    /// An empty constraint system.
    pub fn new() -> (r: ConstraintSystem)
        ensures
            r.num_advice == 0,
            r.num_instance == 0,
            r.num_selectors == 0,
            r.equality@ == Seq::<Column>::empty(),
            r.gates@ == Seq::<GateConfig>::empty(),
    {
        ConstraintSystem {
            num_advice: 0,
            num_instance: 0,
            num_selectors: 0,
            equality: Vec::new(),
            gates: Vec::new(),
        }
    }

    /// Allocates a fresh advice column.
    pub fn advice_column(&mut self) -> (r: Column)
        requires
            old(self).num_advice < usize::MAX,
        ensures
            r == (Column { kind: ColumnKind::Advice, index: old(self).num_advice }),
            final(self).num_advice == old(self).num_advice + 1,
            final(self).num_instance == old(self).num_instance,
            final(self).num_selectors == old(self).num_selectors,
            final(self).equality@ == old(self).equality@,
            final(self).gates@ == old(self).gates@,
    {
        let r = Column { kind: ColumnKind::Advice, index: self.num_advice };
        self.num_advice = self.num_advice + 1;
        r
    }

    /// Allocates a fresh instance column.
    pub fn instance_column(&mut self) -> (r: Column)
        requires
            old(self).num_instance < usize::MAX,
        ensures
            r == (Column { kind: ColumnKind::Instance, index: old(self).num_instance }),
            final(self).num_advice == old(self).num_advice,
            final(self).num_instance == old(self).num_instance + 1,
            final(self).num_selectors == old(self).num_selectors,
            final(self).equality@ == old(self).equality@,
            final(self).gates@ == old(self).gates@,
    {
        let r = Column { kind: ColumnKind::Instance, index: self.num_instance };
        self.num_instance = self.num_instance + 1;
        r
    }

    /// Allocates a fresh selector.
    pub fn selector(&mut self) -> (r: Selector)
        requires
            old(self).num_selectors < usize::MAX,
        ensures
            r == (Selector { index: old(self).num_selectors }),
            final(self).num_advice == old(self).num_advice,
            final(self).num_instance == old(self).num_instance,
            final(self).num_selectors == old(self).num_selectors + 1,
            final(self).equality@ == old(self).equality@,
            final(self).gates@ == old(self).gates@,
    {
        let r = Selector { index: self.num_selectors };
        self.num_selectors = self.num_selectors + 1;
        r
    }

    /// Whether equality is enabled on `column`.
    pub fn has_equality(&self, column: Column) -> (r: bool)
        ensures
            r == self.equality@.contains(column),
    {
        contains_column(&self.equality, column)
    }

    /// Enables equality on `column`; a column already enabled is left as is.
    pub fn enable_equality(&mut self, column: Column)
        ensures
            final(self).equality@ == enable_in(old(self).equality@, column),
            final(self).num_advice == old(self).num_advice,
            final(self).num_instance == old(self).num_instance,
            final(self).num_selectors == old(self).num_selectors,
            final(self).gates@ == old(self).gates@,
    {
        if !contains_column(&self.equality, column) {
            self.equality.push(column);
        }
    }

    /// Registers a gate identity.
    pub fn create_gate(&mut self, gate: GateConfig)
        ensures
            final(self).gates@ == old(self).gates@.push(gate),
            final(self).equality@ == old(self).equality@,
            final(self).num_advice == old(self).num_advice,
            final(self).num_instance == old(self).num_instance,
            final(self).num_selectors == old(self).num_selectors,
    {
        self.gates.push(gate);
    }
}

/// The equality list after enabling `column`.
pub open spec fn enable_in(cols: Seq<Column>, column: Column) -> Seq<Column> {
    if cols.contains(column) {
        cols
    } else {
        cols.push(column)
    }
}

/// Enabling `column` adds exactly `column` to the enabled ones.
pub proof fn lemma_enable_contains(cols: Seq<Column>, column: Column, c: Column)
    ensures
        enable_in(cols, column).contains(c) <==> (cols.contains(c) || c == column),
{
    if !cols.contains(column) {
        let p = cols.push(column);
        if cols.contains(c) {
            let i = choose|i: int| 0 <= i < cols.len() && cols[i] == c;
            assert(p[i] == c);
        }
        if p.contains(c) && c != column {
            let i = choose|i: int| 0 <= i < p.len() && p[i] == c;
            assert(cols[i] == c);
        }
        assert(p[cols.len() as int] == column);
    }
}

/// Whether `cols` holds `column`.
pub fn contains_column(cols: &Vec<Column>, column: Column) -> (r: bool)
    ensures
        r == cols@.contains(column),
{
    let mut i: usize = 0;
    while i < cols.len()
        invariant
            i <= cols@.len(),
            forall|j: int| 0 <= j < i ==> cols@[j] != column,
        decreases cols@.len() - i,
    {
        if cols[i] == column {
            return true;
        }
        i = i + 1;
    }
    false
}

} // verus!
