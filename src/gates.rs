//! The three operation gates. They share one builder, parameterized by the
//! operation; each chip fixes the operation and carries the configuration.

use crate::circuit::{enable_in, Column, ConstraintSystem, Error, GateConfig, Operation, Selector};
use crate::field::{field_add, field_mul, field_sub};
use crate::layouter::{gate_outcome, Layouter, Number};
use vstd::prelude::*;

verus! {

/// The configuration of the addition gate.
pub type AddConfig = GateConfig;

/// The configuration of the subtraction gate.
pub type SubConfig = GateConfig;

/// The configuration of the multiplication gate.
pub type MulConfig = GateConfig;

/// Configures a gate for `op` over columns `a` and `b`: enables equality on
/// both, allocates a fresh selector and registers
/// `selector * (f_op(a[0], b[0]) - a[1]) = 0`.
pub fn configure_gate(meta: &mut ConstraintSystem, a: Column, b: Column, op: Operation) -> (r:
    GateConfig)
    requires
        old(meta).num_selectors < usize::MAX,
    ensures
        r == (GateConfig { a, b, selector: Selector { index: old(meta).num_selectors }, op }),
        final(meta).equality@ == enable_in(enable_in(old(meta).equality@, a), b),
        final(meta).gates@ == old(meta).gates@.push(r),
        final(meta).num_selectors == old(meta).num_selectors + 1,
        final(meta).num_advice == old(meta).num_advice,
        final(meta).num_instance == old(meta).num_instance,
{
    meta.enable_equality(a);
    meta.enable_equality(b);
    let selector = meta.selector();
    let r = GateConfig { a, b, selector, op };
    meta.create_gate(r);
    r
}

/// Addition instructions.
pub trait AddInstructions {
    /// The configuration that `add` works with.
    spec fn add_gate(&self) -> GateConfig;

    /// Applies the addition gate to `a` and `b` in a fresh region.
    fn add(&self, layouter: &mut Layouter, a: Number, b: Number) -> (r: Result<Number, Error>)
        requires
            a.value.wf(),
            b.value.wf(),
        ensures
            self.add_gate().op == Operation::Add,
            gate_outcome(self.add_gate(), old(layouter).view(), a, b, final(layouter).view(), r),
            r is Ok ==> r->Ok_0.value.val() == field_add(a.value.val(), b.value.val()),
            ({
                let pre = old(layouter).view();
                let post = final(layouter).view();
                pre.satisfied() && pre.binds(a) && pre.binds(b) && self.add_gate().a != self.add_gate().b
                    ==> post.satisfied() && (r is Ok ==> post.binds(r->Ok_0)) && (forall|n: Number|
                        pre.binds(n) ==> #[trigger] post.binds(n))
            }),
    ;
}

/// Subtraction instructions.
pub trait SubInstructions {
    /// The configuration that `sub` works with.
    spec fn sub_gate(&self) -> GateConfig;

    /// Applies the subtraction gate to `a` and `b` in a fresh region.
    fn sub(&self, layouter: &mut Layouter, a: Number, b: Number) -> (r: Result<Number, Error>)
        requires
            a.value.wf(),
            b.value.wf(),
        ensures
            self.sub_gate().op == Operation::Sub,
            gate_outcome(self.sub_gate(), old(layouter).view(), a, b, final(layouter).view(), r),
            r is Ok ==> r->Ok_0.value.val() == field_sub(a.value.val(), b.value.val()),
            ({
                let pre = old(layouter).view();
                let post = final(layouter).view();
                pre.satisfied() && pre.binds(a) && pre.binds(b) && self.sub_gate().a != self.sub_gate().b
                    ==> post.satisfied() && (r is Ok ==> post.binds(r->Ok_0)) && (forall|n: Number|
                        pre.binds(n) ==> #[trigger] post.binds(n))
            }),
    ;
}

/// Multiplication instructions.
pub trait MulInstructions {
    /// The configuration that `mul` works with.
    spec fn mul_gate(&self) -> GateConfig;

    /// Applies the multiplication gate to `a` and `b` in a fresh region.
    fn mul(&self, layouter: &mut Layouter, a: Number, b: Number) -> (r: Result<Number, Error>)
        requires
            a.value.wf(),
            b.value.wf(),
        ensures
            self.mul_gate().op == Operation::Mul,
            gate_outcome(self.mul_gate(), old(layouter).view(), a, b, final(layouter).view(), r),
            r is Ok ==> r->Ok_0.value.val() == field_mul(a.value.val(), b.value.val()),
            ({
                let pre = old(layouter).view();
                let post = final(layouter).view();
                pre.satisfied() && pre.binds(a) && pre.binds(b) && self.mul_gate().a != self.mul_gate().b
                    ==> post.satisfied() && (r is Ok ==> post.binds(r->Ok_0)) && (forall|n: Number|
                        pre.binds(n) ==> #[trigger] post.binds(n))
            }),
    ;
}

/// The addition chip.
pub struct AddChip {
    config: AddConfig,
}

impl AddChip {
    #[verifier::type_invariant]
    spec fn inv(&self) -> bool {
        self.config.op == Operation::Add
    }

    /// The configuration the chip was built from.
    pub closed spec fn gate(&self) -> GateConfig {
        self.config
    }

    pub fn construct(config: AddConfig, _loaded: ()) -> (r: AddChip)
        requires
            config.op == Operation::Add,
        ensures
            r.gate() == config,
    {
        AddChip { config }
    }

    /// Configures the addition gate over `a` and `b`.
    pub fn configure(meta: &mut ConstraintSystem, a: Column, b: Column) -> (r: AddConfig)
        requires
            old(meta).num_selectors < usize::MAX,
        ensures
            r == (GateConfig {
                a,
                b,
                selector: Selector { index: old(meta).num_selectors },
                op: Operation::Add,
            }),
            final(meta).equality@ == enable_in(enable_in(old(meta).equality@, a), b),
            final(meta).gates@ == old(meta).gates@.push(r),
            final(meta).num_selectors == old(meta).num_selectors + 1,
            final(meta).num_advice == old(meta).num_advice,
            final(meta).num_instance == old(meta).num_instance,
    {
        configure_gate(meta, a, b, Operation::Add)
    }

    pub fn config(&self) -> (r: &AddConfig)
        ensures
            *r == self.gate(),
    {
        &self.config
    }
}

impl AddInstructions for AddChip {
    open spec fn add_gate(&self) -> GateConfig {
        self.gate()
    }

    fn add(&self, layouter: &mut Layouter, a: Number, b: Number) -> (r: Result<Number, Error>) {
        proof {
            use_type_invariant(self);
        }
        layouter.apply_gate(&self.config, &a, &b)
    }
}

/// The subtraction chip.
pub struct SubChip {
    config: SubConfig,
}

impl SubChip {
    #[verifier::type_invariant]
    spec fn inv(&self) -> bool {
        self.config.op == Operation::Sub
    }

    /// The configuration the chip was built from.
    pub closed spec fn gate(&self) -> GateConfig {
        self.config
    }

    pub fn construct(config: SubConfig, _loaded: ()) -> (r: SubChip)
        requires
            config.op == Operation::Sub,
        ensures
            r.gate() == config,
    {
        SubChip { config }
    }

    /// Configures the subtraction gate over `a` and `b`.
    pub fn configure(meta: &mut ConstraintSystem, a: Column, b: Column) -> (r: SubConfig)
        requires
            old(meta).num_selectors < usize::MAX,
        ensures
            r == (GateConfig {
                a,
                b,
                selector: Selector { index: old(meta).num_selectors },
                op: Operation::Sub,
            }),
            final(meta).equality@ == enable_in(enable_in(old(meta).equality@, a), b),
            final(meta).gates@ == old(meta).gates@.push(r),
            final(meta).num_selectors == old(meta).num_selectors + 1,
            final(meta).num_advice == old(meta).num_advice,
            final(meta).num_instance == old(meta).num_instance,
    {
        configure_gate(meta, a, b, Operation::Sub)
    }

    pub fn config(&self) -> (r: &SubConfig)
        ensures
            *r == self.gate(),
    {
        &self.config
    }
}

impl SubInstructions for SubChip {
    open spec fn sub_gate(&self) -> GateConfig {
        self.gate()
    }

    fn sub(&self, layouter: &mut Layouter, a: Number, b: Number) -> (r: Result<Number, Error>) {
        proof {
            use_type_invariant(self);
        }
        layouter.apply_gate(&self.config, &a, &b)
    }
}

/// The multiplication chip.
pub struct MulChip {
    config: MulConfig,
}

impl MulChip {
    #[verifier::type_invariant]
    spec fn inv(&self) -> bool {
        self.config.op == Operation::Mul
    }

    /// The configuration the chip was built from.
    pub closed spec fn gate(&self) -> GateConfig {
        self.config
    }

    pub fn construct(config: MulConfig, _loaded: ()) -> (r: MulChip)
        requires
            config.op == Operation::Mul,
        ensures
            r.gate() == config,
    {
        MulChip { config }
    }

    /// Configures the multiplication gate over `a` and `b`.
    pub fn configure(meta: &mut ConstraintSystem, a: Column, b: Column) -> (r: MulConfig)
        requires
            old(meta).num_selectors < usize::MAX,
        ensures
            r == (GateConfig {
                a,
                b,
                selector: Selector { index: old(meta).num_selectors },
                op: Operation::Mul,
            }),
            final(meta).equality@ == enable_in(enable_in(old(meta).equality@, a), b),
            final(meta).gates@ == old(meta).gates@.push(r),
            final(meta).num_selectors == old(meta).num_selectors + 1,
            final(meta).num_advice == old(meta).num_advice,
            final(meta).num_instance == old(meta).num_instance,
    {
        configure_gate(meta, a, b, Operation::Mul)
    }

    pub fn config(&self) -> (r: &MulConfig)
        ensures
            *r == self.gate(),
    {
        &self.config
    }
}

impl MulInstructions for MulChip {
    open spec fn mul_gate(&self) -> GateConfig {
        self.gate()
    }

    fn mul(&self, layouter: &mut Layouter, a: Number, b: Number) -> (r: Result<Number, Error>) {
        proof {
            use_type_invariant(self);
        }
        layouter.apply_gate(&self.config, &a, &b)
    }
}

} // verus!
