//! The composition chip: it owns the two shared advice columns and the
//! instance column, configures all three gates over the same columns, and
//! offers loading, the three operations, and public exposure.

use crate::circuit::{
    enable_in, lemma_enable_contains, Column, ColumnKind, ConstraintSystem, Error, GateConfig,
    Operation, Selector,
};
use crate::field::FieldValue;
use crate::gates::{
    AddChip, AddConfig, AddInstructions, MulChip, MulConfig, MulInstructions, SubChip, SubConfig,
    SubInstructions,
};
use crate::layouter::{expose_outcome, exposures_agree, load_outcome, Layouter, Number};
use vstd::prelude::*;

verus! {

/// Loading and exposing values, on top of the three operations.
pub trait ArithmeticInstructions: AddInstructions + SubInstructions + MulInstructions {
    /// The configuration the chip works with.
    spec fn arithmetic_config(&self) -> ArithmeticConfig;

    /// Brings `value` under circuit control: a one-row region in column `a`.
    fn load_private(&self, layouter: &mut Layouter, value: FieldValue) -> (r: Result<
        Number,
        Error,
    >)
        requires
            value.wf(),
        ensures
            load_outcome(
                self.arithmetic_config().a,
                old(layouter).view(),
                value,
                final(layouter).view(),
                r,
            ),
            ({
                let pre = old(layouter).view();
                let post = final(layouter).view();
                pre.satisfied() ==> post.satisfied() && (r is Ok ==> post.binds(r->Ok_0)) && (forall|n: Number|
                        pre.binds(n) ==> #[trigger] post.binds(n))
            }),
    ;

    /// Constrains `num`'s cell to equal row `row` of the instance column.
    fn expose_public(&self, layouter: &mut Layouter, num: Number, row: usize) -> (r: Result<
        (),
        Error,
    >)
        ensures
            expose_outcome(
                self.arithmetic_config().instance,
                old(layouter).view(),
                num,
                row as nat,
                final(layouter).view(),
                r,
            ),
            ({
                let pre = old(layouter).view();
                pre.satisfied() && pre.binds(num) && exposures_agree(
                    pre.exposures,
                    self.arithmetic_config().instance,
                    row as nat,
                    num.value.repr@,
                ) ==> final(layouter).view().satisfied()
            }),
    ;
}

/// The shared columns, the instance column and the three gate
/// configurations.
#[derive(Clone, Copy, Debug)]
pub struct ArithmeticConfig {
    pub a: Column,
    pub b: Column,
    pub instance: Column,
    pub add_config: AddConfig,
    pub sub_config: SubConfig,
    pub mul_config: MulConfig,
}

impl ArithmeticConfig {
    /// Two advice columns, an instance column, and each gate over the two
    /// advice columns with its own operation.
    pub open spec fn wf(&self) -> bool {
        &&& self.a.kind == ColumnKind::Advice
        &&& self.b.kind == ColumnKind::Advice
        &&& self.instance.kind == ColumnKind::Instance
        &&& self.add_config.a == self.a && self.add_config.b == self.b
        &&& self.sub_config.a == self.a && self.sub_config.b == self.b
        &&& self.mul_config.a == self.a && self.mul_config.b == self.b
        &&& self.add_config.op == Operation::Add
        &&& self.sub_config.op == Operation::Sub
        &&& self.mul_config.op == Operation::Mul
    }
}

/// The composition chip.
pub struct ArithmeticChip {
    config: ArithmeticConfig,
}

impl ArithmeticChip {
    #[verifier::type_invariant]
    spec fn inv(&self) -> bool {
        self.config.wf()
    }

    /// The configuration the chip was built from.
    pub closed spec fn cfg(&self) -> ArithmeticConfig {
        self.config
    }

    pub fn construct(config: ArithmeticConfig, _loaded: ()) -> (r: ArithmeticChip)
        requires
            config.wf(),
        ensures
            r.cfg() == config,
    {
        ArithmeticChip { config }
    }

    /// Configures the three gates over the same advice columns `a` and `b`,
    /// then enables equality on `instance`.
    pub fn configure(meta: &mut ConstraintSystem, a: Column, b: Column, instance: Column) -> (r:
        ArithmeticConfig)
        requires
            old(meta).num_selectors <= usize::MAX - 3,
            a.kind == ColumnKind::Advice,
            b.kind == ColumnKind::Advice,
            instance.kind == ColumnKind::Instance,
        ensures
            r.wf(),
            r.a == a,
            r.b == b,
            r.instance == instance,
            r.add_config.selector == (Selector { index: old(meta).num_selectors }),
            r.sub_config.selector == (Selector { index: (old(meta).num_selectors + 1) as usize }),
            r.mul_config.selector == (Selector { index: (old(meta).num_selectors + 2) as usize }),
            final(meta).gates@ == old(meta).gates@ + seq![r.add_config, r.sub_config, r.mul_config],
            forall|c: Column|
                #![trigger final(meta).equality@.contains(c)]
                final(meta).equality@.contains(c) <==> (old(meta).equality@.contains(c) || c == a
                    || c == b || c == instance),
            final(meta).num_selectors == old(meta).num_selectors + 3,
            final(meta).num_advice == old(meta).num_advice,
            final(meta).num_instance == old(meta).num_instance,
    {
        let ghost pre = meta.equality@;
        let ghost gates0 = meta.gates@;
        let add_config = AddChip::configure(meta, a, b);
        let sub_config = SubChip::configure(meta, a, b);
        let mul_config = MulChip::configure(meta, a, b);
        meta.enable_equality(instance);
        assert forall|c: Column| #[trigger]
            meta.equality@.contains(c) <==> (pre.contains(c) || c == a || c == b || c == instance) by {
            lemma_enable_contains(pre, a, c);
            lemma_enable_contains(enable_in(pre, a), b, c);
            let e1 = enable_in(enable_in(pre, a), b);
            lemma_enable_contains(e1, a, c);
            lemma_enable_contains(enable_in(e1, a), b, c);
            let e2 = enable_in(enable_in(e1, a), b);
            lemma_enable_contains(e2, a, c);
            lemma_enable_contains(enable_in(e2, a), b, c);
            let e3 = enable_in(enable_in(e2, a), b);
            lemma_enable_contains(e3, instance, c);
        }
        assert(meta.gates@ == gates0 + seq![add_config, sub_config, mul_config]);
        ArithmeticConfig { a, b, instance, add_config, sub_config, mul_config }
    }

    pub fn config(&self) -> (r: &ArithmeticConfig)
        ensures
            *r == self.cfg(),
            r.wf(),
    {
        proof {
            use_type_invariant(self);
        }
        &self.config
    }
}

impl ArithmeticInstructions for ArithmeticChip {
    open spec fn arithmetic_config(&self) -> ArithmeticConfig {
        self.cfg()
    }

    fn load_private(&self, layouter: &mut Layouter, value: FieldValue) -> (r: Result<
        Number,
        Error,
    >) {
        layouter.load(self.config.a, value)
    }

    fn expose_public(&self, layouter: &mut Layouter, num: Number, row: usize) -> (r: Result<
        (),
        Error,
    >) {
        layouter.constrain_instance(&num, self.config.instance, row)
    }
}

impl AddInstructions for ArithmeticChip {
    open spec fn add_gate(&self) -> GateConfig {
        self.cfg().add_config
    }

    fn add(&self, layouter: &mut Layouter, a: Number, b: Number) -> (r: Result<Number, Error>) {
        proof {
            use_type_invariant(self);
        }
        let chip = AddChip::construct(self.config.add_config, ());
        chip.add(layouter, a, b)
    }
}

impl SubInstructions for ArithmeticChip {
    open spec fn sub_gate(&self) -> GateConfig {
        self.cfg().sub_config
    }

    fn sub(&self, layouter: &mut Layouter, a: Number, b: Number) -> (r: Result<Number, Error>) {
        proof {
            use_type_invariant(self);
        }
        let chip = SubChip::construct(self.config.sub_config, ());
        chip.sub(layouter, a, b)
    }
}

impl MulInstructions for ArithmeticChip {
    open spec fn mul_gate(&self) -> GateConfig {
        self.cfg().mul_config
    }

    fn mul(&self, layouter: &mut Layouter, a: Number, b: Number) -> (r: Result<Number, Error>) {
        proof {
            use_type_invariant(self);
        }
        let chip = MulChip::construct(self.config.mul_config, ());
        chip.mul(layouter, a, b)
    }
}

} // verus!
