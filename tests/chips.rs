use arith_chips::arithmetic::{ArithmeticChip, ArithmeticInstructions};
use arith_chips::circuit::{Cell, Column, ColumnKind, ConstraintSystem, ErrorKind, RegionName};
use arith_chips::field::FieldValue;
use arith_chips::gates::{AddChip, AddInstructions, MulChip, MulInstructions, SubChip, SubInstructions};
use arith_chips::layouter::{Layouter, Number};

fn modulus_bytes() -> [u8; 32] {
    let mut r = [0u8; 32];
    r[..8].copy_from_slice(&0x992d30ed00000001u64.to_le_bytes());
    r[8..16].copy_from_slice(&0x224698fc094cf91bu64.to_le_bytes());
    r[24..].copy_from_slice(&0x4000000000000000u64.to_le_bytes());
    r
}

fn minus_one_bytes() -> [u8; 32] {
    let mut r = modulus_bytes();
    r[0] = 0;
    r
}

fn fv(n: u64) -> FieldValue {
    FieldValue::from_u64(n)
}

fn same(x: &FieldValue, y: &FieldValue) -> bool {
    x.to_repr() == y.to_repr()
}

fn setup(rows: usize) -> (ArithmeticChip, Layouter) {
    let mut meta = ConstraintSystem::new();
    let a = meta.advice_column();
    let b = meta.advice_column();
    let instance = meta.instance_column();
    let config = ArithmeticChip::configure(&mut meta, a, b, instance);
    let layouter = Layouter::new(&meta, rows);
    (ArithmeticChip::construct(config, ()), layouter)
}

#[test]
fn load_add_mul_expose_scenario() {
    let (chip, mut l) = setup(64);
    let x = chip.load_private(&mut l, fv(3)).unwrap();
    let y = chip.load_private(&mut l, fv(4)).unwrap();
    let s = chip.add(&mut l, x, y).unwrap();
    assert!(same(&s.value, &fv(7)));
    let z = chip.load_private(&mut l, fv(2)).unwrap();
    let p = chip.mul(&mut l, s, z).unwrap();
    assert!(same(&p.value, &fv(14)));
    chip.expose_public(&mut l, p, 0).unwrap();
    assert!(same(&l.instance_at(chip.config().instance, 0).unwrap(), &fv(14)));
    assert!(l.instance_at(chip.config().instance, 1).is_none());
}

#[test]
fn operations_on_loaded_values() {
    let (chip, mut l) = setup(64);
    let x = chip.load_private(&mut l, fv(10)).unwrap();
    let y = chip.load_private(&mut l, fv(6)).unwrap();
    assert!(same(&chip.add(&mut l, x, y).unwrap().value, &fv(16)));
    assert!(same(&chip.sub(&mut l, x, y).unwrap().value, &fv(4)));
    assert!(same(&chip.mul(&mut l, x, y).unwrap().value, &fv(60)));
}

#[test]
fn subtraction_wraps_around() {
    let (chip, mut l) = setup(64);
    let x = chip.load_private(&mut l, fv(3)).unwrap();
    let y = chip.load_private(&mut l, fv(4)).unwrap();
    let d = chip.sub(&mut l, x, y).unwrap();
    assert_eq!(d.value.to_repr(), minus_one_bytes());
}

#[test]
fn modulus_boundary_addition() {
    let (chip, mut l) = setup(64);
    let top = chip.load_private(&mut l, FieldValue::from_repr(minus_one_bytes()).unwrap()).unwrap();
    let two = chip.load_private(&mut l, fv(2)).unwrap();
    let s = chip.add(&mut l, top, two).unwrap();
    assert!(same(&s.value, &fv(1)));
    let m = chip.mul(&mut l, top, top).unwrap();
    assert!(same(&m.value, &fv(1)));
}

#[test]
fn composition_matches_direct_evaluation() {
    let vectors: [(u64, u64, u64, u64); 3] = [(3, 4, 2, 5), (0, 0, 9, 1), (u64::MAX, u64::MAX, u64::MAX, 7)];
    for (a, b, c, d) in vectors {
        let (chip, mut l) = setup(64);
        let na = chip.load_private(&mut l, fv(a)).unwrap();
        let nb = chip.load_private(&mut l, fv(b)).unwrap();
        let nc = chip.load_private(&mut l, fv(c)).unwrap();
        let nd = chip.load_private(&mut l, fv(d)).unwrap();
        let s = chip.add(&mut l, na, nb).unwrap();
        let p = chip.mul(&mut l, s, nc).unwrap();
        let r = chip.sub(&mut l, p, nd).unwrap();
        let direct = fv(a).add(&fv(b)).mul(&fv(c)).sub(&fv(d));
        assert!(same(&r.value, &direct));
    }
    let (chip, mut l) = setup(64);
    let na = chip.load_private(&mut l, fv(3)).unwrap();
    let nb = chip.load_private(&mut l, fv(4)).unwrap();
    let nc = chip.load_private(&mut l, fv(2)).unwrap();
    let nd = chip.load_private(&mut l, fv(5)).unwrap();
    let s = chip.add(&mut l, na, nb).unwrap();
    let p = chip.mul(&mut l, s, nc).unwrap();
    let r = chip.sub(&mut l, p, nd).unwrap();
    assert!(same(&r.value, &fv(9)));
}

#[test]
fn repeated_add_gives_distinct_cells() {
    let (chip, mut l) = setup(64);
    let x = chip.load_private(&mut l, fv(5)).unwrap();
    let y = chip.load_private(&mut l, fv(8)).unwrap();
    let r1 = chip.add(&mut l, x, y).unwrap();
    let r2 = chip.add(&mut l, x, y).unwrap();
    assert_ne!(r1.cell, r2.cell);
    assert!(same(&r1.value, &r2.value));
    assert!(same(&r1.value, &fv(13)));
}

#[test]
fn gate_region_layout() {
    let (chip, mut l) = setup(64);
    let a = chip.config().a;
    let b = chip.config().b;
    let x = chip.load_private(&mut l, fv(2)).unwrap();
    let y = chip.load_private(&mut l, fv(9)).unwrap();
    assert_eq!(x.cell, Cell { column: a, row: 0 });
    assert_eq!(y.cell, Cell { column: a, row: 1 });
    let r = chip.mul(&mut l, x, y).unwrap();
    assert_eq!(r.cell, Cell { column: a, row: 3 });
    assert_eq!(l.next_row, 4);
    assert_eq!(l.enabled.len(), 1);
    assert_eq!(l.enabled[0].row, 2);
    assert_eq!(l.enabled[0].gate, chip.config().mul_config);
    assert_eq!(l.copies.len(), 2);
    assert_eq!(l.copies[0].left, x.cell);
    assert_eq!(l.copies[0].right, Cell { column: a, row: 2 });
    assert_eq!(l.copies[1].left, y.cell);
    assert_eq!(l.copies[1].right, Cell { column: b, row: 2 });
    assert_eq!(l.assignments.len(), 5);
    assert!(same(&l.assignments[4].value, &fv(18)));
}

#[test]
fn configure_shares_columns() {
    let mut meta = ConstraintSystem::new();
    let a = meta.advice_column();
    let b = meta.advice_column();
    let instance = meta.instance_column();
    let config = ArithmeticChip::configure(&mut meta, a, b, instance);
    assert_eq!(meta.num_selectors, 3);
    assert_eq!(meta.gates.len(), 3);
    assert_eq!(meta.equality, vec![a, b, instance]);
    assert!(meta.has_equality(instance));
    assert!(!meta.has_equality(Column { kind: ColumnKind::Advice, index: 2 }));
    for g in [config.add_config, config.sub_config, config.mul_config] {
        assert_eq!(g.a, a);
        assert_eq!(g.b, b);
    }
    assert_ne!(config.add_config.selector, config.sub_config.selector);
    assert_ne!(config.sub_config.selector, config.mul_config.selector);
}

#[test]
fn standalone_gate_chips() {
    let mut meta = ConstraintSystem::new();
    let a = meta.advice_column();
    let b = meta.advice_column();
    let add = AddChip::construct(AddChip::configure(&mut meta, a, b), ());
    let sub = SubChip::construct(SubChip::configure(&mut meta, a, b), ());
    let mul = MulChip::construct(MulChip::configure(&mut meta, a, b), ());
    assert_eq!(meta.equality, vec![a, b]);
    let mut l = Layouter::new(&meta, 32);
    let x = l.load(a, fv(12)).unwrap();
    let y = l.load(a, fv(5)).unwrap();
    assert!(same(&add.add(&mut l, x, y).unwrap().value, &fv(17)));
    assert!(same(&sub.sub(&mut l, x, y).unwrap().value, &fv(7)));
    assert!(same(&mul.mul(&mut l, x, y).unwrap().value, &fv(60)));
    assert_eq!(mul.config().a, a);
}

#[test]
fn not_enough_rows() {
    let (chip, mut l) = setup(3);
    let x = chip.load_private(&mut l, fv(1)).unwrap();
    let y = chip.load_private(&mut l, fv(2)).unwrap();
    let e = chip.add(&mut l, x, y).unwrap_err();
    assert_eq!(e.kind, ErrorKind::NotEnoughRowsAvailable);
    assert_eq!(e.region, RegionName::Add);
    assert_eq!(l.next_row, 2);
    assert!(chip.load_private(&mut l, fv(3)).is_ok());
    let e = chip.load_private(&mut l, fv(4)).unwrap_err();
    assert_eq!(e.kind, ErrorKind::NotEnoughRowsAvailable);
    assert_eq!(e.region, RegionName::LoadPrivate);
    let e = chip.expose_public(&mut l, x, 3).unwrap_err();
    assert_eq!(e.kind, ErrorKind::NotEnoughRowsAvailable);
    assert_eq!(e.region, RegionName::ExposePublic);
}

#[test]
fn copy_from_column_without_equality() {
    let (chip, mut l) = setup(16);
    let stray = Column { kind: ColumnKind::Advice, index: 7 };
    let x = Number { cell: Cell { column: stray, row: 0 }, value: fv(1) };
    let y = chip.load_private(&mut l, fv(2)).unwrap();
    let e = chip.sub(&mut l, y, x).unwrap_err();
    assert_eq!(e.kind, ErrorKind::ColumnNotInPermutation);
    assert_eq!(e.column, stray);
    assert_eq!(e.region, RegionName::Sub);
    assert_eq!(l.next_row, 1);
    let e = chip.expose_public(&mut l, x, 0).unwrap_err();
    assert_eq!(e.kind, ErrorKind::ColumnNotInPermutation);
    assert_eq!(e.column, stray);
}

#[test]
fn conflicting_exposures_leave_no_value() {
    let (chip, mut l) = setup(16);
    let inst = chip.config().instance;
    let x = chip.load_private(&mut l, fv(21)).unwrap();
    let y = chip.load_private(&mut l, fv(22)).unwrap();
    let z = chip.load_private(&mut l, fv(21)).unwrap();
    chip.expose_public(&mut l, x, 2).unwrap();
    chip.expose_public(&mut l, y, 5).unwrap();
    assert!(same(&l.instance_at(inst, 2).unwrap(), &fv(21)));
    assert!(same(&l.instance_at(inst, 5).unwrap(), &fv(22)));
    chip.expose_public(&mut l, z, 2).unwrap();
    assert!(same(&l.instance_at(inst, 2).unwrap(), &fv(21)));
    chip.expose_public(&mut l, y, 2).unwrap();
    assert!(l.instance_at(inst, 2).is_none());
    assert!(same(&l.instance_at(inst, 5).unwrap(), &fv(22)));
}

#[test]
fn gate_errors_follow_step_order() {
    let (chip, mut l) = setup(3);
    let stray = Column { kind: ColumnKind::Advice, index: 7 };
    let far = Number { cell: Cell { column: stray, row: 0 }, value: fv(1) };
    let x = chip.load_private(&mut l, fv(1)).unwrap();
    let y = chip.load_private(&mut l, fv(2)).unwrap();
    let e = chip.mul(&mut l, far, y).unwrap_err();
    assert_eq!(e.kind, ErrorKind::ColumnNotInPermutation);
    assert_eq!(e.column, stray);
    assert_eq!(e.region, RegionName::Mul);
    let e = chip.sub(&mut l, x, far).unwrap_err();
    assert_eq!(e.kind, ErrorKind::ColumnNotInPermutation);
    assert_eq!(e.region, RegionName::Sub);
    let e = chip.sub(&mut l, x, y).unwrap_err();
    assert_eq!(e.kind, ErrorKind::NotEnoughRowsAvailable);
    assert_eq!(e.offset, 1);
    assert_eq!(e.column, chip.config().a);
    chip.load_private(&mut l, fv(3)).unwrap();
    let e = chip.mul(&mut l, far, y).unwrap_err();
    assert_eq!(e.kind, ErrorKind::NotEnoughRowsAvailable);
    assert_eq!(e.offset, 0);
    assert_eq!(l.next_row, 3);
    let below = Number { cell: Cell { column: chip.config().a, row: 9 }, value: fv(1) };
    let (chip2, mut l2) = setup(16);
    let w = chip2.load_private(&mut l2, fv(4)).unwrap();
    let e = chip2.add(&mut l2, w, Number { cell: Cell { column: chip2.config().a, row: 40 }, value: fv(1) }).unwrap_err();
    assert_eq!(e.kind, ErrorKind::NotEnoughRowsAvailable);
    assert_eq!(e.offset, 0);
    let e = chip.expose_public(&mut l, below, 0).unwrap_err();
    assert_eq!(e.kind, ErrorKind::NotEnoughRowsAvailable);
    assert_eq!(e.region, RegionName::ExposePublic);
}

#[test]
fn field_encoding() {
    assert!(FieldValue::from_repr(modulus_bytes()).is_none());
    assert!(FieldValue::from_repr([0xff; 32]).is_none());
    let top = FieldValue::from_repr(minus_one_bytes()).unwrap();
    assert_eq!(top.to_repr(), minus_one_bytes());
    let mut five = [0u8; 32];
    five[0] = 5;
    assert_eq!(fv(5).to_repr(), five);
    assert_eq!(fv(0x0102).to_repr()[..2], [2, 1]);
    assert_eq!(top.add(&fv(1)).to_repr(), [0u8; 32]);
    assert_eq!(fv(0).sub(&fv(1)).to_repr(), minus_one_bytes());
}
