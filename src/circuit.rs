use vstd::prelude::*;

use crate::field::{lemma_xor_bounds, Value, MAX_INPUT};

verus! {

/// Number of rows of the Hamming-distance region: one per bit of an input.
pub const BINARY_LENGTH: usize = 8;

#[derive(Clone, Copy, Debug, PartialEq, Eq, Structural)]
pub enum ColumnKind {
    Advice,
    Instance,
}

/// A column handle: its kind and its position among the columns of that kind.
#[derive(Clone, Copy, Debug, PartialEq, Eq, Structural)]
pub struct Column {
    pub kind: ColumnKind,
    pub index: usize,
}

/// A selector handle: a per-row switch for a gate.
#[derive(Clone, Copy, Debug, PartialEq, Eq, Structural)]
pub struct Selector {
    pub index: usize,
}

#[derive(Clone, Copy, Debug, PartialEq, Eq, Structural)]
pub enum Error {
    /// The constraint system lacks what a step needs (equality on a column).
    ConfigurationError,
    /// A row or column outside the region was addressed.
    AssignmentError,
    /// The witness or the public input violates an enabled constraint.
    ConstraintUnsatisfied,
    /// A cell that an enabled constraint reads holds an unknown placeholder.
    MissingWitness,
}

/// The columns and selectors declared so far, and the columns on which
/// equality constraints are allowed.
pub struct ConstraintSystem {
    pub num_advice: usize,
    pub num_instance: usize,
    pub num_selectors: usize,
    pub equality: Vec<Column>,
}

impl ConstraintSystem {
    pub open spec fn has_equality(&self, c: Column) -> bool {
        self.equality@.contains(c)
    }

    pub fn new() -> (r: ConstraintSystem)
        ensures
            r.num_advice == 0,
            r.num_instance == 0,
            r.num_selectors == 0,
            r.equality@ == Seq::<Column>::empty(),
    {
        ConstraintSystem { num_advice: 0, num_instance: 0, num_selectors: 0, equality: Vec::new() }
    }

    pub fn advice_column(&mut self) -> (c: Column)
        requires
            old(self).num_advice < usize::MAX,
        ensures
            c == (Column { kind: ColumnKind::Advice, index: old(self).num_advice }),
            final(self).num_advice == old(self).num_advice + 1,
            final(self).num_instance == old(self).num_instance,
            final(self).num_selectors == old(self).num_selectors,
            final(self).equality@ == old(self).equality@,
    {
        let c = Column { kind: ColumnKind::Advice, index: self.num_advice };
        self.num_advice = self.num_advice + 1;
        c
    }

    pub fn instance_column(&mut self) -> (c: Column)
        requires
            old(self).num_instance < usize::MAX,
        ensures
            c == (Column { kind: ColumnKind::Instance, index: old(self).num_instance }),
            final(self).num_advice == old(self).num_advice,
            final(self).num_instance == old(self).num_instance + 1,
            final(self).num_selectors == old(self).num_selectors,
            final(self).equality@ == old(self).equality@,
    {
        let c = Column { kind: ColumnKind::Instance, index: self.num_instance };
        self.num_instance = self.num_instance + 1;
        c
    }

    pub fn selector(&mut self) -> (s: Selector)
        requires
            old(self).num_selectors < usize::MAX,
        ensures
            s == (Selector { index: old(self).num_selectors }),
            final(self).num_advice == old(self).num_advice,
            final(self).num_instance == old(self).num_instance,
            final(self).num_selectors == old(self).num_selectors + 1,
            final(self).equality@ == old(self).equality@,
    {
        let s = Selector { index: self.num_selectors };
        self.num_selectors = self.num_selectors + 1;
        s
    }

    pub fn enable_equality(&mut self, c: Column)
        ensures
            final(self).num_advice == old(self).num_advice,
            final(self).num_instance == old(self).num_instance,
            final(self).num_selectors == old(self).num_selectors,
            final(self).equality@ == old(self).equality@.push(c),
    {
        self.equality.push(c);
    }

    pub fn is_equality_enabled(&self, c: Column) -> (r: bool)
        ensures
            r == self.has_equality(c),
    {
        let mut i: usize = 0;
        while i < self.equality.len()
            invariant
                i <= self.equality@.len(),
                forall|j: int| 0 <= j < i ==> self.equality@[j] != c,
            decreases self.equality@.len() - i,
        {
            if self.equality[i] == c {
                return true;
            }
            i = i + 1;
        }
        false
    }
}

/// The handles of the Hamming-distance chip.
///
/// The gates it stands for, each on the rows where its selector is on:
/// - `s1`: `input_a * (1 - input_a) = 0`, and `s2` the same on `input_b`;
/// - `s_sum`: `sum = input_a + input_b - 2 * input_a * input_b`;
/// - `s_hamming`: `hamming_distance` equals the sum of the `sum` column over
///   this row and the seven rows below it.
#[derive(Clone, Copy, Debug)]
pub struct HammsterChipConfig {
    pub hamming_distance: Column,
    pub sum: Column,
    pub input_a: Column,
    pub input_b: Column,
    pub s1: Selector,
    pub s2: Selector,
    pub s_sum: Selector,
    pub s_hamming: Selector,
    pub instance: Column,
}

impl HammsterChipConfig {
    /// Four distinct advice columns, one instance column, four distinct selectors.
    pub open spec fn wf(&self) -> bool {
        &&& self.hamming_distance.kind == ColumnKind::Advice
        &&& self.sum.kind == ColumnKind::Advice
        &&& self.input_a.kind == ColumnKind::Advice
        &&& self.input_b.kind == ColumnKind::Advice
        &&& self.instance.kind == ColumnKind::Instance
        &&& self.hamming_distance != self.sum
        &&& self.hamming_distance != self.input_a
        &&& self.hamming_distance != self.input_b
        &&& self.sum != self.input_a
        &&& self.sum != self.input_b
        &&& self.input_a != self.input_b
        &&& self.s1 != self.s2
        &&& self.s1 != self.s_sum
        &&& self.s1 != self.s_hamming
        &&& self.s2 != self.s_sum
        &&& self.s2 != self.s_hamming
        &&& self.s_sum != self.s_hamming
    }

    /// Whether `c` is one of the four advice columns of the region.
    pub open spec fn is_region_column(&self, c: Column) -> bool {
        c == self.input_a || c == self.input_b || c == self.sum || c == self.hamming_distance
    }

    pub open spec fn is_region_selector(&self, s: Selector) -> bool {
        s == self.s1 || s == self.s2 || s == self.s_sum || s == self.s_hamming
    }

    /// The handles that configuring declares in a constraint system that
    /// already holds `advice` advice columns, `selectors` selectors and
    /// `instance` instance columns.
    pub open spec fn declared_at(advice: usize, selectors: usize, instance: usize) -> Self {
        HammsterChipConfig {
            hamming_distance: Column { kind: ColumnKind::Advice, index: advice },
            sum: Column { kind: ColumnKind::Advice, index: (advice + 1) as usize },
            input_a: Column { kind: ColumnKind::Advice, index: (advice + 2) as usize },
            input_b: Column { kind: ColumnKind::Advice, index: (advice + 3) as usize },
            s1: Selector { index: selectors },
            s2: Selector { index: (selectors + 1) as usize },
            s_sum: Selector { index: (selectors + 2) as usize },
            s_hamming: Selector { index: (selectors + 3) as usize },
            instance: Column { kind: ColumnKind::Instance, index: instance },
        }
    }
}

/// The contents of the region: one entry per row in each column.
pub struct RegionView {
    pub input_a: Seq<Value>,
    pub input_b: Seq<Value>,
    pub sum: Seq<Value>,
    pub hamming_distance: Seq<Value>,
    pub s1: Seq<bool>,
    pub s2: Seq<bool>,
    pub s_sum: Seq<bool>,
    pub s_hamming: Seq<bool>,
}

impl RegionView {
    pub open spec fn wf(self) -> bool {
        &&& self.input_a.len() == BINARY_LENGTH
        &&& self.input_b.len() == BINARY_LENGTH
        &&& self.sum.len() == BINARY_LENGTH
        &&& self.hamming_distance.len() == BINARY_LENGTH
        &&& self.s1.len() == BINARY_LENGTH
        &&& self.s2.len() == BINARY_LENGTH
        &&& self.s_sum.len() == BINARY_LENGTH
        &&& self.s_hamming.len() == BINARY_LENGTH
    }

    /// The region after writing `v` into `column` at `row`.
    pub open spec fn with_advice(
        self,
        config: HammsterChipConfig,
        column: Column,
        row: int,
        v: Value,
    ) -> RegionView {
        RegionView {
            input_a: if column == config.input_a {
                self.input_a.update(row, v)
            } else {
                self.input_a
            },
            input_b: if column != config.input_a && column == config.input_b {
                self.input_b.update(row, v)
            } else {
                self.input_b
            },
            sum: if column != config.input_a && column != config.input_b && column == config.sum {
                self.sum.update(row, v)
            } else {
                self.sum
            },
            hamming_distance: if column != config.input_a && column != config.input_b && column
                != config.sum && column == config.hamming_distance {
                self.hamming_distance.update(row, v)
            } else {
                self.hamming_distance
            },
            ..self
        }
    }

    /// The region after switching `s` on at `row`.
    pub open spec fn with_selector(
        self,
        config: HammsterChipConfig,
        s: Selector,
        row: int,
    ) -> RegionView {
        RegionView {
            s1: if s == config.s1 {
                self.s1.update(row, true)
            } else {
                self.s1
            },
            s2: if s != config.s1 && s == config.s2 {
                self.s2.update(row, true)
            } else {
                self.s2
            },
            s_sum: if s != config.s1 && s != config.s2 && s == config.s_sum {
                self.s_sum.update(row, true)
            } else {
                self.s_sum
            },
            s_hamming: if s != config.s1 && s != config.s2 && s != config.s_sum && s
                == config.s_hamming {
                self.s_hamming.update(row, true)
            } else {
                self.s_hamming
            },
            ..self
        }
    }

    /// The value at `row` of advice column `column`.
    pub open spec fn advice_at(self, config: HammsterChipConfig, column: Column, row: int) -> Value {
        if column == config.input_a {
            self.input_a[row]
        } else if column == config.input_b {
            self.input_b[row]
        } else if column == config.sum {
            self.sum[row]
        } else {
            self.hamming_distance[row]
        }
    }
}

/// An 8-row region of the four advice columns and four selectors. Cells not
/// yet written hold the unknown placeholder; selectors start switched off.
pub struct Region {
    pub input_a: Vec<Value>,
    pub input_b: Vec<Value>,
    pub sum: Vec<Value>,
    pub hamming_distance: Vec<Value>,
    pub s1: Vec<bool>,
    pub s2: Vec<bool>,
    pub s_sum: Vec<bool>,
    pub s_hamming: Vec<bool>,
}

impl View for Region {
    type V = RegionView;

    open spec fn view(&self) -> RegionView {
        RegionView {
            input_a: self.input_a@,
            input_b: self.input_b@,
            sum: self.sum@,
            hamming_distance: self.hamming_distance@,
            s1: self.s1@,
            s2: self.s2@,
            s_sum: self.s_sum@,
            s_hamming: self.s_hamming@,
        }
    }
}

/// A handle to one assigned cell: its column and its row in the region.
#[derive(Clone, Copy, Debug, PartialEq, Eq, Structural)]
pub struct AssignedCell {
    pub column: Column,
    pub row: usize,
}

fn unknown_column() -> (r: Vec<Value>)
    ensures
        r@ == Seq::new(BINARY_LENGTH as nat, |i: int| Value::Unknown),
{
    let mut v: Vec<Value> = Vec::new();
    let mut i: usize = 0;
    while i < BINARY_LENGTH
        invariant
            i <= BINARY_LENGTH,
            v@ == Seq::new(i as nat, |j: int| Value::Unknown),
        decreases BINARY_LENGTH - i,
    {
        v.push(Value::Unknown);
        i = i + 1;
        assert(v@ =~= Seq::new(i as nat, |j: int| Value::Unknown));
    }
    v
}

fn off_column() -> (r: Vec<bool>)
    ensures
        r@ == Seq::new(BINARY_LENGTH as nat, |i: int| false),
{
    let mut v: Vec<bool> = Vec::new();
    let mut i: usize = 0;
    while i < BINARY_LENGTH
        invariant
            i <= BINARY_LENGTH,
            v@ == Seq::new(i as nat, |j: int| false),
        decreases BINARY_LENGTH - i,
    {
        v.push(false);
        i = i + 1;
        assert(v@ =~= Seq::new(i as nat, |j: int| false));
    }
    v
}

impl Region {
    pub open spec fn wf(&self) -> bool {
        self@.wf()
    }

    pub fn new() -> (r: Region)
        ensures
            r.wf(),
            forall|i: int|
                0 <= i < BINARY_LENGTH ==> {
                    &&& r@.input_a[i] == Value::Unknown
                    &&& r@.input_b[i] == Value::Unknown
                    &&& r@.sum[i] == Value::Unknown
                    &&& r@.hamming_distance[i] == Value::Unknown
                    &&& !r@.s1[i]
                    &&& !r@.s2[i]
                    &&& !r@.s_sum[i]
                    &&& !r@.s_hamming[i]
                },
    {
        Region {
            input_a: unknown_column(),
            input_b: unknown_column(),
            sum: unknown_column(),
            hamming_distance: unknown_column(),
            s1: off_column(),
            s2: off_column(),
            s_sum: off_column(),
            s_hamming: off_column(),
        }
    }

    /// Writes `v` into `column` at `row`; fails unless `row` lies in the region
    /// and `column` is one of its advice columns.
    pub fn assign_advice(
        &mut self,
        config: &HammsterChipConfig,
        column: Column,
        row: usize,
        v: Value,
    ) -> (r: Result<(), Error>)
        requires
            old(self).wf(),
        ensures
            r is Ok <==> row < BINARY_LENGTH && config.is_region_column(column),
            r is Err ==> r == Err::<(), Error>(Error::AssignmentError) && final(self)@ == old(
                self,
            )@,
            r is Ok ==> final(self)@ == old(self)@.with_advice(*config, column, row as int, v),
            final(self).wf(),
    {
        if row >= BINARY_LENGTH {
            return Err(Error::AssignmentError);
        }
        if column == config.input_a {
            self.input_a.set(row, v);
        } else if column == config.input_b {
            self.input_b.set(row, v);
        } else if column == config.sum {
            self.sum.set(row, v);
        } else if column == config.hamming_distance {
            self.hamming_distance.set(row, v);
        } else {
            return Err(Error::AssignmentError);
        }
        Ok(())
    }

    /// Switches `s` on at `row`; fails unless `row` lies in the region and `s`
    /// is one of the chip's selectors.
    pub fn enable_selector(&mut self, config: &HammsterChipConfig, s: Selector, row: usize) -> (r:
        Result<(), Error>)
        requires
            old(self).wf(),
        ensures
            r is Ok <==> row < BINARY_LENGTH && config.is_region_selector(s),
            r is Err ==> r == Err::<(), Error>(Error::AssignmentError) && final(self)@ == old(
                self,
            )@,
            r is Ok ==> final(self)@ == old(self)@.with_selector(*config, s, row as int),
            final(self).wf(),
    {
        if row >= BINARY_LENGTH {
            return Err(Error::AssignmentError);
        }
        if s == config.s1 {
            self.s1.set(row, true);
        } else if s == config.s2 {
            self.s2.set(row, true);
        } else if s == config.s_sum {
            self.s_sum.set(row, true);
        } else if s == config.s_hamming {
            self.s_hamming.set(row, true);
        } else {
            return Err(Error::AssignmentError);
        }
        Ok(())
    }
}

/// The Hamming-distance value over the first `n` rows: the propagating sum of
/// the per-row XOR values, starting from a known zero.
pub open spec fn hamming_value(a: Seq<Value>, b: Seq<Value>, n: nat) -> Value
    decreases n,
{
    if n == 0 {
        Value::Known(0)
    } else {
        hamming_value(a, b, (n - 1) as nat).plus_spec(a[n - 1].xor_spec(b[n - 1]))
    }
}

/// Both inputs have one cell per row, each of which the region can hold.
pub open spec fn inputs_fit(a: Seq<Value>, b: Seq<Value>) -> bool {
    &&& a.len() == BINARY_LENGTH
    &&& b.len() == BINARY_LENGTH
    &&& forall|i: int| 0 <= i < BINARY_LENGTH ==> a[i].fits_input() && b[i].fits_input()
}

/// The region that the witness assigner fills for inputs `a` and `b`.
pub open spec fn assigned_region(a: Seq<Value>, b: Seq<Value>) -> RegionView {
    RegionView {
        input_a: a,
        input_b: b,
        sum: Seq::new(BINARY_LENGTH as nat, |i: int| a[i].xor_spec(b[i])),
        hamming_distance: Seq::new(
            BINARY_LENGTH as nat,
            |i: int|
                if i == 0 {
                    hamming_value(a, b, BINARY_LENGTH as nat)
                } else {
                    Value::Unknown
                },
        ),
        s1: Seq::new(BINARY_LENGTH as nat, |i: int| true),
        s2: Seq::new(BINARY_LENGTH as nat, |i: int| true),
        s_sum: Seq::new(BINARY_LENGTH as nat, |i: int| true),
        s_hamming: Seq::new(BINARY_LENGTH as nat, |i: int| i == 0),
    }
}

pub proof fn lemma_hamming_value_bound(a: Seq<Value>, b: Seq<Value>, n: nat)
    requires
        inputs_fit(a, b),
        n <= BINARY_LENGTH,
    ensures
        hamming_value(a, b, n).within(4 * n * MAX_INPUT * MAX_INPUT),
    decreases n,
{
    if n > 0 {
        lemma_hamming_value_bound(a, b, (n - 1) as nat);
        lemma_xor_bounds(a[n - 1].int_of(), b[n - 1].int_of());
        assert(4 * n * MAX_INPUT * MAX_INPUT == 4 * (n - 1) * MAX_INPUT * MAX_INPUT + 4 * MAX_INPUT
            * MAX_INPUT) by (nonlinear_arith);
    }
}

/// The Hamming-distance chip: lays out the region and binds its result to the
/// public input.
pub struct HammsterChip {
    pub config: HammsterChipConfig,
}

impl HammsterChip {
    pub fn construct(config: HammsterChipConfig) -> (r: HammsterChip)
        ensures
            r.config == config,
    {
        HammsterChip { config }
    }

    /// Declares the four advice columns, the four selectors and the instance
    /// column, and enables equality on `hamming_distance` and on the instance
    /// column, which the public binding needs.
    pub fn configure(meta: &mut ConstraintSystem) -> (r: HammsterChipConfig)
        requires
            old(meta).num_advice + 4 <= usize::MAX,
            old(meta).num_selectors + 4 <= usize::MAX,
            old(meta).num_instance + 1 <= usize::MAX,
        ensures
            r.wf(),
            r == HammsterChipConfig::declared_at(
                old(meta).num_advice,
                old(meta).num_selectors,
                old(meta).num_instance,
            ),
            final(meta).num_advice == old(meta).num_advice + 4,
            final(meta).num_selectors == old(meta).num_selectors + 4,
            final(meta).num_instance == old(meta).num_instance + 1,
            final(meta).equality@ == old(meta).equality@.push(r.hamming_distance).push(r.instance),
            final(meta).has_equality(r.hamming_distance),
            final(meta).has_equality(r.instance),
    {
        let hamming_distance = meta.advice_column();
        let sum = meta.advice_column();
        let input_a = meta.advice_column();
        let input_b = meta.advice_column();
        let s1 = meta.selector();
        let s2 = meta.selector();
        let s_sum = meta.selector();
        let s_hamming = meta.selector();
        let instance = meta.instance_column();
        meta.enable_equality(hamming_distance);
        meta.enable_equality(instance);
        let ghost eq = meta.equality@;
        assert(eq[eq.len() - 2] == hamming_distance);
        assert(eq[eq.len() - 1] == instance);
        HammsterChipConfig {
            hamming_distance,
            sum,
            input_a,
            input_b,
            s1,
            s2,
            s_sum,
            s_hamming,
            instance,
        }
    }

    /// The witness assigner. For each of the eight rows it writes the two
    /// input bits and their XOR `a + b - 2ab`, and switches on the two binary
    /// checks and the XOR check; it then writes the sum of the eight XOR values
    /// into `hamming_distance` at row 0 and switches on the aggregation check
    /// there. Unknown inputs make the derived cells unknown. Returns the handle
    /// of the Hamming-distance cell.
    pub fn assign(&self, input_a: &Vec<Value>, input_b: &Vec<Value>) -> (r: Result<
        (Region, AssignedCell),
        Error,
    >)
        requires
            self.config.wf(),
            inputs_fit(input_a@, input_b@),
        ensures
            r is Ok,
            r->Ok_0.0@ == assigned_region(input_a@, input_b@),
            r->Ok_0.1 == (AssignedCell { column: self.config.hamming_distance, row: 0 }),
    {
        let config = &self.config;
        let mut region = Region::new();
        let mut i: usize = 0;
        while i < BINARY_LENGTH
            invariant
                config.wf(),
                inputs_fit(input_a@, input_b@),
                region.wf(),
                i <= BINARY_LENGTH,
                forall|j: int|
                    0 <= j < BINARY_LENGTH ==> {
                        &&& region@.input_a[j] == if j < i {
                            input_a@[j]
                        } else {
                            Value::Unknown
                        }
                        &&& region@.input_b[j] == if j < i {
                            input_b@[j]
                        } else {
                            Value::Unknown
                        }
                        &&& region@.sum[j] == if j < i {
                            input_a@[j].xor_spec(input_b@[j])
                        } else {
                            Value::Unknown
                        }
                        &&& region@.hamming_distance[j] == Value::Unknown
                        &&& region@.s1[j] == (j < i)
                        &&& region@.s2[j] == (j < i)
                        &&& region@.s_sum[j] == (j < i)
                        &&& !region@.s_hamming[j]
                    },
            decreases BINARY_LENGTH - i,
        {
            let a = input_a[i];
            let b = input_b[i];
            region.assign_advice(config, config.input_a, i, a)?;
            region.assign_advice(config, config.input_b, i, b)?;
            region.assign_advice(config, config.sum, i, a.xor(b))?;
            region.enable_selector(config, config.s1, i)?;
            region.enable_selector(config, config.s2, i)?;
            region.enable_selector(config, config.s_sum, i)?;
            i = i + 1;
        }
        let mut hamming = Value::known(0);
        let mut j: usize = 0;
        while j < BINARY_LENGTH
            invariant
                inputs_fit(input_a@, input_b@),
                j <= BINARY_LENGTH,
                hamming == hamming_value(input_a@, input_b@, j as nat),
            decreases BINARY_LENGTH - j,
        {
            proof {
                lemma_hamming_value_bound(input_a@, input_b@, j as nat);
                lemma_xor_bounds(input_a@[j as int].int_of(), input_b@[j as int].int_of());
                assert(4 * j * MAX_INPUT * MAX_INPUT <= 28 * MAX_INPUT * MAX_INPUT) by (
                nonlinear_arith)
                    requires
                        j <= 7,
                ;
            }
            hamming = hamming.plus(input_a[j].xor(input_b[j]));
            j = j + 1;
        }
        region.assign_advice(config, config.hamming_distance, 0, hamming)?;
        region.enable_selector(config, config.s_hamming, 0)?;
        assert(region@.input_a =~= assigned_region(input_a@, input_b@).input_a);
        assert(region@.input_b =~= assigned_region(input_a@, input_b@).input_b);
        assert(region@.sum =~= assigned_region(input_a@, input_b@).sum);
        assert(region@.hamming_distance =~= assigned_region(input_a@, input_b@).hamming_distance);
        assert(region@.s1 =~= assigned_region(input_a@, input_b@).s1);
        assert(region@.s2 =~= assigned_region(input_a@, input_b@).s2);
        assert(region@.s_sum =~= assigned_region(input_a@, input_b@).s_sum);
        assert(region@.s_hamming =~= assigned_region(input_a@, input_b@).s_hamming);
        Ok((region, AssignedCell { column: config.hamming_distance, row: 0 }))
    }

    /// The public-input binder: constrains `cell` to equal row 0 of the
    /// instance column. Fails unless both columns have equality enabled.
    pub fn expose_public(&self, meta: &ConstraintSystem, cell: AssignedCell) -> (r: Result<
        Binding,
        Error,
    >)
        ensures
            r is Ok <==> meta.has_equality(cell.column) && meta.has_equality(self.config.instance),
            r is Err ==> r == Err::<Binding, Error>(Error::ConfigurationError),
            r is Ok ==> r->Ok_0 == (Binding { cell, instance: self.config.instance, instance_row: 0 }),
    {
        if meta.is_equality_enabled(cell.column) && meta.is_equality_enabled(self.config.instance) {
            Ok(Binding { cell, instance: self.config.instance, instance_row: 0 })
        } else {
            Err(Error::ConfigurationError)
        }
    }
}

/// An equality constraint between an assigned cell and a row of an instance
/// column.
#[derive(Clone, Copy, Debug, PartialEq, Eq, Structural)]
pub struct Binding {
    pub cell: AssignedCell,
    pub instance: Column,
    pub instance_row: usize,
}

/// Whether each input has one cell per row and every cell fits the region.
fn check_inputs(a: &Vec<Value>, b: &Vec<Value>) -> (r: bool)
    ensures
        r == inputs_fit(a@, b@),
{
    if a.len() != BINARY_LENGTH || b.len() != BINARY_LENGTH {
        return false;
    }
    let mut i: usize = 0;
    while i < BINARY_LENGTH
        invariant
            a@.len() == BINARY_LENGTH,
            b@.len() == BINARY_LENGTH,
            i <= BINARY_LENGTH,
            forall|j: int| 0 <= j < i ==> a@[j].fits_input() && b@[j].fits_input(),
        decreases BINARY_LENGTH - i,
    {
        let ok_a = match a[i] {
            Value::Known(v) => -MAX_INPUT <= v && v <= MAX_INPUT,
            Value::Unknown => true,
        };
        let ok_b = match b[i] {
            Value::Known(v) => -MAX_INPUT <= v && v <= MAX_INPUT,
            Value::Unknown => true,
        };
        if !ok_a || !ok_b {
            return false;
        }
        i = i + 1;
    }
    true
}

pub struct HammsterCircuitConfig {
    pub hammsterchip_config: HammsterChipConfig,
}

/// What one synthesis pass produces: the filled region and the binding of its
/// Hamming-distance cell to the public input.
pub struct Synthesis {
    pub region: Region,
    pub binding: Binding,
}

/// The circuit: the two private input vectors, one cell per bit.
pub struct HammsterCircuit {
    pub input_a: Vec<Value>,
    pub input_b: Vec<Value>,
}

/// Eight unknown placeholders.
pub open spec fn unknown_inputs() -> Seq<Value> {
    Seq::new(BINARY_LENGTH as nat, |i: int| Value::Unknown)
}

impl HammsterCircuit {
    /// The same circuit shape with every input cell unknown, from which keys
    /// can be derived without any secret.
    pub fn without_witnesses(&self) -> (r: HammsterCircuit)
        ensures
            r.input_a@ == unknown_inputs(),
            r.input_b@ == unknown_inputs(),
    {
        empty_circuit()
    }

    pub fn configure(meta: &mut ConstraintSystem) -> (r: HammsterCircuitConfig)
        requires
            old(meta).num_advice + 4 <= usize::MAX,
            old(meta).num_selectors + 4 <= usize::MAX,
            old(meta).num_instance + 1 <= usize::MAX,
        ensures
            r.hammsterchip_config.wf(),
            r.hammsterchip_config == HammsterChipConfig::declared_at(
                old(meta).num_advice,
                old(meta).num_selectors,
                old(meta).num_instance,
            ),
            final(meta).num_advice == old(meta).num_advice + 4,
            final(meta).num_selectors == old(meta).num_selectors + 4,
            final(meta).num_instance == old(meta).num_instance + 1,
            final(meta).equality@ == old(meta).equality@.push(
                r.hammsterchip_config.hamming_distance,
            ).push(r.hammsterchip_config.instance),
            final(meta).has_equality(r.hammsterchip_config.hamming_distance),
            final(meta).has_equality(r.hammsterchip_config.instance),
    {
        HammsterCircuitConfig { hammsterchip_config: HammsterChip::configure(meta) }
    }

    /// Runs the witness assigner and then the public-input binder. Fails with
    /// `AssignmentError` when an input does not have one cell per row or holds
    /// a value the region cannot hold, and with `ConfigurationError` when the
    /// constraint system lacks equality on the columns the binding joins.
    pub fn synthesize(&self, config: &HammsterCircuitConfig, meta: &ConstraintSystem) -> (r: Result<
        Synthesis,
        Error,
    >)
        requires
            config.hammsterchip_config.wf(),
        ensures
            !inputs_fit(self.input_a@, self.input_b@) ==> r == Err::<Synthesis, Error>(
                Error::AssignmentError,
            ),
            inputs_fit(self.input_a@, self.input_b@) && !(meta.has_equality(
                config.hammsterchip_config.hamming_distance,
            ) && meta.has_equality(config.hammsterchip_config.instance)) ==> r == Err::<
                Synthesis,
                Error,
            >(Error::ConfigurationError),
            r is Ok <==> inputs_fit(self.input_a@, self.input_b@) && meta.has_equality(
                config.hammsterchip_config.hamming_distance,
            ) && meta.has_equality(config.hammsterchip_config.instance),
            r is Ok ==> r->Ok_0.region@ == assigned_region(self.input_a@, self.input_b@),
            r is Ok ==> r->Ok_0.binding == (Binding {
                cell: AssignedCell { column: config.hammsterchip_config.hamming_distance, row: 0 },
                instance: config.hammsterchip_config.instance,
                instance_row: 0,
            }),
    {
        if !check_inputs(&self.input_a, &self.input_b) {
            return Err(Error::AssignmentError);
        }
        let chip = HammsterChip::construct(config.hammsterchip_config);
        let (region, cell) = chip.assign(&self.input_a, &self.input_b)?;
        let binding = chip.expose_public(meta, cell)?;
        Ok(Synthesis { region, binding })
    }
}

/// The witness-free circuit: eight unknown cells in each input.
pub fn empty_circuit() -> (r: HammsterCircuit)
    ensures
        r.input_a@ == unknown_inputs(),
        r.input_b@ == unknown_inputs(),
{
    let input_a = unknown_column();
    let input_b = unknown_column();
    assert(input_a@ =~= unknown_inputs());
    assert(input_b@ =~= unknown_inputs());
    HammsterCircuit { input_a, input_b }
}

} // verus!
