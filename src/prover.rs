use vstd::prelude::*;

use crate::circuit::{
    assigned_region, hamming_value, inputs_fit, lemma_hamming_value_bound, unknown_inputs,
    AssignedCell, Binding, ConstraintSystem, Error, HammsterChipConfig, HammsterCircuit, Region,
    RegionView, BINARY_LENGTH,
};
use crate::field::{lemma_xor_bounds, xor_int, Value, MAX_INPUT};

verus! {

/// Largest magnitude of a region cell that `check_constraints` evaluates.
pub const MAX_CELL: i64 = 1125899906842624;

/// The integer at row `r` of a column; rows outside the region read as zero.
pub open spec fn cell_int(col: Seq<Value>, r: int) -> int {
    if 0 <= r < col.len() {
        col[r].int_of()
    } else {
        0
    }
}

/// Whether row `r` of a column holds a known value (rows outside the region do).
pub open spec fn cell_known(col: Seq<Value>, r: int) -> bool {
    0 <= r < col.len() ==> col[r] is Known
}

/// The sum of rows `r .. r + n` of a column.
pub open spec fn window_sum(col: Seq<Value>, r: int, n: nat) -> int
    decreases n,
{
    if n == 0 {
        0
    } else {
        window_sum(col, r, (n - 1) as nat) + cell_int(col, r + n - 1)
    }
}

/// Whether rows `r .. r + n` of a column are all known.
pub open spec fn window_known(col: Seq<Value>, r: int, n: nat) -> bool
    decreases n,
{
    if n == 0 {
        true
    } else {
        window_known(col, r, (n - 1) as nat) && cell_known(col, r + n - 1)
    }
}

impl RegionView {
    /// Every cell that an enabled gate reads at row `r` is known.
    pub open spec fn row_known(self, r: int) -> bool {
        &&& (self.s1[r] ==> self.input_a[r] is Known)
        &&& (self.s2[r] ==> self.input_b[r] is Known)
        &&& (self.s_sum[r] ==> self.input_a[r] is Known && self.input_b[r] is Known
            && self.sum[r] is Known)
        &&& (self.s_hamming[r] ==> self.hamming_distance[r] is Known && window_known(
            self.sum,
            r,
            BINARY_LENGTH as nat,
        ))
    }

    /// Every gate enabled at row `r` evaluates to zero there.
    pub open spec fn row_satisfied(self, r: int) -> bool {
        let a = self.input_a[r].int_of();
        let b = self.input_b[r].int_of();
        &&& (self.s1[r] ==> a * (1 - a) == 0)
        &&& (self.s2[r] ==> b * (1 - b) == 0)
        &&& (self.s_sum[r] ==> self.sum[r].int_of() == xor_int(a, b))
        &&& (self.s_hamming[r] ==> self.hamming_distance[r].int_of() == window_sum(
            self.sum,
            r,
            BINARY_LENGTH as nat,
        ))
    }

    pub open spec fn witness_known(self) -> bool {
        forall|r: int| 0 <= r < BINARY_LENGTH ==> self.row_known(r)
    }

    pub open spec fn gates_satisfied(self) -> bool {
        forall|r: int| 0 <= r < BINARY_LENGTH ==> self.row_satisfied(r)
    }

    pub open spec fn cells_within(self, bound: int) -> bool {
        forall|r: int|
            0 <= r < BINARY_LENGTH ==> {
                &&& self.input_a[r].within(bound)
                &&& self.input_b[r].within(bound)
                &&& self.sum[r].within(bound)
                &&& self.hamming_distance[r].within(bound)
            }
    }
}

/// A binding that joins a region cell to row 0 of the chip's instance column.
pub open spec fn binding_ok(config: HammsterChipConfig, binding: Binding) -> bool {
    &&& binding.instance == config.instance
    &&& binding.instance_row == 0
    &&& config.is_region_column(binding.cell.column)
    &&& binding.cell.row < BINARY_LENGTH
}

/// The value of the cell that a binding joins to the public input.
pub open spec fn bound_value(config: HammsterChipConfig, rv: RegionView, binding: Binding) -> Value {
    rv.advice_at(config, binding.cell.column, binding.cell.row as int)
}

/// The outcome of checking a filled region and its binding against the public
/// input: the public input must be exactly one value; the cells the enabled
/// gates and the binding read must be known; then every enabled gate must hold
/// and the bound cell must equal the public value.
pub open spec fn check_result(
    config: HammsterChipConfig,
    rv: RegionView,
    binding: Binding,
    instance: Seq<u64>,
) -> Result<(), Error> {
    if instance.len() != 1 || !binding_ok(config, binding) {
        Err(Error::ConstraintUnsatisfied)
    } else if !rv.witness_known() || !(bound_value(config, rv, binding) is Known) {
        Err(Error::MissingWitness)
    } else if rv.gates_satisfied() && bound_value(config, rv, binding).int_of() == instance[0] as int {
        Ok(())
    } else {
        Err(Error::ConstraintUnsatisfied)
    }
}

/// The configuration that a fresh constraint system gives the circuit.
pub open spec fn fresh_config() -> HammsterChipConfig {
    HammsterChipConfig::declared_at(0, 0, 0)
}

/// The binding that synthesis makes under the fresh configuration.
pub open spec fn fresh_binding() -> Binding {
    Binding {
        cell: AssignedCell { column: fresh_config().hamming_distance, row: 0 },
        instance: fresh_config().instance,
        instance_row: 0,
    }
}

/// The outcome of proving the circuit with inputs `a`, `b` against `instance`.
pub open spec fn prove_result(a: Seq<Value>, b: Seq<Value>, instance: Seq<u64>) -> Result<
    (),
    Error,
> {
    if !inputs_fit(a, b) {
        Err(Error::AssignmentError)
    } else {
        check_result(fresh_config(), assigned_region(a, b), fresh_binding(), instance)
    }
}

/// Eight known bits.
pub open spec fn is_bit_vector(a: Seq<Value>) -> bool {
    &&& a.len() == BINARY_LENGTH
    &&& forall|i: int|
        0 <= i < BINARY_LENGTH ==> a[i] == Value::Known(0) || a[i] == Value::Known(1)
}

/// The number of positions among the first `n` at which two vectors differ.
pub open spec fn hamming_distance(a: Seq<Value>, b: Seq<Value>, n: nat) -> int
    decreases n,
{
    if n == 0 {
        0
    } else {
        hamming_distance(a, b, (n - 1) as nat) + if a[n - 1] != b[n - 1] {
            1int
        } else {
            0int
        }
    }
}

fn int_of_cell(v: Value) -> (r: i128)
    ensures
        r == v.int_of(),
{
    match v {
        Value::Known(x) => x as i128,
        Value::Unknown => 0,
    }
}

fn known_at(col: &Vec<Value>, r: usize) -> (k: bool)
    ensures
        k == cell_known(col@, r as int),
{
    if r < col.len() {
        col[r].is_known()
    } else {
        true
    }
}

/// Checks the witness-known condition of one row.
fn row_known_exec(region: &Region, r: usize) -> (k: bool)
    requires
        region.wf(),
        r < BINARY_LENGTH,
    ensures
        k == region@.row_known(r as int),
{
    if region.s1[r] && !region.input_a[r].is_known() {
        return false;
    }
    if region.s2[r] && !region.input_b[r].is_known() {
        return false;
    }
    if region.s_sum[r] && !(region.input_a[r].is_known() && region.input_b[r].is_known()
        && region.sum[r].is_known()) {
        return false;
    }
    if region.s_hamming[r] {
        if !region.hamming_distance[r].is_known() {
            return false;
        }
        let mut j: usize = 0;
        while j < BINARY_LENGTH
            invariant
                region.wf(),
                r < BINARY_LENGTH,
                j <= BINARY_LENGTH,
                region@.s_hamming[r as int],
                region@.hamming_distance[r as int] is Known,
                region@.s1[r as int] ==> region@.input_a[r as int] is Known,
                region@.s2[r as int] ==> region@.input_b[r as int] is Known,
                region@.s_sum[r as int] ==> region@.input_a[r as int] is Known
                    && region@.input_b[r as int] is Known && region@.sum[r as int] is Known,
                window_known(region@.sum, r as int, j as nat),
            decreases BINARY_LENGTH - j,
        {
            if !known_at(&region.sum, r + j) {
                proof {
                    if window_known(region@.sum, r as int, BINARY_LENGTH as nat) {
                        lemma_window_known_prefix(
                            region@.sum,
                            r as int,
                            (j + 1) as nat,
                            BINARY_LENGTH as nat,
                        );
                    }
                    assert(!window_known(region@.sum, r as int, (j + 1) as nat));
                }
                return false;
            }
            j = j + 1;
        }
    }
    true
}

proof fn lemma_window_known_prefix(col: Seq<Value>, r: int, m: nat, n: nat)
    requires
        m <= n,
        window_known(col, r, n),
    ensures
        window_known(col, r, m),
    decreases n,
{
    if m < n {
        lemma_window_known_prefix(col, r, m, (n - 1) as nat);
    }
}

proof fn lemma_window_sum_bound(col: Seq<Value>, r: int, n: nat, bound: int)
    requires
        bound >= 0,
        forall|i: int| 0 <= i < col.len() ==> col[i].within(bound),
    ensures
        -(n * bound) <= window_sum(col, r, n) <= n * bound,
    decreases n,
{
    if n > 0 {
        lemma_window_sum_bound(col, r, (n - 1) as nat, bound);
        let k = r + n - 1;
        if 0 <= k < col.len() {
            assert(col[k].within(bound));
        }
        assert(-bound <= cell_int(col, k) <= bound);
        assert(n * bound == (n - 1) * bound + bound) by (nonlinear_arith);
    }
}

/// Evaluates the gates enabled at one row.
fn row_satisfied_exec(region: &Region, r: usize) -> (s: bool)
    requires
        region.wf(),
        r < BINARY_LENGTH,
        region@.cells_within(MAX_CELL as int),
    ensures
        s == region@.row_satisfied(r as int),
{
    let a = int_of_cell(region.input_a[r]);
    let b = int_of_cell(region.input_b[r]);
    let m = MAX_CELL as i128;
    proof {
        assert(-m * m <= a * b <= m * m) by (nonlinear_arith)
            requires
                -m <= a <= m,
                -m <= b <= m,
                m >= 0,
        ;
        assert(2 * a * b == 2 * (a * b)) by (nonlinear_arith);
        assert(-m * (m + 1) <= a * (1 - a) <= m * (m + 1)) by (nonlinear_arith)
            requires
                -m <= a <= m,
                m >= 0,
        ;
        assert(-m * (m + 1) <= b * (1 - b) <= m * (m + 1)) by (nonlinear_arith)
            requires
                -m <= b <= m,
                m >= 0,
        ;
    }
    if region.s1[r] && a * (1 - a) != 0 {
        return false;
    }
    if region.s2[r] && b * (1 - b) != 0 {
        return false;
    }
    let ab = a * b;
    if region.s_sum[r] && int_of_cell(region.sum[r]) != a + b - 2 * ab {
        return false;
    }
    if region.s_hamming[r] {
        let mut acc: i128 = 0;
        let mut j: usize = 0;
        while j < BINARY_LENGTH
            invariant
                region.wf(),
                region@.cells_within(MAX_CELL as int),
                r < BINARY_LENGTH,
                j <= BINARY_LENGTH,
                acc == window_sum(region@.sum, r as int, j as nat),
            decreases BINARY_LENGTH - j,
        {
            proof {
                assert forall|i: int| 0 <= i < region@.sum.len() implies region@.sum[i].within(
                    MAX_CELL as int,
                ) by {}
                lemma_window_sum_bound(region@.sum, r as int, j as nat, MAX_CELL as int);
                assert(j * MAX_CELL <= 8 * MAX_CELL) by (nonlinear_arith)
                    requires
                        j <= 8,
                ;
            }
            if r + j < BINARY_LENGTH {
                acc = acc + int_of_cell(region.sum[r + j]);
            }
            j = j + 1;
        }
        if int_of_cell(region.hamming_distance[r]) != acc {
            return false;
        }
    }
    true
}

/// Checks a filled region and its binding against the public input, as a
/// prover would before producing a proof.
pub fn check_constraints(
    config: &HammsterChipConfig,
    region: &Region,
    binding: &Binding,
    instance: &Vec<u64>,
) -> (r: Result<(), Error>)
    requires
        config.wf(),
        region.wf(),
        region@.cells_within(MAX_CELL as int),
    ensures
        r == check_result(*config, region@, *binding, instance@),
{
    let ok_binding = binding.instance == config.instance && binding.instance_row == 0 && (
    binding.cell.column == config.input_a || binding.cell.column == config.input_b
        || binding.cell.column == config.sum || binding.cell.column == config.hamming_distance)
        && binding.cell.row < BINARY_LENGTH;
    if instance.len() != 1 || !ok_binding {
        return Err(Error::ConstraintUnsatisfied);
    }
    assert(binding_ok(*config, *binding));
    let row = binding.cell.row;
    let column = binding.cell.column;
    let bound = if column == config.input_a {
        region.input_a[row]
    } else if column == config.input_b {
        region.input_b[row]
    } else if column == config.sum {
        region.sum[row]
    } else {
        region.hamming_distance[row]
    };
    let mut i: usize = 0;
    while i < BINARY_LENGTH
        invariant
            region.wf(),
            instance@.len() == 1,
            binding_ok(*config, *binding),
            bound == bound_value(*config, region@, *binding),
            i <= BINARY_LENGTH,
            forall|j: int| 0 <= j < i ==> region@.row_known(j),
        decreases BINARY_LENGTH - i,
    {
        if !row_known_exec(region, i) {
            assert(!region@.witness_known());
            return Err(Error::MissingWitness);
        }
        i = i + 1;
    }
    if !bound.is_known() {
        return Err(Error::MissingWitness);
    }
    let mut k: usize = 0;
    while k < BINARY_LENGTH
        invariant
            region.wf(),
            instance@.len() == 1,
            binding_ok(*config, *binding),
            bound == bound_value(*config, region@, *binding),
            bound is Known,
            region@.cells_within(MAX_CELL as int),
            region@.witness_known(),
            k <= BINARY_LENGTH,
            forall|j: int| 0 <= j < k ==> region@.row_satisfied(j),
        decreases BINARY_LENGTH - k,
    {
        if !row_satisfied_exec(region, k) {
            assert(!region@.gates_satisfied());
            return Err(Error::ConstraintUnsatisfied);
        }
        k = k + 1;
    }
    if int_of_cell(bound) == instance[0] as i128 {
        Ok(())
    } else {
        Err(Error::ConstraintUnsatisfied)
    }
}

proof fn lemma_assigned_cells_within(a: Seq<Value>, b: Seq<Value>)
    requires
        inputs_fit(a, b),
    ensures
        assigned_region(a, b).cells_within(MAX_CELL as int),
{
    let rv = assigned_region(a, b);
    lemma_hamming_value_bound(a, b, BINARY_LENGTH as nat);
    assert(4 * 8 * MAX_INPUT * MAX_INPUT <= MAX_CELL);
    assert forall|r: int| 0 <= r < BINARY_LENGTH implies {
        &&& rv.input_a[r].within(MAX_CELL as int)
        &&& rv.input_b[r].within(MAX_CELL as int)
        &&& rv.sum[r].within(MAX_CELL as int)
        &&& rv.hamming_distance[r].within(MAX_CELL as int)
    } by {
        lemma_xor_bounds(a[r].int_of(), b[r].int_of());
    }
}

/// Proves a circuit against a public input: configures a fresh constraint
/// system, synthesizes the circuit into it and checks every constraint. `Ok`
/// exactly when the witness is complete, satisfies every enabled gate and its
/// Hamming distance equals the single public value.
pub fn mock_prove(circuit: &HammsterCircuit, instance: &Vec<u64>) -> (r: Result<(), Error>)
    ensures
        r == prove_result(circuit.input_a@, circuit.input_b@, instance@),
{
    let mut meta = ConstraintSystem::new();
    let config = HammsterCircuit::configure(&mut meta);
    let synthesis = circuit.synthesize(&config, &meta)?;
    proof {
        lemma_assigned_cells_within(circuit.input_a@, circuit.input_b@);
    }
    check_constraints(&config.hammsterchip_config, &synthesis.region, &synthesis.binding, instance)
}

proof fn lemma_window_known_all(col: Seq<Value>, r: int, n: nat)
    requires
        forall|i: int| 0 <= i < col.len() ==> col[i] is Known,
    ensures
        window_known(col, r, n),
    decreases n,
{
    if n > 0 {
        lemma_window_known_all(col, r, (n - 1) as nat);
    }
}

proof fn lemma_bits_hamming(a: Seq<Value>, b: Seq<Value>, n: nat)
    requires
        is_bit_vector(a),
        is_bit_vector(b),
        n <= BINARY_LENGTH,
    ensures
        0 <= hamming_distance(a, b, n) <= n,
        hamming_value(a, b, n) == Value::Known(hamming_distance(a, b, n) as i64),
        window_sum(assigned_region(a, b).sum, 0, n) == hamming_distance(a, b, n),
    decreases n,
{
    if n > 0 {
        lemma_bits_hamming(a, b, (n - 1) as nat);
        let i = n - 1;
        assert(a[i] == Value::Known(0) || a[i] == Value::Known(1));
        assert(b[i] == Value::Known(0) || b[i] == Value::Known(1));
        assert(assigned_region(a, b).sum[i] == a[i].xor_spec(b[i]));
    }
}

/// For two vectors of eight bits, proving against the public value `d`
/// succeeds exactly when `d` is the number of positions at which they differ;
/// otherwise the constraints are unsatisfied.
pub proof fn lemma_prove_iff_distance(a: Seq<Value>, b: Seq<Value>, d: u64)
    requires
        is_bit_vector(a),
        is_bit_vector(b),
    ensures
        prove_result(a, b, seq![d]) is Ok <==> d == hamming_distance(a, b, BINARY_LENGTH as nat),
        prove_result(a, b, seq![d]) is Err ==> prove_result(a, b, seq![d]) == Err::<(), Error>(
            Error::ConstraintUnsatisfied,
        ),
{
    let rv = assigned_region(a, b);
    lemma_bits_hamming(a, b, BINARY_LENGTH as nat);
    assert(inputs_fit(a, b));
    lemma_window_known_all(rv.sum, 0, BINARY_LENGTH as nat);
    assert forall|r: int| 0 <= r < BINARY_LENGTH implies rv.row_known(r) by {
        if r == 0 {
            lemma_window_known_all(rv.sum, r, BINARY_LENGTH as nat);
        }
    }
    assert forall|r: int| 0 <= r < BINARY_LENGTH implies rv.row_satisfied(r) by {
        assert(a[r] == Value::Known(0) || a[r] == Value::Known(1));
        assert(b[r] == Value::Known(0) || b[r] == Value::Known(1));
        let x = a[r].int_of();
        let y = b[r].int_of();
        assert(x * (1 - x) == 0 && y * (1 - y) == 0 && 0 <= xor_int(x, y) <= 1) by (
        nonlinear_arith)
            requires
                x == 0 || x == 1,
                y == 0 || y == 1,
        ;
        assert(rv.sum[r] == Value::Known(xor_int(x, y) as i64));
        if r == 0 {
            assert(rv.hamming_distance[0] == hamming_value(a, b, BINARY_LENGTH as nat));
        } else {
            assert(!rv.s_hamming[r]);
        }
    }
    assert(bound_value(fresh_config(), rv, fresh_binding()) == rv.hamming_distance[0]);
}

/// Soundness: whatever the inputs, a successful proof means both are vectors
/// of eight bits and the public value is the number of positions at which they
/// differ.
pub proof fn lemma_proof_implies_distance(a: Seq<Value>, b: Seq<Value>, d: u64)
    requires
        prove_result(a, b, seq![d]) is Ok,
    ensures
        is_bit_vector(a),
        is_bit_vector(b),
        d == hamming_distance(a, b, BINARY_LENGTH as nat),
{
    let rv = assigned_region(a, b);
    assert forall|r: int| 0 <= r < BINARY_LENGTH implies (a[r] == Value::Known(0) || a[r]
        == Value::Known(1)) && (b[r] == Value::Known(0) || b[r] == Value::Known(1)) by {
        assert(rv.row_known(r));
        assert(rv.row_satisfied(r));
        let x = a[r].int_of();
        let y = b[r].int_of();
        assert(x == 0 || x == 1) by (nonlinear_arith)
            requires
                x * (1 - x) == 0,
        ;
        assert(y == 0 || y == 1) by (nonlinear_arith)
            requires
                y * (1 - y) == 0,
        ;
    }
    lemma_prove_iff_distance(a, b, d);
}

/// A proof that holds for the public value `d` fails for every other value:
/// the public input is bound to the witness.
pub proof fn lemma_public_input_binds(a: Seq<Value>, b: Seq<Value>, d: u64, e: u64)
    requires
        prove_result(a, b, seq![d]) is Ok,
        d != e,
    ensures
        prove_result(a, b, seq![e]) is Err,
{
    assert(seq![d][0] == d);
    assert(seq![e][0] == e);
}

/// The witness-free circuit fits the region, so it can be synthesized for key
/// derivation, but proving it fails for every public value because its cells
/// are unknown.
pub proof fn lemma_witness_free_rejected(d: u64)
    ensures
        inputs_fit(unknown_inputs(), unknown_inputs()),
        prove_result(unknown_inputs(), unknown_inputs(), seq![d]) == Err::<(), Error>(
            Error::MissingWitness,
        ),
{
    let rv = assigned_region(unknown_inputs(), unknown_inputs());
    assert(!rv.row_known(0));
}

/// Checking the same region, binding and public input twice gives the same
/// result both times.
pub proof fn lemma_check_deterministic(
    config: HammsterChipConfig,
    rv: RegionView,
    binding: Binding,
    instance: Seq<u64>,
    r1: Result<(), Error>,
    r2: Result<(), Error>,
)
    requires
        r1 == check_result(config, rv, binding, instance),
        r2 == check_result(config, rv, binding, instance),
    ensures
        r1 == r2,
{
}

} // verus!
