use vstd::prelude::*;

verus! {

/// Largest magnitude an input cell may hold, so that every value derived from
/// two inputs in one region (products, the XOR form, the sum over the region)
/// stays far inside the range of `i64` and of the proof system's field.
pub const MAX_INPUT: i64 = 1048576;

/// A cell value: either a known element or an unknown placeholder.
///
/// Known elements are kept as integers. Every value the circuit ever holds is
/// far below the field's modulus, so two of them are equal in the field exactly
/// when they are equal as integers.
#[derive(Clone, Copy, Debug, PartialEq, Eq, Structural)]
pub enum Value {
    Known(i64),
    Unknown,
}

/// The arithmetized XOR of two field elements: `a + b - 2ab`.
pub open spec fn xor_int(a: int, b: int) -> int {
    a + b - 2 * a * b
}

/// Whether `x` is a boolean field element.
pub open spec fn is_bit(x: int) -> bool {
    x == 0 || x == 1
}

impl Value {
    pub open spec fn is_known_spec(self) -> bool {
        self is Known
    }

    /// The value as an integer; only meaningful when the value is known.
    pub open spec fn int_of(self) -> int {
        match self {
            Value::Known(v) => v as int,
            Value::Unknown => 0,
        }
    }

    /// A known value whose magnitude is at most `bound`.
    pub open spec fn within(self, bound: int) -> bool {
        match self {
            Value::Known(v) => -bound <= v <= bound,
            Value::Unknown => true,
        }
    }

    /// An input cell that the region's arithmetic can hold.
    pub open spec fn fits_input(self) -> bool {
        self.within(MAX_INPUT as int)
    }

    /// Sum with unknown propagation.
    pub open spec fn plus_spec(self, o: Value) -> Value {
        match (self, o) {
            (Value::Known(a), Value::Known(b)) => Value::Known((a + b) as i64),
            _ => Value::Unknown,
        }
    }

    /// Difference with unknown propagation.
    pub open spec fn minus_spec(self, o: Value) -> Value {
        match (self, o) {
            (Value::Known(a), Value::Known(b)) => Value::Known((a - b) as i64),
            _ => Value::Unknown,
        }
    }

    /// Product with unknown propagation.
    pub open spec fn times_spec(self, o: Value) -> Value {
        match (self, o) {
            (Value::Known(a), Value::Known(b)) => Value::Known((a * b) as i64),
            _ => Value::Unknown,
        }
    }

    /// The arithmetized XOR of two values, unknown when either is.
    pub open spec fn xor_spec(self, o: Value) -> Value {
        match (self, o) {
            (Value::Known(a), Value::Known(b)) => Value::Known(xor_int(a as int, b as int) as i64),
            _ => Value::Unknown,
        }
    }

    pub fn known(v: i64) -> (r: Value)
        ensures
            r == Value::Known(v),
    {
        Value::Known(v)
    }

    pub fn unknown() -> (r: Value)
        ensures
            r == Value::Unknown,
    {
        Value::Unknown
    }

    pub fn is_known(&self) -> (r: bool)
        ensures
            r == self.is_known_spec(),
    {
        match self {
            Value::Known(_) => true,
            Value::Unknown => false,
        }
    }

    pub fn plus(self, o: Value) -> (r: Value)
        requires
            self.is_known_spec() && o.is_known_spec() ==> i64::MIN <= self.int_of() + o.int_of()
                <= i64::MAX,
        ensures
            r == self.plus_spec(o),
    {
        match (self, o) {
            (Value::Known(a), Value::Known(b)) => Value::Known(a + b),
            _ => Value::Unknown,
        }
    }

    pub fn minus(self, o: Value) -> (r: Value)
        requires
            self.is_known_spec() && o.is_known_spec() ==> i64::MIN <= self.int_of() - o.int_of()
                <= i64::MAX,
        ensures
            r == self.minus_spec(o),
    {
        match (self, o) {
            (Value::Known(a), Value::Known(b)) => Value::Known(a - b),
            _ => Value::Unknown,
        }
    }

    pub fn times(self, o: Value) -> (r: Value)
        requires
            self.is_known_spec() && o.is_known_spec() ==> i64::MIN <= self.int_of() * o.int_of()
                <= i64::MAX,
        ensures
            r == self.times_spec(o),
    {
        match (self, o) {
            (Value::Known(a), Value::Known(b)) => Value::Known(a * b),
            _ => Value::Unknown,
        }
    }

    /// The per-row XOR `a + b - 2ab` of two input cells, built from the
    /// propagating operations.
    pub fn xor(self, o: Value) -> (r: Value)
        requires
            self.fits_input(),
            o.fits_input(),
        ensures
            r == self.xor_spec(o),
            r.within(4 * MAX_INPUT * MAX_INPUT),
    {
        proof {
            lemma_xor_bounds(self.int_of(), o.int_of());
        }
        let two = Value::known(2);
        let prod = two.times(self).times(o);
        self.plus(o).minus(prod)
    }
}

pub proof fn lemma_xor_bounds(a: int, b: int)
    requires
        -(MAX_INPUT as int) <= a <= MAX_INPUT as int,
        -(MAX_INPUT as int) <= b <= MAX_INPUT as int,
    ensures
        -2 * MAX_INPUT <= 2 * a <= 2 * MAX_INPUT,
        -2 * MAX_INPUT * MAX_INPUT <= 2 * a * b <= 2 * MAX_INPUT * MAX_INPUT,
        -4 * MAX_INPUT * MAX_INPUT <= xor_int(a, b) <= 4 * MAX_INPUT * MAX_INPUT,
{
    let m = MAX_INPUT as int;
    assert(-m * m <= a * b <= m * m) by (nonlinear_arith)
        requires
            -m <= a <= m,
            -m <= b <= m,
            m >= 0,
    ;
    assert(2 * a * b == 2 * (a * b)) by (nonlinear_arith);
}

} // verus!
