use vstd::prelude::*;
use vstd::string::*;

use crate::circuit::BINARY_LENGTH;
use crate::field::Value;

verus! {

/// An edit of one of the three text fields, or a press of the prove button.
pub enum Message {
    InputAChanged(String),
    InputBChanged(String),
    HammingDistanceChanged(String),
    ButtonPressed,
}

/// The text of the three fields: two vectors of eight digits and the claimed
/// Hamming distance.
pub struct Hammster {
    pub input_a: String,
    pub input_b: String,
    pub hamming_distance: String,
}

/// What a press of the button asks for: prove the two vectors against the
/// public input, then verify the proof.
pub struct ProofRequest {
    pub input_a: Vec<Value>,
    pub input_b: Vec<Value>,
    pub public_input: Vec<u64>,
}

/// What the shell should do after a message.
pub enum Action {
    /// Nothing beyond the edit of a field.
    Idle,
    /// Prove and verify this request.
    Prove(ProofRequest),
    /// The fields do not hold two vectors of eight digits and a number.
    Reject,
}

/// The value of a decimal digit character.
pub open spec fn digit_of(c: char) -> Option<int> {
    if 48 <= (c as u32) <= 57 {
        Some((c as u32) - 48)
    } else {
        None
    }
}

/// Eight digit characters, read one cell per character.
pub open spec fn parse_bits(s: Seq<char>) -> Option<Seq<Value>> {
    if s.len() == BINARY_LENGTH && forall|i: int| 0 <= i < s.len() ==> digit_of(s[i]) is Some {
        Some(Seq::new(s.len(), |i: int| Value::Known(digit_of(s[i])->Some_0 as i64)))
    } else {
        None
    }
}

/// The number that a string of decimal digits denotes.
pub open spec fn decimal_value(s: Seq<char>) -> int
    decreases s.len(),
{
    if s.len() == 0 {
        0
    } else {
        decimal_value(s.drop_last()) * 10 + digit_of(s.last())->Some_0
    }
}

/// A non-empty string of decimal digits whose value fits in a `u64`.
pub open spec fn parse_decimal(s: Seq<char>) -> Option<u64> {
    if s.len() > 0 && (forall|i: int| 0 <= i < s.len() ==> digit_of(s[i]) is Some) && decimal_value(
        s,
    ) <= u64::MAX {
        Some(decimal_value(s) as u64)
    } else {
        None
    }
}

fn digit(c: char) -> (r: Option<u64>)
    ensures
        r is Some <==> digit_of(c) is Some,
        r is Some ==> r->Some_0 == digit_of(c)->Some_0,
{
    let u = c as u32;
    if 48 <= u && u <= 57 {
        Some((u - 48) as u64)
    } else {
        None
    }
}

/// Reads eight digit characters into eight known cells.
pub fn read_bits(s: &str) -> (r: Option<Vec<Value>>)
    ensures
        r is Some <==> parse_bits(s@) is Some,
        r is Some ==> r->Some_0@ == parse_bits(s@)->Some_0,
{
    let n = s.unicode_len();
    if n != BINARY_LENGTH {
        return None;
    }
    let mut out: Vec<Value> = Vec::new();
    let mut i: usize = 0;
    while i < n
        invariant
            n == s@.len(),
            i <= n,
            out@.len() == i,
            forall|j: int| 0 <= j < i ==> digit_of(s@[j]) is Some,
            forall|j: int|
                0 <= j < i ==> out@[j] == Value::Known(digit_of(s@[j])->Some_0 as i64),
        decreases n - i,
    {
        let c = s.get_char(i);
        match digit(c) {
            Some(d) => {
                out.push(Value::Known(d as i64));
            },
            None => {
                return None;
            },
        }
        i = i + 1;
    }
    assert(out@ =~= parse_bits(s@)->Some_0);
    Some(out)
}

/// Reads a non-empty string of decimal digits as a `u64`; `None` on any other
/// character or when the value does not fit.
pub fn read_decimal(s: &str) -> (r: Option<u64>)
    ensures
        r == parse_decimal(s@),
{
    let n = s.unicode_len();
    if n == 0 {
        return None;
    }
    let mut acc: u64 = 0;
    let mut fits = true;
    let mut i: usize = 0;
    while i < n
        invariant
            n == s@.len(),
            n > 0,
            i <= n,
            forall|j: int| 0 <= j < i ==> digit_of(s@[j]) is Some,
            fits ==> acc == decimal_value(s@.subrange(0, i as int)),
            !fits ==> decimal_value(s@.subrange(0, i as int)) > u64::MAX,
        decreases n - i,
    {
        let c = s.get_char(i);
        let d = match digit(c) {
            Some(d) => d,
            None => {
                return None;
            },
        };
        proof {
            let p = s@.subrange(0, i as int + 1);
            assert(p.drop_last() =~= s@.subrange(0, i as int));
            assert(p.last() == c);
            lemma_decimal_value_nonneg(s@.subrange(0, i as int));
        }
        if fits {
            if acc <= (u64::MAX - d) / 10 {
                acc = acc * 10 + d;
            } else {
                fits = false;
            }
        }
        i = i + 1;
    }
    assert(s@.subrange(0, n as int) =~= s@);
    if fits {
        Some(acc)
    } else {
        None
    }
}

proof fn lemma_decimal_value_nonneg(s: Seq<char>)
    requires
        forall|i: int| 0 <= i < s.len() ==> digit_of(s[i]) is Some,
    ensures
        decimal_value(s) >= 0,
    decreases s.len(),
{
    if s.len() > 0 {
        assert(digit_of(s[s.len() - 1]) is Some);
        assert forall|i: int| 0 <= i < s.len() - 1 implies digit_of(s.drop_last()[i]) is Some by {
            assert(s.drop_last()[i] == s[i]);
        }
        lemma_decimal_value_nonneg(s.drop_last());
    }
}

/// The request that the button makes from the three fields, if they parse.
pub open spec fn request_of(a: Seq<char>, b: Seq<char>, d: Seq<char>) -> Option<
    (Seq<Value>, Seq<Value>, u64),
> {
    if parse_bits(a) is Some && parse_bits(b) is Some && parse_decimal(d) is Some {
        Some((parse_bits(a)->Some_0, parse_bits(b)->Some_0, parse_decimal(d)->Some_0))
    } else {
        None
    }
}

impl Hammster {
    pub fn new() -> (r: Hammster)
        ensures
            r.input_a@ == Seq::<char>::empty(),
            r.input_b@ == Seq::<char>::empty(),
            r.hamming_distance@ == Seq::<char>::empty(),
    {
        Hammster { input_a: String::new(), input_b: String::new(), hamming_distance: String::new() }
    }

    pub fn title(&self) -> (r: String)
        ensures
            r@ == "Hammster"@,
    {
        String::from_str("Hammster")
    }

    /// Applies one message. An edit replaces the text of its field and asks
    /// for nothing; a press of the button leaves the fields as they are and
    /// asks to prove the parsed request, or rejects fields that do not parse.
    pub fn update(&mut self, message: Message) -> (r: Action)
        ensures
            message is InputAChanged ==> {
                &&& final(self).input_a@ == message->InputAChanged_0@
                &&& final(self).input_b@ == old(self).input_b@
                &&& final(self).hamming_distance@ == old(self).hamming_distance@
                &&& r is Idle
            },
            message is InputBChanged ==> {
                &&& final(self).input_a@ == old(self).input_a@
                &&& final(self).input_b@ == message->InputBChanged_0@
                &&& final(self).hamming_distance@ == old(self).hamming_distance@
                &&& r is Idle
            },
            message is HammingDistanceChanged ==> {
                &&& final(self).input_a@ == old(self).input_a@
                &&& final(self).input_b@ == old(self).input_b@
                &&& final(self).hamming_distance@ == message->HammingDistanceChanged_0@
                &&& r is Idle
            },
            message is ButtonPressed ==> {
                let req = request_of(
                    old(self).input_a@,
                    old(self).input_b@,
                    old(self).hamming_distance@,
                );
                &&& final(self).input_a@ == old(self).input_a@
                &&& final(self).input_b@ == old(self).input_b@
                &&& final(self).hamming_distance@ == old(self).hamming_distance@
                &&& (req is None <==> r is Reject)
                &&& (req is Some <==> r is Prove)
                &&& (r is Prove ==> {
                    &&& r->Prove_0.input_a@ == req->Some_0.0
                    &&& r->Prove_0.input_b@ == req->Some_0.1
                    &&& r->Prove_0.public_input@ == seq![req->Some_0.2]
                })
            },
    {
        match message {
            Message::InputAChanged(value) => {
                self.input_a = value;
                Action::Idle
            },
            Message::InputBChanged(value) => {
                self.input_b = value;
                Action::Idle
            },
            Message::HammingDistanceChanged(value) => {
                self.hamming_distance = value;
                Action::Idle
            },
            Message::ButtonPressed => {
                let a = read_bits(self.input_a.as_str());
                let b = read_bits(self.input_b.as_str());
                let d = read_decimal(self.hamming_distance.as_str());
                match (a, b, d) {
                    (Some(input_a), Some(input_b), Some(d)) => {
                        let mut public_input: Vec<u64> = Vec::new();
                        public_input.push(d);
                        assert(public_input@ =~= seq![d]);
                        Action::Prove(ProofRequest { input_a, input_b, public_input })
                    },
                    _ => Action::Reject,
                }
            },
        }
    }
}

} // verus!
