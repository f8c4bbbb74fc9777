//! Arithmetic questions for the revival challenge and the digit buffer that
//! answers them.
use crate::random::random_in;
use vstd::prelude::*;

verus! {

/// The three kinds of question.
#[derive(Clone, Copy, PartialEq, Eq, Structural, Debug)]
pub enum Operation {
    /// Two two-digit numbers, each in `10..99`.
    Add,
    /// A minuend in `20..99` and a subtrahend in `10..minuend`.
    Subtract,
    /// Two factors in `2..10`.
    Multiply,
}

/// Longest answer the buffer holds, in digits.
pub const MAX_DIGITS: usize = 4;

/// Whether the operands are the ones this kind of question is drawn from.
pub open spec fn operands_ok(op: Operation, lhs: int, rhs: int) -> bool {
    match op {
        Operation::Add => 10 <= lhs < 99 && 10 <= rhs < 99,
        Operation::Subtract => 20 <= lhs < 99 && 10 <= rhs < lhs,
        Operation::Multiply => 2 <= lhs < 10 && 2 <= rhs < 10,
    }
}

/// The value of the operation on its operands.
pub open spec fn evaluate(op: Operation, lhs: int, rhs: int) -> int {
    match op {
        Operation::Add => lhs + rhs,
        Operation::Subtract => lhs - rhs,
        Operation::Multiply => lhs * rhs,
    }
}

pub open spec fn digit_char(d: int) -> char {
    if d == 0 {
        '0'
    } else if d == 1 {
        '1'
    } else if d == 2 {
        '2'
    } else if d == 3 {
        '3'
    } else if d == 4 {
        '4'
    } else if d == 5 {
        '5'
    } else if d == 6 {
        '6'
    } else if d == 7 {
        '7'
    } else if d == 8 {
        '8'
    } else {
        '9'
    }
}

/// Decimal text of a natural number, without leading zeros.
pub open spec fn decimal(n: nat) -> Seq<char>
    decreases n,
{
    if n < 10 {
        seq![digit_char(n as int)]
    } else {
        decimal(n / 10).push(digit_char((n % 10) as int))
    }
}

pub open spec fn symbol(op: Operation) -> char {
    match op {
        Operation::Add => '+',
        Operation::Subtract => '-',
        Operation::Multiply => '\u{d7}',
    }
}

/// The question as shown: `"7 × 8 = ?"`.
pub open spec fn question_text(op: Operation, lhs: nat, rhs: nat) -> Seq<char> {
    decimal(lhs) + seq![' ', symbol(op), ' '] + decimal(rhs) + seq![' ', '=', ' ', '?']
}

/// Value of a sequence of decimal digits, most significant first.
pub open spec fn digits_value(s: Seq<u8>) -> nat
    decreases s.len(),
{
    if s.len() == 0 {
        0
    } else {
        digits_value(s.drop_last()) * 10 + s.last() as nat
    }
}

pub open spec fn all_digits(s: Seq<u8>) -> bool {
    forall|i: int| 0 <= i < s.len() ==> #[trigger] s[i] <= 9
}

/// What a typed answer reads as: nothing for an empty buffer.
pub open spec fn parsed(s: Seq<u8>) -> Option<nat> {
    if s.len() == 0 {
        None
    } else {
        Some(digits_value(s))
    }
}

/// A question and its answer, produced together.
pub struct Quiz {
    pub op: Operation,
    pub lhs: u32,
    pub rhs: u32,
    pub answer: u32,
    pub question: String,
}

impl Quiz {
    /// Operands in range, the answer is the operation on the operands, and the
    /// text states that operation on those operands.
    pub open spec fn wf(&self) -> bool {
        &&& operands_ok(self.op, self.lhs as int, self.rhs as int)
        &&& self.answer == evaluate(self.op, self.lhs as int, self.rhs as int)
        &&& self.question@ == question_text(self.op, self.lhs as nat, self.rhs as nat)
    }

    /// The question `lhs op rhs = ?` with its answer.
    pub fn new(op: Operation, lhs: u32, rhs: u32) -> (r: Quiz)
        requires
            operands_ok(op, lhs as int, rhs as int),
        ensures
            r.wf(),
            r.op == op,
            r.lhs == lhs,
            r.rhs == rhs,
    {
        if op == Operation::Multiply {
            assert(lhs * rhs < 100) by (nonlinear_arith)
                requires lhs < 10, rhs < 10;
        }
        let answer: u32 = match op {
            Operation::Add => lhs + rhs,
            Operation::Subtract => lhs - rhs,
            Operation::Multiply => lhs * rhs,
        };
        let mut question = String::new();
        push_decimal(&mut question, lhs);
        push_char(&mut question, ' ');
        let sym: char = match op {
            Operation::Add => '+',
            Operation::Subtract => '-',
            Operation::Multiply => '\u{d7}',
        };
        push_char(&mut question, sym);
        push_char(&mut question, ' ');
        push_decimal(&mut question, rhs);
        push_char(&mut question, ' ');
        push_char(&mut question, '=');
        push_char(&mut question, ' ');
        push_char(&mut question, '?');
        assert(question@ =~= question_text(op, lhs as nat, rhs as nat));
        Quiz { op, lhs, rhs, answer, question }
    }

    /// Whether a typed answer is this question's answer.
    pub fn accepts(&self, typed: &Vec<u8>) -> (r: bool)
        requires
            typed@.len() <= MAX_DIGITS,
            all_digits(typed@),
        ensures
            r == (parsed(typed@) == Some(self.answer as nat)),
    {
        if typed.len() == 0 {
            false
        } else {
            let v = read_digits(typed);
            v == self.answer
        }
    }
}

/// Relies on `String::push`: appends the character at the end.
#[verifier::external_body]
fn push_char(s: &mut String, c: char)
    ensures
        final(s)@ == old(s)@.push(c),
{
    s.push(c)
}

fn digit(d: u32) -> (c: char)
    requires
        d <= 9,
    ensures
        c == digit_char(d as int),
{
    if d == 0 {
        '0'
    } else if d == 1 {
        '1'
    } else if d == 2 {
        '2'
    } else if d == 3 {
        '3'
    } else if d == 4 {
        '4'
    } else if d == 5 {
        '5'
    } else if d == 6 {
        '6'
    } else if d == 7 {
        '7'
    } else if d == 8 {
        '8'
    } else {
        '9'
    }
}

/// Appends the decimal text of a number below a hundred.
fn push_decimal(s: &mut String, n: u32)
    requires
        n < 100,
    ensures
        final(s)@ == old(s)@ + decimal(n as nat),
{
    reveal_with_fuel(decimal, 2);
    if n >= 10 {
        push_char(s, digit(n / 10));
    }
    push_char(s, digit(n % 10));
}

/// The value of a buffer of at most four decimal digits.
pub fn read_digits(s: &Vec<u8>) -> (r: u32)
    requires
        s@.len() <= MAX_DIGITS,
        all_digits(s@),
    ensures
        r == digits_value(s@),
{
    let mut v: u32 = 0;
    let mut i: usize = 0;
    while i < s.len()
        invariant
            i <= s@.len() <= MAX_DIGITS,
            all_digits(s@),
            v == digits_value(s@.subrange(0, i as int)),
            v < pow10(i as nat),
        decreases s@.len() - i,
    {
        assert(s@.subrange(0, i as int + 1).drop_last() =~= s@.subrange(0, i as int));
        assert(pow10(i as nat) <= 1000) by {
            reveal_with_fuel(pow10, 4);
        }
        v = v * 10 + s[i] as u32;
        i += 1;
    }
    assert(s@.subrange(0, s@.len() as int) =~= s@);
    v
}

pub open spec fn pow10(n: nat) -> nat
    decreases n,
{
    if n == 0 {
        1
    } else {
        10 * pow10((n - 1) as nat)
    }
}

/// The text of a digit buffer, for display.
pub fn digits_text(s: &Vec<u8>) -> (r: String)
    requires
        all_digits(s@),
    ensures
        r@ == s@.map_values(|d: u8| digit_char(d as int)),
{
    let mut r = String::new();
    let mut i: usize = 0;
    while i < s.len()
        invariant
            i <= s@.len(),
            all_digits(s@),
            r@ == s@.subrange(0, i as int).map_values(|d: u8| digit_char(d as int)),
        decreases s@.len() - i,
    {
        push_char(&mut r, digit(s[i] as u32));
        i += 1;
        assert(r@ =~= s@.subrange(0, i as int).map_values(|d: u8| digit_char(d as int)));
    }
    assert(s@.subrange(0, s@.len() as int) =~= s@);
    r
}

} // verus!

verus! {

impl Quiz {
    /// A fresh question: one of the three kinds, chosen uniformly, with
    /// operands drawn from that kind's ranges.
    pub fn random() -> (r: Quiz)
        ensures
            r.wf(),
    {
        let kind = random_in(0, 3);
        if kind == 0 {
            let a = random_in(10, 99);
            let b = random_in(10, 99);
            Quiz::new(Operation::Add, a as u32, b as u32)
        } else if kind == 1 {
            let a = random_in(20, 99);
            let b = random_in(10, a);
            Quiz::new(Operation::Subtract, a as u32, b as u32)
        } else {
            let a = random_in(2, 10);
            let b = random_in(2, 10);
            Quiz::new(Operation::Multiply, a as u32, b as u32)
        }
    }
}

} // verus!
