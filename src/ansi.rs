//! The ANSI escape sequences that spell each terminal operation.
use vstd::prelude::*;
use crate::colour::Colour;
use crate::renderer::TermOp;

verus! {

/// The character of a decimal digit.
pub open spec fn digit_char(d: nat) -> char {
    if d == 0 { '0' }
    else if d == 1 { '1' }
    else if d == 2 { '2' }
    else if d == 3 { '3' }
    else if d == 4 { '4' }
    else if d == 5 { '5' }
    else if d == 6 { '6' }
    else if d == 7 { '7' }
    else if d == 8 { '8' }
    else { '9' }
}

/// A number in decimal, without leading zeros.
pub open spec fn decimal(n: nat) -> Seq<char>
    decreases n,
{
    if n < 10 {
        seq![digit_char(n)]
    } else {
        decimal(n / 10).push(digit_char(n % 10))
    }
}

/// `ESC[{code};2;{r};{g};{b}m`: a 24-bit colour, foreground for code 38 and
/// background for code 48.
pub open spec fn colour_text(code: nat, c: Colour) -> Seq<char> {
    seq!['\x1b', '['] + decimal(code) + seq![';', '2', ';'] + decimal(c.r as nat) + seq![';']
        + decimal(c.g as nat) + seq![';'] + decimal(c.b as nat) + seq!['m']
}

/// The text that performs one operation on the terminal. A flush has none:
/// it is an instruction to the writer.
pub open spec fn op_text(op: TermOp) -> Seq<char> {
    match op {
        TermOp::ResetAttributes => seq!['\x1b', '[', '0', 'm'],
        TermOp::ClearScreen => seq!['\x1b', '[', '2', 'J'],
        TermOp::Plot(col, row, c) => seq!['\x1b', '['] + decimal(row as nat) + seq![';'] + decimal(
            col as nat,
        ) + seq!['H', c],
        TermOp::Foreground(c) => colour_text(38, c),
        TermOp::Background(c) => colour_text(48, c),
        TermOp::Flush => Seq::empty(),
    }
}

/// The text of a sequence of operations, one after the other.
pub open spec fn script_text(ops: Seq<TermOp>) -> Seq<char>
    decreases ops.len(),
{
    if ops.len() == 0 {
        Seq::empty()
    } else {
        script_text(ops.drop_last()) + op_text(ops.last())
    }
}

/// Relies on String::push: the character is appended at the end.
#[verifier::external_body]
fn push_char(s: &mut String, c: char)
    ensures
        final(s)@ == old(s)@.push(c),
{
    s.push(c);
}

fn digit(d: usize) -> (c: char)
    requires
        d < 10,
    ensures
        c == digit_char(d as nat),
{
    match d {
        0 => '0',
        1 => '1',
        2 => '2',
        3 => '3',
        4 => '4',
        5 => '5',
        6 => '6',
        7 => '7',
        8 => '8',
        _ => '9',
    }
}

fn push_decimal(s: &mut String, n: usize)
    ensures
        final(s)@ == old(s)@ + decimal(n as nat),
    decreases n,
{
    if n >= 10 {
        push_decimal(s, n / 10);
    }
    push_char(s, digit(n % 10));
    assert(s@ =~= old(s)@ + decimal(n as nat));
}

fn push_colour(s: &mut String, code: usize, c: Colour)
    ensures
        final(s)@ == old(s)@ + colour_text(code as nat, c),
{
    push_char(s, '\x1b');
    push_char(s, '[');
    push_decimal(s, code);
    push_char(s, ';');
    push_char(s, '2');
    push_char(s, ';');
    push_decimal(s, c.r as usize);
    push_char(s, ';');
    push_decimal(s, c.g as usize);
    push_char(s, ';');
    push_decimal(s, c.b as usize);
    push_char(s, 'm');
    assert(s@ =~= old(s)@ + colour_text(code as nat, c));
}

fn push_op(s: &mut String, op: &TermOp)
    ensures
        final(s)@ == old(s)@ + op_text(*op),
{
    match op {
        TermOp::ResetAttributes => {
            push_char(s, '\x1b');
            push_char(s, '[');
            push_char(s, '0');
            push_char(s, 'm');
        },
        TermOp::ClearScreen => {
            push_char(s, '\x1b');
            push_char(s, '[');
            push_char(s, '2');
            push_char(s, 'J');
        },
        TermOp::Plot(col, row, c) => {
            push_char(s, '\x1b');
            push_char(s, '[');
            push_decimal(s, *row);
            push_char(s, ';');
            push_decimal(s, *col);
            push_char(s, 'H');
            push_char(s, *c);
        },
        TermOp::Foreground(c) => push_colour(s, 38, *c),
        TermOp::Background(c) => push_colour(s, 48, *c),
        TermOp::Flush => {},
    }
    assert(s@ =~= old(s)@ + op_text(*op));
}

impl TermOp {
    /// The escape sequence of this operation.
    pub fn to_ansi(&self) -> (r: String)
        ensures
            r@ == op_text(*self),
    {
        let mut s = String::new();
        push_op(&mut s, self);
        assert(s@ =~= op_text(*self));
        s
    }
}

/// The escape sequences of a sequence of operations, concatenated in order.
pub fn ansi_script(ops: &[TermOp]) -> (r: String)
    ensures
        r@ == script_text(ops@),
{
    let mut s = String::new();
    let mut i: usize = 0;
    while i < ops.len()
        invariant
            i <= ops@.len(),
            s@ == script_text(ops@.take(i as int)),
        decreases ops@.len() - i,
    {
        push_op(&mut s, &ops[i]);
        assert(ops@.take(i as int + 1).drop_last() =~= ops@.take(i as int));
        i = i + 1;
    }
    assert(ops@.take(i as int) =~= ops@);
    s
}

} // verus!
