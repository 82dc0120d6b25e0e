use vstd::prelude::*;
use vstd::slice::slice_subrange;

use crate::format_decode::{decrypted_text, fm_string_decrypt};

verus! {

/// Opening byte of a numeric literal: a 19-byte run follows.
pub const CALC_NUMBER: u8 = 0x10;

/// Opening byte of a quoted string literal, followed by a length byte.
pub const CALC_STRING: u8 = 0x13;

/// Opening byte of an identifier, followed by a length byte.
pub const CALC_IDENT: u8 = 0x1A;

/// Position, within a numeric literal's run, of the byte that is rendered.
pub const NUMBER_SHOWN: usize = 8;

/// Length of a numeric literal's run.
pub const NUMBER_LEN: usize = 19;

pub open spec fn digit_char(d: nat) -> char {
    seq!['0', '1', '2', '3', '4', '5', '6', '7', '8', '9'][d as int]
}

/// Decimal digits of a number, most significant first.
pub open spec fn decimal(n: nat) -> Seq<char>
    decreases n,
{
    if n < 10 {
        seq![digit_char(n)]
    } else {
        decimal(n / 10).push(digit_char(n % 10))
    }
}

/// Text of a one-byte token; empty for a byte that is not a token.
pub open spec fn token_text(c: u8) -> Seq<char> {
    if c == 0x04 {
        seq!['(']
    } else if c == 0x05 {
        seq![')']
    } else if c == 0x0C {
        seq![' ']
    } else if c == 0x25 {
        seq!['+']
    } else if c == 0x26 {
        seq!['-']
    } else if c == 0x27 {
        seq!['*']
    } else if c == 0x28 {
        seq!['/']
    } else if c == 0x41 {
        seq!['<']
    } else if c == 0x43 {
        seq!['<', '=']
    } else if c == 0x44 {
        seq!['=', '=']
    } else if c == 0x46 {
        seq!['!', '=']
    } else if c == 0x47 {
        seq!['>', '=']
    } else if c == 0x49 {
        seq!['>']
    } else if c == 0x50 {
        seq!['&']
    } else {
        Seq::empty()
    }
}

pub open spec fn min_int(a: int, b: int) -> int {
    if a < b {
        a
    } else {
        b
    }
}

/// Infix text of the bytecode from position `i` on. A literal cut short by
/// the end of the bytecode renders what is there; unknown bytes render nothing.
pub open spec fn calc_text(b: Seq<u8>, i: int) -> Seq<char>
    decreases b.len() - i,
{
    if i < 0 || i >= b.len() {
        Seq::empty()
    } else if b[i] == CALC_NUMBER {
        let shown = i + 1 + NUMBER_SHOWN;
        let digits = if shown < b.len() {
            decimal(b[shown] as nat)
        } else {
            Seq::empty()
        };
        digits + calc_text(b, min_int(i + 1 + NUMBER_LEN, b.len() as int))
    } else if b[i] == CALC_STRING || b[i] == CALC_IDENT {
        if i + 1 >= b.len() {
            Seq::empty()
        } else {
            let e = min_int(i + 2 + b[i + 1], b.len() as int);
            let t = decrypted_text(b.subrange(i + 2, e));
            let shown = if b[i] == CALC_STRING {
                seq!['"'] + t + seq!['"']
            } else {
                t
            };
            shown + calc_text(b, e)
        }
    } else {
        token_text(b[i]) + calc_text(b, i + 1)
    }
}

/// Relies on `String::push`: appends one character.
#[verifier::external_body]
fn push_char(s: &mut String, c: char)
    ensures
        final(s)@ == old(s)@.push(c),
{
    s.push(c)
}

fn push_digit(s: &mut String, d: u8)
    requires
        d < 10,
    ensures
        final(s)@ == old(s)@.push(digit_char(d as nat)),
{
    let c = if d == 0 { '0' } else if d == 1 { '1' } else if d == 2 { '2' } else if d == 3 { '3' }
        else if d == 4 { '4' } else if d == 5 { '5' } else if d == 6 { '6' } else if d == 7 { '7' }
        else if d == 8 { '8' } else { '9' };
    push_char(s, c);
}

/// Appends the decimal digits of a byte.
fn push_decimal(s: &mut String, n: u8)
    ensures
        final(s)@ == old(s)@ + decimal(n as nat),
{
    let ghost start = s@;
    if n >= 100 {
        push_digit(s, n / 100);
        push_digit(s, (n / 10) % 10);
        push_digit(s, n % 10);
        assert(decimal((n / 100) as nat) == seq![digit_char((n / 100) as nat)]);
        assert(decimal((n / 10) as nat) == decimal((n / 100) as nat).push(digit_char(((n / 10) % 10) as nat)));
    } else if n >= 10 {
        push_digit(s, n / 10);
        push_digit(s, n % 10);
        assert(decimal((n / 10) as nat) == seq![digit_char((n / 10) as nat)]);
    } else {
        push_digit(s, n);
    }
    assert(s@ =~= start + decimal(n as nat));
}

fn push_token(s: &mut String, c: u8)
    ensures
        final(s)@ == old(s)@ + token_text(c),
{
    let ghost start = s@;
    if c == 0x04 {
        push_char(s, '(');
    } else if c == 0x05 {
        push_char(s, ')');
    } else if c == 0x0C {
        push_char(s, ' ');
    } else if c == 0x25 {
        push_char(s, '+');
    } else if c == 0x26 {
        push_char(s, '-');
    } else if c == 0x27 {
        push_char(s, '*');
    } else if c == 0x28 {
        push_char(s, '/');
    } else if c == 0x41 {
        push_char(s, '<');
    } else if c == 0x43 {
        push_char(s, '<');
        push_char(s, '=');
    } else if c == 0x44 {
        push_char(s, '=');
        push_char(s, '=');
    } else if c == 0x46 {
        push_char(s, '!');
        push_char(s, '=');
    } else if c == 0x47 {
        push_char(s, '>');
        push_char(s, '=');
    } else if c == 0x49 {
        push_char(s, '>');
    } else if c == 0x50 {
        push_char(s, '&');
    }
    assert(s@ =~= start + token_text(c));
}

/// Renders calculation bytecode as infix text, token by token. It never
/// fails: bytes that are not tokens are skipped.
pub fn decompile_calculation(bytecode: &[u8]) -> (r: String)
    ensures
        r@ == calc_text(bytecode@, 0),
{
    let mut result = String::new();
    let mut i: usize = 0;
    let len = bytecode.len();
    while i < len
        invariant
            len == bytecode@.len(),
            i <= len,
            calc_text(bytecode@, 0) == result@ + calc_text(bytecode@, i as int),
        decreases len - i,
    {
        let ghost before = result@;
        let c = bytecode[i];
        if c == CALC_NUMBER {
            let next: usize = if len - i > 1 + NUMBER_LEN { i + 1 + NUMBER_LEN } else { len };
            if len - i > 1 + NUMBER_SHOWN {
                push_decimal(&mut result, bytecode[i + 1 + NUMBER_SHOWN]);
            }
            assert(result@ + calc_text(bytecode@, next as int) =~= before + calc_text(bytecode@, i as int));
            i = next;
        } else if c == CALC_STRING || c == CALC_IDENT {
            if len - i < 2 {
                assert(calc_text(bytecode@, i as int) == Seq::<char>::empty());
                assert(calc_text(bytecode@, len as int) == Seq::<char>::empty());
                assert(result@ + calc_text(bytecode@, len as int) =~= before + calc_text(bytecode@, i as int));
                i = len;
            } else {
                let n = bytecode[i + 1] as usize;
                let e: usize = if len - i - 2 > n { i + 2 + n } else { len };
                let text = fm_string_decrypt(slice_subrange(bytecode, i + 2, e));
                if c == CALC_STRING {
                    push_char(&mut result, '"');
                    result.append(text.as_str());
                    push_char(&mut result, '"');
                } else {
                    result.append(text.as_str());
                }
                assert(result@ + calc_text(bytecode@, e as int) =~= before + calc_text(bytecode@, i as int));
                i = e;
            }
        } else {
            push_token(&mut result, c);
            assert(result@ + calc_text(bytecode@, i + 1) =~= before + calc_text(bytecode@, i as int));
            i = i + 1;
        }
    }
    assert(result@ =~= result@ + calc_text(bytecode@, len as int));
    result
}

/// Decompiling a calculation is deterministic: equal bytecode yields equal
/// text, and every input yields text.
pub proof fn lemma_calc_deterministic(a: Seq<u8>, b: Seq<u8>)
    requires
        a == b,
    ensures
        calc_text(a, 0) == calc_text(b, 0),
{
}

} // verus!
