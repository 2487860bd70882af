//! Laws of the keystroke grammar, proved over its specification.
use vstd::prelude::*;
use crate::chars::{decimal_digit, digit_value};
use crate::command::{
    Command, DEFAULT_REGISTER, Motion, ParseFailure, TextObjectMod, command_of, count_at,
    count_or_one, digits_end, digits_value, fits, generic_at, motion_at, operator_of, selector_at,
    single_key_object, TextObject,
};

verus! {

/// The digit character for `d < 10`.
pub open spec fn digit_char(d: nat) -> char {
    if d == 0 {
        '0'
    } else if d == 1 {
        '1'
    } else if d == 2 {
        '2'
    } else if d == 3 {
        '3'
    } else if d == 4 {
        '4'
    } else if d == 5 {
        '5'
    } else if d == 6 {
        '6'
    } else if d == 7 {
        '7'
    } else if d == 8 {
        '8'
    } else {
        '9'
    }
}

/// The decimal numeral of `n`, without leading zeros.
pub open spec fn decimal(n: nat) -> Seq<char>
    decreases n,
{
    if n < 10 {
        seq![digit_char(n)]
    } else {
        decimal(n / 10).push(digit_char(n % 10))
    }
}

proof fn lemma_digit_char(d: nat)
    requires
        d < 10,
    ensures
        decimal_digit(digit_char(d)),
        digit_value(digit_char(d)) == d,
{
}

proof fn lemma_decimal_digits(n: nat)
    ensures
        decimal(n).len() >= 1,
        forall|k: int| 0 <= k < decimal(n).len() ==> decimal_digit(#[trigger] decimal(n)[k]),
    decreases n,
{
    if n < 10 {
        lemma_digit_char(n);
    } else {
        lemma_decimal_digits(n / 10);
        lemma_digit_char(n % 10);
    }
}

/// The numeral of `n`, standing at `i` in `s`, has the value `n`.
proof fn lemma_decimal_value(s: Seq<char>, i: int, n: nat)
    requires
        0 <= i,
        i + decimal(n).len() <= s.len(),
        s.subrange(i, i + decimal(n).len()) == decimal(n),
    ensures
        digits_value(s, i, i + decimal(n).len()) == n,
    decreases n,
{
    let l = decimal(n).len() as int;
    assert(s[i + l - 1] == decimal(n)[l - 1]);
    if n < 10 {
        lemma_digit_char(n);
        assert(digits_value(s, i, i) == 0);
    } else {
        let p = decimal(n / 10);
        assert(s.subrange(i, i + p.len()) =~= p) by {
            assert forall|k: int| 0 <= k < p.len() implies s.subrange(i, i + p.len())[k] == p[k] by {
                assert(s.subrange(i, i + l)[k] == decimal(n)[k]);
            }
        }
        lemma_decimal_value(s, i, n / 10);
        lemma_digit_char(n % 10);
    }
}

/// A run of digits from `j` to `e`, followed by a non-digit or the end, ends at `e`.
proof fn lemma_digits_end_at(s: Seq<char>, j: int, e: int)
    requires
        0 <= j <= e <= s.len(),
        forall|k: int| j <= k < e ==> decimal_digit(#[trigger] s[k]),
        e == s.len() || !decimal_digit(s[e]),
    ensures
        digits_end(s, j) == e,
    decreases e - j,
{
    if j < e {
        lemma_digits_end_at(s, j + 1, e);
    }
}

/// The numeral of `n` at `i`, followed by the non-digit `c`, is a count of `n` ending
/// before `c`.
proof fn lemma_count_before(s: Seq<char>, i: int, n: nat)
    requires
        0 <= i,
        i + decimal(n).len() < s.len(),
        s.subrange(i, i + decimal(n).len()) == decimal(n),
        !decimal_digit(s[i + decimal(n).len()]),
    ensures
        digits_end(s, i) == i + decimal(n).len(),
        digits_value(s, i, i + decimal(n).len()) == n,
{
    let l = decimal(n).len() as int;
    lemma_decimal_digits(n);
    assert forall|k: int| i <= k < i + l implies decimal_digit(#[trigger] s[k]) by {
        assert(s.subrange(i, i + l)[k - i] == decimal(n)[k - i]);
    }
    lemma_digits_end_at(s, i, i + l);
    lemma_decimal_value(s, i, n);
}

/// A motion key after a count of `n` moves by `n`: the parsed motion's count is `n`.
pub proof fn lemma_counted_move(n: nat, key: char)
    requires
        n <= usize::MAX,
        single_key_object(key) is Some,
    ensures
        command_of(decimal(n).push(key)) == Ok::<Command, ParseFailure>(
            Command::Move(
                Motion {
                    count: n as usize,
                    object: single_key_object(key)->0,
                    modifier: TextObjectMod::NoModifier,
                },
            ),
        ),
{
    let s = decimal(n).push(key);
    let l = decimal(n).len() as int;
    lemma_decimal_digits(n);
    assert(s.subrange(0, l) =~= decimal(n));
    lemma_count_before(s, 0, n);
    assert(decimal_digit(s[0]));
    assert(key != 'x' && key != 'i' && key != 'a' && operator_of(key) is None);
    let mo = Motion { count: 1, object: single_key_object(key)->0, modifier: TextObjectMod::NoModifier };
    assert(motion_at(s, l, None) == Ok::<Motion, ParseFailure>(mo));
    assert(mo.count * count_or_one(count_at(s, 0)) == n) by (nonlinear_arith)
        requires
            mo.count == 1,
            count_or_one(count_at(s, 0)) == n,
    ;
    assert(command_of(s) == generic_at(s, 0, DEFAULT_REGISTER));
}

/// A count of `m` before an operator and a count of `n` before its motion key: the
/// operator's count is `m`, the motion's is `n`, so the edit repeats `m * n` times.
pub proof fn lemma_counted_edit(m: nat, op: char, n: nat, key: char)
    requires
        m <= usize::MAX,
        n <= usize::MAX,
        operator_of(op) is Some,
        single_key_object(key) is Some,
    ensures
        command_of(decimal(m).push(op) + decimal(n).push(key)) == Ok::<
            Command,
            ParseFailure,
        >(
            Command::Edit {
                op: operator_of(op)->0,
                op_count: m as usize,
                mo: Motion {
                    count: n as usize,
                    object: single_key_object(key)->0,
                    modifier: TextObjectMod::NoModifier,
                },
                target_register: DEFAULT_REGISTER,
            },
        ),
        command_of(decimal(m).push(op) + decimal(n).push(key)) matches Ok(
            Command::Edit { op_count, mo, .. },
        ) ==> op_count * mo.count == m * n,
{
    let s = decimal(m).push(op) + decimal(n).push(key);
    let lm = decimal(m).len() as int;
    let ln = decimal(n).len() as int;
    lemma_decimal_digits(m);
    lemma_decimal_digits(n);
    assert(s.subrange(0, lm) =~= decimal(m));
    assert(s[lm] == op);
    lemma_count_before(s, 0, m);
    assert(s.subrange(lm + 1, lm + 1 + ln) =~= decimal(n));
    assert(s[lm + 1 + ln] == key);
    lemma_count_before(s, lm + 1, n);
    assert(decimal_digit(s[0]));
    assert(digits_end(s, lm + 1 + ln) == lm + 1 + ln);
}

/// A run of digits that ends inside `s` ends at the same place when more keys follow.
proof fn lemma_digits_end_extended(s: Seq<char>, t: Seq<char>, i: int)
    requires
        0 <= i,
    ensures
        digits_end(s, i) < s.len() ==> digits_end(s + t, i) == digits_end(s, i),
        i <= s.len() && digits_end(s, i) == s.len() ==> digits_end(s + t, i) >= s.len(),
    decreases s.len() - i,
{
    if i < s.len() {
        assert((s + t)[i] == s[i]);
        if decimal_digit(s[i]) {
            lemma_digits_end_extended(s, t, i + 1);
        }
    } else if i == s.len() {
        crate::command::lemma_digits_end(s + t, i);
    }
}

/// The digits inside `s` write the same number when more keys follow.
proof fn lemma_digits_value_extended(s: Seq<char>, t: Seq<char>, i: int, j: int)
    requires
        0 <= i,
        j <= s.len(),
    ensures
        digits_value(s + t, i, j) == digits_value(s, i, j),
    decreases j - i,
{
    if j > i {
        assert((s + t)[j - 1] == s[j - 1]);
        lemma_digits_value_extended(s, t, i, j - 1);
    }
}

/// A count at `i` that can still grow, or is already too large, is settled unless it ends
/// inside `s`.
proof fn lemma_count_extended(s: Seq<char>, t: Seq<char>, i: int)
    requires
        0 <= i <= s.len(),
    ensures
        digits_end(s, i) < s.len() ==> count_at(s + t, i) == count_at(s, i) && digits_end(s + t, i)
            == digits_end(s, i),
        digits_end(s, i) == s.len() && !fits(count_at(s, i)) ==> !fits(count_at(s + t, i)),
{
    lemma_digits_end_extended(s, t, i);
    crate::command::lemma_digits_end(s, i);
    crate::command::lemma_digits_end(s + t, i);
    let j = digits_end(s, i);
    if j < s.len() {
        lemma_digits_value_extended(s, t, i, j);
    } else if j == s.len() && !fits(count_at(s, i)) {
        lemma_digits_value_extended(s, t, i, j);
        crate::command::lemma_digits_value_grows(s + t, i, j, digits_end(s + t, i));
    }
}

proof fn lemma_selector_extended(s: Seq<char>, t: Seq<char>, k: int, opchar: Option<char>)
    requires
        0 <= k,
        selector_at(s, k, opchar) != Err::<TextObject, ParseFailure>(ParseFailure::Incomplete),
    ensures
        selector_at(s + t, k, opchar) == selector_at(s, k, opchar),
{
    if k < s.len() {
        assert((s + t)[k] == s[k]);
        if k + 1 < s.len() {
            assert((s + t)[k + 1] == s[k + 1]);
        }
    }
}

proof fn lemma_motion_extended(s: Seq<char>, t: Seq<char>, i: int, opchar: Option<char>)
    requires
        0 <= i <= s.len(),
        motion_at(s, i, opchar) != Err::<Motion, ParseFailure>(ParseFailure::Incomplete),
    ensures
        motion_at(s + t, i, opchar) == motion_at(s, i, opchar),
{
    lemma_count_extended(s, t, i);
    crate::command::lemma_digits_end(s, i);
    let j = digits_end(s, i);
    if j < s.len() {
        assert((s + t)[j] == s[j]);
        if fits(count_at(s, i)) {
            let k = if s[j] == 'i' || s[j] == 'a' { j + 1 } else { j };
            lemma_selector_extended(s, t, k, opchar);
        }
    }
}

proof fn lemma_generic_extended(s: Seq<char>, t: Seq<char>, i: int, reg: char)
    requires
        0 <= i <= s.len(),
        generic_at(s, i, reg) != Err::<Command, ParseFailure>(ParseFailure::Incomplete),
    ensures
        generic_at(s + t, i, reg) == generic_at(s, i, reg),
{
    lemma_count_extended(s, t, i);
    crate::command::lemma_digits_end(s, i);
    let j = digits_end(s, i);
    if j < s.len() {
        assert((s + t)[j] == s[j]);
        if fits(count_at(s, i)) && s[j] != 'x' {
            if operator_of(s[j]) is Some {
                lemma_motion_extended(s, t, j + 1, Some(s[j]));
            } else {
                lemma_motion_extended(s, t, j, None);
            }
        }
    } else if fits(count_at(s, i)) {
        crate::command::lemma_digits_end(s, j);
        assert(motion_at(s, j, None) == Err::<Motion, ParseFailure>(ParseFailure::Incomplete));
    }
}

/// Once the keys spell a command, or an error other than an incomplete command, more keys
/// change nothing: only an incomplete command waits for further input.
pub proof fn lemma_more_keys_change_nothing(s: Seq<char>, t: Seq<char>)
    requires
        s.len() > 0,
        command_of(s) != Err::<Command, ParseFailure>(ParseFailure::Incomplete),
    ensures
        command_of(s + t) == command_of(s),
{
    assert((s + t)[0] == s[0]);
    if s.len() >= 2 {
        assert((s + t)[1] == s[1]);
    }
    if s[0] == '"' {
        if s.len() >= 2 {
            lemma_generic_extended(s, t, 2, s[1]);
        } else {
            lemma_generic_extended(s, t, 1, DEFAULT_REGISTER);
        }
    } else if command_of(s) == generic_at(s, 0, DEFAULT_REGISTER) {
        lemma_generic_extended(s, t, 0, DEFAULT_REGISTER);
    }
}

} // verus!
