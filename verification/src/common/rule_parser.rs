//! The birth/survival rule notation.
//!
//! A rule string has the shape `B<digits>/S<digits>` where each digit group
//! holds up to nine characters drawn from `0`–`8` — `"B3/S23"` is Conway's
//! Life. The groups become the neighbor counts that make a dead cell be born
//! and a live cell survive.

use vstd::prelude::*;

use crate::common::ParseError;

verus! {

/// Whether `c` is a neighbor-count digit, `0` through `8`.
pub open spec fn is_rule_digit(c: char) -> bool {
    48 <= c as int <= 56
}

/// The first position at or after `i` that does not hold a rule digit
/// (`s.len()` if the digits run to the end).
pub open spec fn digit_run_end(s: Seq<char>, i: int) -> int
    decreases s.len() - i,
{
    if 0 <= i < s.len() {
        if is_rule_digit(s[i]) {
            digit_run_end(s, i + 1)
        } else {
            i
        }
    } else {
        i
    }
}

/// The position of the `/` in a well-formed rule string: where the birth
/// digits end.
pub open spec fn slash_pos(s: Seq<char>) -> int {
    digit_run_end(s, 1)
}

/// Whether `s` matches `B<digits>/S<digits>` with at most nine digits of
/// `0`–`8` in each group.
pub open spec fn valid_rules_str(s: Seq<char>) -> bool {
    let i = slash_pos(s);
    &&& s.len() >= 1
    &&& s[0] == 'B'
    &&& i <= 10
    &&& i + 2 <= s.len()
    &&& s[i] == '/'
    &&& s[i + 1] == 'S'
    &&& digit_run_end(s, i + 2) == s.len()
    &&& s.len() - (i + 2) <= 9
}

/// The neighbor counts written as digits at positions `from..to` of `s`.
pub open spec fn digits_of(s: Seq<char>, from: int, to: int) -> Seq<u32> {
    Seq::new((to - from) as nat, |j: int| (s[from + j] as int - 48) as u32)
}

/// The birth group of a well-formed rule string.
pub open spec fn birth_digits(s: Seq<char>) -> Seq<u32> {
    digits_of(s, 1, slash_pos(s))
}

/// The survival group of a well-formed rule string.
pub open spec fn survival_digits(s: Seq<char>) -> Seq<u32> {
    digits_of(s, slash_pos(s) + 2, s.len() as int)
}

/// Everything at or after `i` up to the run end is a rule digit, and the run
/// end lies between `i` and the end of the string.
proof fn lemma_digit_run_end(s: Seq<char>, i: int)
    requires
        0 <= i <= s.len(),
    ensures
        i <= digit_run_end(s, i) <= s.len(),
        forall|j: int| i <= j < digit_run_end(s, i) ==> is_rule_digit(#[trigger] s[j]),
    decreases s.len() - i,
{
    if i < s.len() && is_rule_digit(s[i]) {
        lemma_digit_run_end(s, i + 1);
    }
}

/// Reads a `B<digits>/S<digits>` rule string into its two groups of neighbor
/// counts, birth first, in the order written.
pub fn parse_rules(rules: &str) -> (res: Result<(Vec<u32>, Vec<u32>), ParseError>)
    ensures
        res is Ok <==> valid_rules_str(rules@),
        res matches Ok(r) ==> r.0@ == birth_digits(rules@) && r.1@ == survival_digits(rules@),
{
    let n = rules.unicode_len();
    if n < 1 || rules.get_char(0) != 'B' {
        return Err(ParseError::InvalidValue);
    }

    let ghost s = rules@;
    proof {
        lemma_digit_run_end(s, 1);
    }

    let mut birth: Vec<u32> = Vec::new();
    let mut i: usize = 1;
    assert(birth@ =~= digits_of(s, 1, 1));
    while i < n
        invariant
            s == rules@,
            1 <= i <= n,
            n == s.len(),
            digit_run_end(s, 1) == digit_run_end(s, i as int),
            birth@ == digits_of(s, 1, i as int),
        ensures
            1 <= i <= n,
            digit_run_end(s, 1) == i,
            birth@ == digits_of(s, 1, i as int),
        decreases n - i,
    {
        let d = rule_digit(rules.get_char(i));
        if d == 9 {
            break;
        }
        birth.push(d);
        i += 1;
        proof {
            assert(birth@ =~= digits_of(s, 1, i as int));
        }
    }

    if i > 10 {
        return Err(ParseError::InvalidValue);
    }
    if i + 2 > n || rules.get_char(i) != '/' || rules.get_char(i + 1) != 'S' {
        return Err(ParseError::InvalidValue);
    }

    let start = i + 2;
    proof {
        lemma_digit_run_end(s, start as int);
    }
    let mut survival: Vec<u32> = Vec::new();
    let mut j: usize = start;
    assert(survival@ =~= digits_of(s, start as int, start as int));
    while j < n
        invariant
            s == rules@,
            start <= j <= n,
            n == s.len(),
            digit_run_end(s, start as int) == digit_run_end(s, j as int),
            survival@ == digits_of(s, start as int, j as int),
        ensures
            start <= j <= n,
            digit_run_end(s, start as int) == j,
            survival@ == digits_of(s, start as int, j as int),
        decreases n - j,
    {
        let d = rule_digit(rules.get_char(j));
        if d == 9 {
            break;
        }
        survival.push(d);
        j += 1;
        proof {
            assert(survival@ =~= digits_of(s, start as int, j as int));
        }
    }

    if j < n || n - start > 9 {
        return Err(ParseError::InvalidValue);
    }

    Ok((birth, survival))
}

/// The value of a rule digit, or 9 for any other character.
fn rule_digit(c: char) -> (v: u32)
    ensures
        v == if is_rule_digit(c) {
            c as int - 48
        } else {
            9int
        },
{
    let u = c as u32;
    if u >= 48 && u <= 56 {
        u - 48
    } else {
        9
    }
}

} // verus!
