//! Where a world's initial live cells come from.
//!
//! A setup is either a named preset, or arbitrary pattern text in which the
//! characters `' '` and `'.'` mean dead and every other character means
//! alive, one row per line. The `soup<digits>` notation draws a random
//! square of cells instead.

use vstd::arithmetic::div_mod::lemma_fundamental_div_mod_converse_mod;
use vstd::prelude::*;

use crate::common::ParseError;
use crate::state::rng::{new_rng, rand_range_i32};

verus! {

/// A named preset or ad-hoc pattern text.
#[derive(Debug)]
pub enum CellSetup {
    /// A classic long-living minimal configuration.
    Acorn,
    /// An empty world.
    Blank,
    /// A classic long-living configuration of five cells.
    RPentonimo,
    /// The word TERMGOL in block letters.
    Termgol,
    /// Pattern text supplied from outside: a soup, or a loaded file.
    Special(String),
}

/// The pattern text a setup stands for.
pub open spec fn setup_text(s: CellSetup) -> Seq<char> {
    match s {
        CellSetup::Acorn => "\n.O.....\n...O...\nOO..OOO\n"@,
        CellSetup::Blank => ""@,
        CellSetup::RPentonimo => "\nOO.\n.OO\n.O.\n"@,
        CellSetup::Termgol => termgol_text(),
        CellSetup::Special(t) => t@,
    }
}

/// The TERMGOL block-letter pattern.
pub open spec fn termgol_text() -> Seq<char> {
    "\nOOOOO.OOOOO.OOOO..O...O..OOOO..OOO..O....\n..O...O.....O...O.OO.OO.O.....O...O.O....\n..O...OOOO..OOOO..O.O.O.O..OO.O...O.O....\n..O...O.....O..O..O...O.O...O.O...O.O....\n..O...OOOOO.O...O.O...O..OOO...OOO. OOOOO\n"@
}

/// Whether two setups carry the same pattern: the same variant, and for
/// `Special` the same text.
pub open spec fn setup_equiv(a: CellSetup, b: CellSetup) -> bool {
    match (a, b) {
        (CellSetup::Acorn, CellSetup::Acorn) => true,
        (CellSetup::Blank, CellSetup::Blank) => true,
        (CellSetup::RPentonimo, CellSetup::RPentonimo) => true,
        (CellSetup::Termgol, CellSetup::Termgol) => true,
        (CellSetup::Special(x), CellSetup::Special(y)) => x@ == y@,
        _ => false,
    }
}

/// Setup equivalence is symmetric.
pub proof fn lemma_setup_equiv_sym(a: CellSetup, b: CellSetup)
    requires
        setup_equiv(a, b),
    ensures
        setup_equiv(b, a),
{
}

/// Setup equivalence carries over a middle setup.
pub proof fn lemma_setup_equiv_trans(a: CellSetup, b: CellSetup, c: CellSetup)
    requires
        setup_equiv(a, b),
        setup_equiv(b, c),
    ensures
        setup_equiv(a, c),
{
}

/// Equivalent setups stand for the same pattern text.
pub proof fn lemma_setup_equiv_text(a: CellSetup, b: CellSetup)
    requires
        setup_equiv(a, b),
    ensures
        setup_text(a) == setup_text(b),
{
}

/// Whether `c` is a decimal digit.
pub open spec fn is_dec_digit(c: char) -> bool {
    48 <= c as int <= 57
}

/// Whether `s` is the `soup<digits>` notation: the word `soup` followed by
/// one to three decimal digits.
pub open spec fn valid_soup_str(s: Seq<char>) -> bool {
    &&& 5 <= s.len() <= 7
    &&& s[0] == 's'
    &&& s[1] == 'o'
    &&& s[2] == 'u'
    &&& s[3] == 'p'
    &&& forall|i: int| 4 <= i < s.len() ==> is_dec_digit(#[trigger] s[i])
}

/// The decimal value of the digits at positions `from..to` of `s`.
pub open spec fn dec_val(s: Seq<char>, from: int, to: int) -> int
    decreases to - from,
{
    if from >= to {
        0
    } else {
        dec_val(s, from, to - 1) * 10 + (s[to - 1] as int - 48)
    }
}

/// The edge length a `soup<digits>` string asks for.
pub open spec fn soup_size(s: Seq<char>) -> int {
    dec_val(s, 4, s.len() as int)
}

/// Whether position `k` of a soup text holds what its row layout demands: a
/// line break at the end of each `w`-cell row, otherwise a dead or a live
/// cell character.
pub open spec fn soup_char_ok(s: Seq<char>, w: int, k: int) -> bool {
    if k % (w + 1) == w {
        s[k] == '\n'
    } else {
        s[k] == '.' || s[k] == 'O'
    }
}

/// Whether `s` is a well-shaped `w` by `h` soup text: `h` rows of `w` cell
/// characters, each row closed by a line break.
pub open spec fn soup_text(s: Seq<char>, w: int, h: int) -> bool {
    &&& s.len() == h * (w + 1)
    &&& forall|k: int| 0 <= k < s.len() ==> #[trigger] soup_char_ok(s, w, k)
}

impl CellSetup {
    /// Reads a setup name: one of the four preset names, or `soup<digits>`
    /// for a random square soup. Anything else is rejected — the caller may
    /// then treat the string as a file path.
    pub fn parse(s: &str) -> (res: Result<CellSetup, ParseError>)
        ensures
            res is Ok <==> (s@ == "acorn"@ || s@ == "blank"@ || s@ == "r-pentonimo"@ || s@
                == "termgol"@ || valid_soup_str(s@)),
            res matches Ok(c) ==> match c {
                CellSetup::Acorn => s@ == "acorn"@,
                CellSetup::Blank => s@ == "blank"@,
                CellSetup::RPentonimo => s@ == "r-pentonimo"@,
                CellSetup::Termgol => s@ == "termgol"@,
                CellSetup::Special(t) => valid_soup_str(s@) && soup_text(
                    t@,
                    soup_size(s@),
                    soup_size(s@),
                ),
            },
    {
        if str_eq(s, "acorn") {
            return Ok(CellSetup::Acorn);
        }
        if str_eq(s, "blank") {
            return Ok(CellSetup::Blank);
        }
        if str_eq(s, "r-pentonimo") {
            return Ok(CellSetup::RPentonimo);
        }
        if str_eq(s, "termgol") {
            return Ok(CellSetup::Termgol);
        }

        let n = s.unicode_len();
        if n >= 5 && n <= 7 && s.get_char(0) == 's' && s.get_char(1) == 'o' && s.get_char(2) == 'u'
            && s.get_char(3) == 'p' {
            match parse_soup_digits(s, n) {
                Some(size) => {
                    return Ok(CellSetup::rect_soup(size, size));
                },
                None => {
                    return Err(ParseError::InvalidValue);
                },
            }
        }

        Err(ParseError::InvalidValue)
    }

    /// Draws a random `width` by `height` block of cells, each alive or dead
    /// with equal chance, written as pattern text. Only the shape of the
    /// text is promised; its content is up to the generator.
    pub fn rect_soup(width: i32, height: i32) -> (res: CellSetup)
        requires
            0 <= width,
            0 <= height,
        ensures
            res matches CellSetup::Special(t) && soup_text(
                t@,
                width as int,
                height as int,
            ),
    {
        let ghost w = width as int;
        let mut soup = String::new();
        let mut rng = new_rng();

        let mut y: i32 = 0;
        while y < height
            invariant
                0 <= y <= height,
                0 <= width,
                w == width as int,
                soup@.len() == y * (w + 1),
                forall|k: int| 0 <= k < soup@.len() ==> #[trigger] soup_char_ok(soup@, w, k),
            decreases height - y,
        {
            let mut x: i32 = 0;
            while x < width
                invariant
                    0 <= y < height,
                    0 <= x <= width,
                    w == width as int,
                    soup@.len() == y * (w + 1) + x,
                    forall|k: int| 0 <= k < soup@.len() ==> #[trigger] soup_char_ok(soup@, w, k),
                decreases width - x,
            {
                let ghost before = soup@;
                if rand_range_i32(&mut rng, 0, 1) == 0 {
                    soup.append(".");
                } else {
                    soup.append("O");
                }
                proof {
                    reveal_strlit(".");
                    reveal_strlit("O");
                    lemma_fundamental_div_mod_converse_mod(
                        y * (w + 1) + x,
                        w + 1,
                        y as int,
                        x as int,
                    );
                    assert forall|k: int| 0 <= k < soup@.len() implies #[trigger] soup_char_ok(
                        soup@,
                        w,
                        k,
                    ) by {
                        if k < before.len() {
                            assert(soup_char_ok(before, w, k));
                            assert(soup@[k] == before[k]);
                        }
                    }
                }
                x += 1;
            }
            let ghost row_done = soup@;
            soup.append("\n");
            proof {
                reveal_strlit("\n");
                lemma_fundamental_div_mod_converse_mod(y * (w + 1) + w, w + 1, y as int, w);
                assert forall|k: int| 0 <= k < soup@.len() implies #[trigger] soup_char_ok(
                    soup@,
                    w,
                    k,
                ) by {
                    if k < row_done.len() {
                        assert(soup_char_ok(row_done, w, k));
                        assert(soup@[k] == row_done[k]);
                    }
                }
                assert((y + 1) * (w + 1) == y * (w + 1) + (w + 1)) by (nonlinear_arith);
            }
            y += 1;
        }

        CellSetup::Special(soup)
    }

    /// The pattern text this setup stands for, presets written out.
    pub fn to_text(&self) -> (t: String)
        ensures
            t@ == setup_text(*self),
    {
        match self {
            CellSetup::Acorn => String::from_str("\n.O.....\n...O...\nOO..OOO\n"),
            CellSetup::Blank => String::from_str(""),
            CellSetup::RPentonimo => String::from_str("\nOO.\n.OO\n.O.\n"),
            CellSetup::Termgol => String::from_str(
                "\nOOOOO.OOOOO.OOOO..O...O..OOOO..OOO..O....\n..O...O.....O...O.OO.OO.O.....O...O.O....\n..O...OOOO..OOOO..O.O.O.O..OO.O...O.O....\n..O...O.....O..O..O...O.O...O.O...O.O....\n..O...OOOOO.O...O.O...O..OOO...OOO. OOOOO\n",
            ),
            CellSetup::Special(t) => t.clone(),
        }
    }
}

impl Clone for CellSetup {
    /// A clone carries the same pattern.
    fn clone(&self) -> (res: Self)
        ensures
            setup_equiv(*self, res),
    {
        match self {
            CellSetup::Acorn => CellSetup::Acorn,
            CellSetup::Blank => CellSetup::Blank,
            CellSetup::RPentonimo => CellSetup::RPentonimo,
            CellSetup::Termgol => CellSetup::Termgol,
            CellSetup::Special(t) => CellSetup::Special(t.clone()),
        }
    }
}

/// Whether two strings hold the same characters.
fn str_eq(a: &str, b: &str) -> (r: bool)
    ensures
        r == (a@ == b@),
{
    let n = a.unicode_len();
    if n != b.unicode_len() {
        return false;
    }

    let mut i: usize = 0;
    while i < n
        invariant
            0 <= i <= n,
            n == a@.len(),
            n == b@.len(),
            forall|j: int| 0 <= j < i ==> a@[j] == b@[j],
        decreases n - i,
    {
        if a.get_char(i) != b.get_char(i) {
            return false;
        }
        i += 1;
    }

    proof {
        assert(a@ =~= b@);
    }
    true
}

/// The decimal digits after the `soup` prefix, read as a number.
fn parse_soup_digits(s: &str, n: usize) -> (res: Option<i32>)
    requires
        n == s@.len(),
        5 <= n <= 7,
    ensures
        res is Some <==> (forall|i: int| 4 <= i < s@.len() ==> is_dec_digit(#[trigger] s@[i])),
        res matches Some(v) ==> v == dec_val(s@, 4, s@.len() as int) && 0 <= v <= 999,
{
    let mut v: i32 = 0;
    let mut i: usize = 4;
    while i < n
        invariant
            4 <= i <= n,
            n == s@.len(),
            5 <= n <= 7,
            v == dec_val(s@, 4, i as int),
            i == 4 ==> v == 0,
            i == 5 ==> v <= 9,
            i == 6 ==> v <= 99,
            i == 7 ==> v <= 999,
            0 <= v,
            forall|j: int| 4 <= j < i ==> is_dec_digit(#[trigger] s@[j]),
        decreases n - i,
    {
        let c = s.get_char(i);
        let u = c as u32;
        if u < 48 || u > 57 {
            return None;
        }
        v = v * 10 + (u - 48) as i32;
        i += 1;
    }
    Some(v)
}

} // verus!
