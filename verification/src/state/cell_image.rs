//! Pattern text turned into a set of live points.
//!
//! The text is split into lines; a line starting with `!` is a comment and
//! is skipped. In a kept line the characters `'.'` and `' '` mean dead and
//! every other character means a live cell. The image records the live
//! points (x across, y down, counting kept lines only) together with the
//! bounding size: the longest kept line by the number of kept lines.

use vstd::prelude::*;

use crate::common::point::Point;
use crate::state::cell_setup::{setup_text, CellSetup};

verus! {

/// The first position at or after `i` that holds a line break (`s.len()` if
/// there is none).
pub open spec fn next_nl(s: Seq<char>, i: int) -> int
    decreases s.len() - i,
{
    if 0 <= i < s.len() {
        if s[i] == '\n' {
            i
        } else {
            next_nl(s, i + 1)
        }
    } else {
        i
    }
}

/// The lines of `s` from position `i` on: the segments between line breaks,
/// with a final (possibly empty) segment after the last break.
pub open spec fn lines_from(s: Seq<char>, i: int) -> Seq<Seq<char>>
    decreases s.len() - i,
        via lines_from_dec
{
    let j = next_nl(s, i);
    if j >= s.len() {
        seq![s.subrange(i, s.len() as int)]
    } else {
        seq![s.subrange(i, j)] + lines_from(s, j + 1)
    }
}

#[via_fn]
proof fn lines_from_dec(s: Seq<char>, i: int) {
    if 0 <= i <= s.len() {
        lemma_next_nl(s, i);
    }
}

/// Whether a line is a comment line, skipped entirely.
pub open spec fn line_skipped(l: Seq<char>) -> bool {
    l.len() > 0 && l[0] == '!'
}

/// The lines among `ls` that are not comment lines, in order.
pub open spec fn kept_of(ls: Seq<Seq<char>>) -> Seq<Seq<char>>
    decreases ls.len(),
{
    if ls.len() == 0 {
        Seq::empty()
    } else {
        let k = kept_of(ls.drop_last());
        if line_skipped(ls.last()) {
            k
        } else {
            k.push(ls.last())
        }
    }
}

/// The lines of `s` that take part in the image.
pub open spec fn kept_lines(s: Seq<char>) -> Seq<Seq<char>> {
    kept_of(lines_from(s, 0))
}

/// Whether a pattern character means a dead cell.
pub open spec fn is_dead_char(c: char) -> bool {
    c == '.' || c == ' '
}

/// The length of the longest line.
pub open spec fn max_width(ls: Seq<Seq<char>>) -> int
    decreases ls.len(),
{
    if ls.len() == 0 {
        0
    } else {
        let m = max_width(ls.drop_last());
        if ls.last().len() > m {
            ls.last().len() as int
        } else {
            m
        }
    }
}

/// The live points of one line at row `y`, in x order.
pub open spec fn row_points(l: Seq<char>, y: int) -> Seq<Point>
    decreases l.len(),
{
    if l.len() == 0 {
        Seq::empty()
    } else {
        row_points(l.drop_last(), y) + if is_dead_char(l.last()) {
            Seq::empty()
        } else {
            seq![Point { x: (l.len() - 1) as i32, y: y as i32 }]
        }
    }
}

/// The live points of all lines, row by row.
pub open spec fn image_points(ls: Seq<Seq<char>>) -> Seq<Point>
    decreases ls.len(),
{
    if ls.len() == 0 {
        Seq::empty()
    } else {
        image_points(ls.drop_last()) + row_points(ls.last(), ls.len() - 1)
    }
}

/// A width is never negative.
pub proof fn lemma_max_width_nonneg(ls: Seq<Seq<char>>)
    ensures
        max_width(ls) >= 0,
    decreases ls.len(),
{
    if ls.len() > 0 {
        lemma_max_width_nonneg(ls.drop_last());
    }
}

/// The break found by [`next_nl`] lies between `i` and the end of the
/// string, everything before it is ordinary text, and it is a real break
/// unless the string ran out.
pub proof fn lemma_next_nl(s: Seq<char>, i: int)
    requires
        0 <= i <= s.len(),
    ensures
        i <= next_nl(s, i) <= s.len(),
        next_nl(s, i) < s.len() ==> s[next_nl(s, i)] == '\n',
        forall|j: int| i <= j < next_nl(s, i) ==> s[j] != '\n',
    decreases s.len() - i,
{
    if i < s.len() && s[i] != '\n' {
        lemma_next_nl(s, i + 1);
    }
}

/// A pattern resolved into its live points and bounding size.
#[derive(Debug)]
pub struct CellImage {
    pub living_points: Vec<Point>,
    pub size: Point,
}

impl CellImage {
    /// Reads pattern text into an image: the live points of every kept line
    /// in row-major order, and the bounding size.
    pub fn from_text(s: &str) -> (img: CellImage)
        requires
            s@.len() < i32::MAX,
        ensures
            img.living_points@ == image_points(kept_lines(s@)),
            img.size.x == max_width(kept_lines(s@)),
            img.size.y == kept_lines(s@).len(),
    {
        let ghost text = s@;
        let n = s.unicode_len();
        let mut living_points: Vec<Point> = Vec::new();
        let mut width: i32 = 0;
        let mut y: i32 = 0;
        let mut i: usize = 0;
        let ghost mut done: Seq<Seq<char>> = Seq::empty();

        proof {
            assert(lines_from(text, 0) =~= done + lines_from(text, 0));
            assert(kept_of(done) =~= Seq::<Seq<char>>::empty());
            assert(image_points(kept_of(done)) =~= Seq::<Point>::empty());
        }

        loop
            invariant_except_break
                lines_from(text, 0) == done + lines_from(text, i as int),
                done.len() <= i,
            invariant
                text == s@,
                n == text.len() < i32::MAX,
                0 <= i <= n,
                y <= done.len(),
                y == kept_of(done).len(),
                width == max_width(kept_of(done)),
                living_points@ == image_points(kept_of(done)),
            ensures
                done == lines_from(text, 0),
                y == kept_lines(text).len(),
                width == max_width(kept_lines(text)),
                living_points@ == image_points(kept_lines(text)),
            decreases n - i + 1,
        {
            let j = find_newline(s, i, n);
            let ghost line = text.subrange(i as int, j as int);
            proof {
                lemma_next_nl(text, i as int);
            }

            let skipped = i < j && s.get_char(i) == '!';
            if !skipped {
                let ghost kept_before = kept_of(done);

                let line_len = (j - i) as i32;
                if width < line_len {
                    width = line_len;
                }

                let mut x: usize = i;
                while x < j
                    invariant
                        text == s@,
                        n == text.len() < i32::MAX,
                        0 <= i <= x <= j <= n,
                        line == text.subrange(i as int, j as int),
                        y == kept_before.len(),
                        living_points@ == image_points(kept_before) + row_points(
                            line.take(x - i),
                            y as int,
                        ),
                    decreases j - x,
                {
                    let c = s.get_char(x);
                    let ghost prefix = line.take(x - i);
                    if !(c == '.' || c == ' ') {
                        living_points.push(Point::new((x - i) as i32, y));
                    }
                    x += 1;
                    proof {
                        assert(line.take(x - i).drop_last() =~= prefix);
                        assert(line.take(x - i).last() == line[x - i - 1]);
                        assert(line[x - i - 1] == text[x - 1]);
                    }
                }

                proof {
                    assert(line.take(j - i) =~= line);
                }
                y += 1;
            }

            let ghost done_next = done.push(line);
            proof {
                assert(done_next.drop_last() =~= done);
                assert(done_next.last() == line);
                let kept = kept_of(done_next);
                if skipped {
                    assert(line_skipped(line));
                    assert(kept == kept_of(done));
                } else {
                    assert(!line_skipped(line));
                    assert(kept == kept_of(done).push(line));
                    assert(kept.drop_last() =~= kept_of(done));
                    assert(kept.last() == line);
                    assert(image_points(kept) == image_points(kept_of(done)) + row_points(
                        line,
                        kept_of(done).len() as int,
                    ));
                }
            }
            proof {
                done = done_next;
            }

            if j >= n {
                proof {
                    assert(lines_from(text, i as int) =~= seq![line]);
                    assert(lines_from(text, 0) =~= done);
                }
                break;
            }
            proof {
                assert(lines_from(text, i as int) =~= seq![line] + lines_from(
                    text,
                    j + 1,
                ));
                assert(lines_from(text, 0) =~= done + lines_from(text, j + 1));
            }
            i = j + 1;
        }

        CellImage { living_points, size: Point::new(width, y) }
    }

    /// The image of a setup's pattern text.
    pub fn from_setup(cell_setup: &CellSetup) -> (img: CellImage)
        requires
            setup_text(*cell_setup).len() < i32::MAX,
        ensures
            img.living_points@ == image_points(kept_lines(setup_text(*cell_setup))),
            img.size.x == max_width(kept_lines(setup_text(*cell_setup))),
            img.size.y == kept_lines(setup_text(*cell_setup)).len(),
    {
        let text = cell_setup.to_text();
        Self::from_text(text.as_str())
    }
}

/// The position of the next line break at or after `from` (`n` if none).
fn find_newline(s: &str, from: usize, n: usize) -> (j: usize)
    requires
        n == s@.len() < i32::MAX,
        from <= n,
    ensures
        j == next_nl(s@, from as int),
        from <= j <= n,
{
    let mut i = from;
    while i < n
        invariant
            n == s@.len(),
            from <= i <= n,
            next_nl(s@, from as int) == next_nl(s@, i as int),
        ensures
            from <= i <= n,
            next_nl(s@, from as int) == i,
        decreases n - i,
    {
        if s.get_char(i) == '\n' {
            break;
        }
        i += 1;
    }
    i
}

} // verus!
