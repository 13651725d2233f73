//! Positional notation: a number written as digits and a point, from its
//! scientific notation.

use vstd::prelude::*;
use vstd::string::{StrSliceExecFns, StringExecFns};

verus! {

/// The most digits that an exponent is read with.
pub const MAX_EXPONENT_DIGITS: usize = 4;

/// What a scientific notation is made of: `-1.250E+2` has the whole part
/// `1`, the fraction `25` and the exponent 2.
pub struct Parts {
    pub negative: bool,
    /// The digits before the point.
    pub whole: Seq<char>,
    /// The digits behind the point, without the zeros that end them.
    pub fraction: Seq<char>,
    pub exponent: int,
}

/// The index of the first `c` in `text` from `from` on; where there is
/// none, the length of `text` or `from`.
pub open spec fn first(text: Seq<char>, c: char, from: nat) -> nat
    decreases text.len() - from,
{
    if from < text.len() && text[from as int] != c {
        first(text, c, from + 1)
    } else {
        from
    }
}

/// Whether a text is made of decimal digits.
pub open spec fn digits_only(text: Seq<char>) -> bool {
    forall|i: int| 0 <= i < text.len() ==> '0' <= #[trigger] text[i] <= '9'
}

/// The number that decimal digits denote.
pub open spec fn value(text: Seq<char>) -> nat
    decreases text.len(),
{
    if text.len() == 0 {
        0
    } else {
        (value(text.drop_last()) * 10 + (text.last() as u32 - '0' as u32)) as nat
    }
}

/// The text without the zeros that end it.
pub open spec fn trimmed(text: Seq<char>) -> Seq<char>
    decreases text.len(),
{
    if text.len() > 0 && text.last() == '0' {
        trimmed(text.drop_last())
    } else {
        text
    }
}

/// A row of zeros.
pub open spec fn zeros(n: nat) -> Seq<char> {
    Seq::new(n, |i: int| '0')
}

/// The parts of a scientific notation: an optional `-`, digits, a point,
/// digits, `E`, a sign, and up to [`MAX_EXPONENT_DIGITS`] digits. `None`
/// for a text of another shape.
pub open spec fn scientific(text: Seq<char>) -> Option<Parts> {
    let start: nat = if text.len() > 0 && text[0] == '-' {
        1
    } else {
        0
    };
    let dot = first(text, '.', start) as int;
    let mark = first(text, 'E', dot as nat) as int;
    let end = text.len() as int;
    if start < dot && dot + 1 < mark && mark + 2 < end && end - (mark + 2) <= MAX_EXPONENT_DIGITS
        && digits_only(text.subrange(start as int, dot)) && digits_only(
        text.subrange(dot + 1, mark),
    ) && (text[mark + 1] == '+' || text[mark + 1] == '-') && digits_only(
        text.subrange(mark + 2, end),
    ) {
        let size = value(text.subrange(mark + 2, end)) as int;
        Some(
            Parts {
                negative: start == 1,
                whole: text.subrange(start as int, dot),
                fraction: trimmed(text.subrange(dot + 1, mark)),
                exponent: if text[mark + 1] == '-' {
                    -size
                } else {
                    size
                },
            },
        )
    } else {
        None
    }
}

/// The digits of a number with the point where the exponent puts it: behind
/// the digits and padding zeros where the number is whole, between the
/// digits where it falls among them, and behind `0.` and padding zeros
/// where it falls before them.
pub open spec fn pointed(digits: Seq<char>, point: int) -> Seq<char> {
    if point >= digits.len() {
        digits + zeros((point - digits.len()) as nat)
    } else if point > 0 {
        digits.subrange(0, point) + seq!['.'] + digits.subrange(point, digits.len() as int)
    } else {
        seq!['0', '.'] + zeros((-point) as nat) + digits
    }
}

/// The positional notation of what the parts denote.
pub open spec fn laid_out(parts: Parts) -> Seq<char> {
    let body = pointed(parts.whole + parts.fraction, parts.whole.len() + parts.exponent);
    if parts.negative {
        seq!['-'] + body
    } else {
        body
    }
}

/// The positional notation of a number in scientific notation; a text of
/// another shape is left as it is.
pub open spec fn positional_text(text: Seq<char>) -> Seq<char> {
    match scientific(text) {
        Some(parts) => laid_out(parts),
        None => text,
    }
}

/// The index of the first `c` from `from` on.
fn find(text: &str, c: char, from: usize) -> (r: usize)
    requires
        from <= text@.len(),
    ensures
        r == first(text@, c, from as nat),
        from <= r <= text@.len(),
{
    let n: usize = text.unicode_len();
    let mut i: usize = from;
    while i < n && text.get_char(i) != c
        invariant
            n == text@.len(),
            from <= i <= n,
            first(text@, c, i as nat) == first(text@, c, from as nat),
        decreases n - i,
    {
        i += 1;
    }
    i
}

/// Whether the characters from `from` up to `to` are decimal digits.
fn digits_between(text: &str, from: usize, to: usize) -> (r: bool)
    requires
        from <= to <= text@.len(),
    ensures
        r == digits_only(text@.subrange(from as int, to as int)),
{
    let mut i: usize = from;
    while i < to
        invariant
            from <= i <= to <= text@.len(),
            forall|j: int| from <= j < i ==> '0' <= #[trigger] text@[j] <= '9',
        decreases to - i,
    {
        let c = text.get_char(i);
        if c < '0' || c > '9' {
            assert(text@.subrange(from as int, to as int)[i - from] == c);
            return false;
        }
        i += 1;
    }
    assert forall|j: int| 0 <= j < to - from implies '0' <= #[trigger] text@.subrange(
        from as int,
        to as int,
    )[j] <= '9' by {
        assert(text@.subrange(from as int, to as int)[j] == text@[from + j]);
    }
    true
}

/// The number that the digits from `from` up to `to` denote.
fn value_between(text: &str, from: usize, to: usize) -> (r: usize)
    requires
        from <= to <= text@.len(),
        to - from <= MAX_EXPONENT_DIGITS,
        digits_only(text@.subrange(from as int, to as int)),
    ensures
        r == value(text@.subrange(from as int, to as int)),
        r < 10000,
{
    let mut i: usize = from;
    let mut sum: usize = 0;
    assert(text@.subrange(from as int, from as int) =~= Seq::<char>::empty());
    while i < to
        invariant
            from <= i <= to <= text@.len(),
            to - from <= MAX_EXPONENT_DIGITS,
            digits_only(text@.subrange(from as int, to as int)),
            sum == value(text@.subrange(from as int, i as int)),
            i - from == 0 ==> sum == 0,
            i - from == 1 ==> sum < 10,
            i - from == 2 ==> sum < 100,
            i - from == 3 ==> sum < 1000,
            i - from == 4 ==> sum < 10000,
        decreases to - i,
    {
        let c = text.get_char(i);
        proof {
            let all = text@.subrange(from as int, to as int);
            let next = text@.subrange(from as int, i + 1);
            assert(all[i - from] == c);
            assert(next.drop_last() =~= text@.subrange(from as int, i as int));
            assert(next.last() == c);
        }
        sum = sum * 10 + (c as u32 - '0' as u32) as usize;
        i += 1;
    }
    sum
}

/// The end of the text from `from` up to `to` once the zeros that end it
/// are cut off.
fn trim_between(text: &str, from: usize, to: usize) -> (r: usize)
    requires
        from <= to <= text@.len(),
    ensures
        from <= r <= to,
        text@.subrange(from as int, r as int) == trimmed(text@.subrange(from as int, to as int)),
{
    let mut end: usize = to;
    while end > from && text.get_char(end - 1) == '0'
        invariant
            from <= end <= to <= text@.len(),
            trimmed(text@.subrange(from as int, end as int)) == trimmed(
                text@.subrange(from as int, to as int),
            ),
        decreases end,
    {
        proof {
            let here = text@.subrange(from as int, end as int);
            assert(here.last() == text@[end - 1]);
            assert(here.drop_last() =~= text@.subrange(from as int, end - 1));
        }
        end -= 1;
    }
    proof {
        let here = text@.subrange(from as int, end as int);
        if end > from {
            assert(here.last() == text@[end - 1]);
        }
    }
    end
}

/// Appends a row of zeros.
fn pad(text: &mut String, count: usize)
    ensures
        final(text)@ == old(text)@ + zeros(count as nat),
{
    let mut i: usize = 0;
    assert(text@ + zeros(0) =~= text@);
    while i < count
        invariant
            i <= count,
            text@ == old(text)@ + zeros(i as nat),
        decreases count - i,
    {
        text.append("0");
        proof {
            reveal_strlit("0");
            assert(old(text)@ + zeros(i as nat) + "0"@ =~= old(text)@ + zeros((i + 1) as nat));
        }
        i += 1;
    }
}

/// Where the parts of a scientific notation stand in its text: the whole
/// part from `start` up to `dot`, the fraction behind the point up to `end`,
/// and an exponent of `size`, negative where `down` is set.
pub struct Shape {
    pub start: usize,
    pub dot: usize,
    pub end: usize,
    pub down: bool,
    pub size: usize,
}

impl Shape {
    /// The parts that the shape marks in a text.
    pub open spec fn parts(self, text: Seq<char>) -> Parts {
        Parts {
            negative: self.start == 1,
            whole: text.subrange(self.start as int, self.dot as int),
            fraction: text.subrange(self.dot + 1, self.end as int),
            exponent: if self.down {
                -(self.size as int)
            } else {
                self.size as int
            },
        }
    }

    /// The shape lies within a text.
    pub open spec fn fits(self, text: Seq<char>) -> bool {
        &&& self.start <= 1
        &&& self.start < self.dot < self.end <= text.len()
        &&& self.size < 10000
    }
}

/// Finds the parts of a scientific notation.
fn measure(text: &str) -> (r: Option<Shape>)
    ensures
        match r {
            Some(shape) => shape.fits(text@) && scientific(text@) == Some(shape.parts(text@)),
            None => scientific(text@) is None,
        },
{
    let n: usize = text.unicode_len();
    let start: usize = if n > 0 && text.get_char(0) == '-' {
        1
    } else {
        0
    };
    let dot: usize = find(text, '.', start);
    let mark: usize = find(text, 'E', dot);
    if !(start < dot && dot < mark && mark - dot > 1 && mark < n && n - mark > 2 && n - mark - 2
        <= MAX_EXPONENT_DIGITS) {
        return None;
    }
    let sign: char = text.get_char(mark + 1);
    if !digits_between(text, start, dot) || !digits_between(text, dot + 1, mark) || !(sign == '+'
        || sign == '-') || !digits_between(text, mark + 2, n) {
        return None;
    }
    let size: usize = value_between(text, mark + 2, n);
    let end: usize = trim_between(text, dot + 1, mark);
    Some(Shape { start, dot, end, down: sign == '-', size })
}

/// Writes the digits with the point behind them, or among them.
fn write_up(text: &str, shape: &Shape, out: &mut String)
    requires
        shape.fits(text@),
        !shape.down || shape.size == 0,
    ensures
        final(out)@ == old(out)@ + pointed(
            shape.parts(text@).whole + shape.parts(text@).fraction,
            shape.parts(text@).whole.len() + shape.size,
        ),
{
    let ghost parts = shape.parts(text@);
    let ghost digits = parts.whole + parts.fraction;
    let behind: usize = shape.end - (shape.dot + 1);
    out.append(text.substring_char(shape.start, shape.dot));
    if shape.size >= behind {
        out.append(text.substring_char(shape.dot + 1, shape.end));
        pad(out, shape.size - behind);
        assert(out@ =~= old(out)@ + (digits + zeros((shape.size - behind) as nat)));
    } else {
        let cut: usize = shape.dot + 1 + shape.size;
        out.append(text.substring_char(shape.dot + 1, cut));
        out.append(".");
        out.append(text.substring_char(cut, shape.end));
        proof {
            reveal_strlit(".");
            let point = parts.whole.len() + shape.size;
            assert("."@ =~= seq!['.']);
            assert(digits.subrange(0, point) =~= parts.whole + text@.subrange(
                shape.dot + 1,
                cut as int,
            ));
            assert(digits.subrange(point, digits.len() as int) =~= text@.subrange(
                cut as int,
                shape.end as int,
            ));
            assert(out@ =~= old(out)@ + (digits.subrange(0, point) + seq!['.'] + digits.subrange(
                point,
                digits.len() as int,
            )));
        }
    }
}

/// Writes the digits with the point among them, or before them.
fn write_down(text: &str, shape: &Shape, out: &mut String)
    requires
        shape.fits(text@),
        shape.down,
        shape.size > 0,
    ensures
        final(out)@ == old(out)@ + pointed(
            shape.parts(text@).whole + shape.parts(text@).fraction,
            shape.parts(text@).whole.len() - shape.size,
        ),
{
    let ghost parts = shape.parts(text@);
    let ghost digits = parts.whole + parts.fraction;
    let before: usize = shape.dot - shape.start;
    if shape.size < before {
        let cut: usize = shape.dot - shape.size;
        out.append(text.substring_char(shape.start, cut));
        out.append(".");
        out.append(text.substring_char(cut, shape.dot));
        out.append(text.substring_char(shape.dot + 1, shape.end));
        proof {
            reveal_strlit(".");
            let point = parts.whole.len() - shape.size;
            assert("."@ =~= seq!['.']);
            assert(digits.subrange(0, point) =~= text@.subrange(shape.start as int, cut as int));
            assert(digits.subrange(point, digits.len() as int) =~= text@.subrange(
                cut as int,
                shape.dot as int,
            ) + parts.fraction);
            assert(out@ =~= old(out)@ + (digits.subrange(0, point) + seq!['.'] + digits.subrange(
                point,
                digits.len() as int,
            )));
        }
    } else {
        out.append("0.");
        pad(out, shape.size - before);
        out.append(text.substring_char(shape.start, shape.dot));
        out.append(text.substring_char(shape.dot + 1, shape.end));
        proof {
            reveal_strlit("0.");
            assert("0."@ =~= seq!['0', '.']);
            assert(out@ =~= old(out)@ + (seq!['0', '.'] + zeros((shape.size - before) as nat)
                + digits));
        }
    }
}

/// Writes a number in positional notation from its scientific notation.
pub fn positional(text: &str) -> (r: String)
    ensures
        r@ == positional_text(text@),
{
    match measure(text) {
        Some(shape) => {
            let mut out = String::new();
            if shape.start == 1 {
                out.append("-");
            }
            proof {
                reveal_strlit("-");
                assert("-"@ =~= seq!['-']);
            }
            let ghost head = out@;
            if shape.down && shape.size > 0 {
                write_down(text, &shape, &mut out);
            } else {
                write_up(text, &shape, &mut out);
            }
            proof {
                let parts = shape.parts(text@);
                let body = pointed(parts.whole + parts.fraction, parts.whole.len() + parts.exponent);
                assert(out@ == head + body);
                assert(head + body =~= laid_out(parts));
            }
            out
        },
        None => String::from_str(text),
    }
}

} // verus!
