//! Atom shapes read from text.
//!
//! The text lists one atom per line as seven whitespace-separated fields:
//! `x y z r g b a`, three signed 32-bit lattice coordinates and four 8-bit
//! color channels. Blank lines, comment lines (whose first non-blank character
//! is `#`) and lines with any other number of fields are skipped. An atom lands
//! at lattice point `(x - 70, y - 25, z - 10, 0)`.
use vstd::prelude::*;
use crate::lattice::{LatticePoint, AtomColor, LatticeAtom};
use crate::strings::chars_of;

verus! {

/// Why a text could not be read as atoms.
#[derive(PartialEq, Eq, Structural, Clone, Copy, Debug)]
pub enum AtomsTextError {
    /// A seven-field line holds a field that is not a number of its kind.
    BadNumber,
    /// A coordinate, once shifted, leaves the range of `i32`.
    CoordinateOutOfRange,
}

/// The characters with the Unicode `White_Space` property.
pub open spec fn is_white_space(c: char) -> bool {
    let u = c as u32;
    ||| u == 0x20
    ||| 0x09 <= u <= 0x0d
    ||| u == 0x85
    ||| u == 0xa0
    ||| u == 0x1680
    ||| 0x2000 <= u <= 0x200a
    ||| u == 0x2028
    ||| u == 0x2029
    ||| u == 0x202f
    ||| u == 0x205f
    ||| u == 0x3000
}

/// Whether `c` is white space in the sense of Unicode's `White_Space` property.
pub fn is_white_space_char(c: char) -> (b: bool)
    ensures
        b == is_white_space(c),
{
    let u = c as u32;
    u == 0x20 || (0x09 <= u && u <= 0x0d) || u == 0x85 || u == 0xa0 || u == 0x1680
        || (0x2000 <= u && u <= 0x200a) || u == 0x2028 || u == 0x2029 || u == 0x202f
        || u == 0x205f || u == 0x3000
}

/// The pieces of `s` between newline characters, in order; there is always at
/// least one piece.
pub open spec fn lines_of(s: Seq<char>) -> Seq<Seq<char>>
    decreases s.len(),
{
    if s.len() == 0 {
        seq![Seq::empty()]
    } else {
        let prev = lines_of(s.drop_last());
        if s.last() == '\n' {
            prev.push(Seq::empty())
        } else {
            prev.update(prev.len() - 1, prev.last().push(s.last()))
        }
    }
}

/// The maximal runs of non-white-space characters of `s`, in order.
pub open spec fn fields_of(s: Seq<char>) -> Seq<Seq<char>>
    decreases s.len(),
{
    if s.len() == 0 {
        Seq::empty()
    } else {
        let prev = fields_of(s.drop_last());
        if is_white_space(s.last()) {
            prev
        } else if s.len() > 1 && !is_white_space(s[s.len() - 2]) {
            prev.update(prev.len() - 1, prev.last().push(s.last()))
        } else {
            prev.push(seq![s.last()])
        }
    }
}

pub open spec fn is_digit(c: char) -> bool {
    '0' <= c <= '9'
}

pub open spec fn all_digits(s: Seq<char>) -> bool {
    forall|i: int| 0 <= i < s.len() ==> is_digit(#[trigger] s[i])
}

/// The number that the decimal digits `s` spell.
pub open spec fn decimal_value(s: Seq<char>) -> int
    decreases s.len(),
{
    if s.len() == 0 {
        0
    } else {
        decimal_value(s.drop_last()) * 10 + (s.last() as int - '0' as int)
    }
}

/// A signed decimal: an optional `+` or `-` and at least one digit, within `i32`.
pub open spec fn signed_decimal(s: Seq<char>) -> Option<int> {
    let signed = s.len() > 0 && (s[0] == '+' || s[0] == '-');
    let digits = if signed { s.skip(1) } else { s };
    let v = if s.len() > 0 && s[0] == '-' { -decimal_value(digits) } else { decimal_value(digits) };
    if digits.len() > 0 && all_digits(digits) && i32::MIN <= v <= i32::MAX {
        Some(v)
    } else {
        None
    }
}

/// An unsigned decimal: an optional `+` and at least one digit, at most 255.
pub open spec fn byte_decimal(s: Seq<char>) -> Option<int> {
    let digits = if s.len() > 0 && s[0] == '+' { s.skip(1) } else { s };
    if digits.len() > 0 && all_digits(digits) && decimal_value(digits) <= 255 {
        Some(decimal_value(digits))
    } else {
        None
    }
}

/// What one line of the text contributes.
pub enum LineOutcome {
    Skip,
    Atom(LatticeAtom),
    Fail(AtomsTextError),
}

/// A line is read by its fields: a line without seven fields, or whose first field
/// starts with `#`, is skipped (a carriage return before the newline is white space
/// and falls away with the blanks); otherwise the three coordinates and the four
/// channels must be numbers of their kinds, and the shifted coordinates must fit.
pub open spec fn line_outcome(line: Seq<char>) -> LineOutcome {
    let f = fields_of(line);
    if f.len() != 7 || f[0][0] == '#' {
        LineOutcome::Skip
    } else if signed_decimal(f[0]) is None || signed_decimal(f[1]) is None
        || signed_decimal(f[2]) is None || byte_decimal(f[3]) is None
        || byte_decimal(f[4]) is None || byte_decimal(f[5]) is None
        || byte_decimal(f[6]) is None {
        LineOutcome::Fail(AtomsTextError::BadNumber)
    } else {
        let x = signed_decimal(f[0])->0 - 70;
        let y = signed_decimal(f[1])->0 - 25;
        let z = signed_decimal(f[2])->0 - 10;
        if x < i32::MIN || y < i32::MIN || z < i32::MIN {
            LineOutcome::Fail(AtomsTextError::CoordinateOutOfRange)
        } else {
            LineOutcome::Atom(LatticeAtom {
                point: LatticePoint { x: x as i32, y: y as i32, z: z as i32, w: 0 },
                color: AtomColor::Rgba8 {
                    r: byte_decimal(f[3])->0 as u8,
                    g: byte_decimal(f[4])->0 as u8,
                    b: byte_decimal(f[5])->0 as u8,
                    a: byte_decimal(f[6])->0 as u8,
                },
            })
        }
    }
}

/// The atoms of the lines `ls`, in order; the first failing line decides the error.
pub open spec fn atoms_of_lines(ls: Seq<Seq<char>>) -> Result<Seq<LatticeAtom>, AtomsTextError>
    decreases ls.len(),
{
    if ls.len() == 0 {
        Ok(Seq::empty())
    } else {
        match atoms_of_lines(ls.drop_last()) {
            Err(e) => Err(e),
            Ok(acc) => match line_outcome(ls.last()) {
                LineOutcome::Skip => Ok(acc),
                LineOutcome::Atom(a) => Ok(acc.push(a)),
                LineOutcome::Fail(e) => Err(e),
            },
        }
    }
}

/// The atoms that the text `s` describes.
pub open spec fn atoms_of_text(s: Seq<char>) -> Result<Seq<LatticeAtom>, AtomsTextError> {
    atoms_of_lines(lines_of(s))
}

// ---------------------------------------------------------------------------

pub open spec fn pieces(chars: Seq<char>, ranges: Seq<(usize, usize)>) -> Seq<Seq<char>> {
    ranges.map_values(|r: (usize, usize)| chars.subrange(r.0 as int, r.1 as int))
}

pub open spec fn ranges_within(ranges: Seq<(usize, usize)>, lo: int, hi: int) -> bool {
    forall|k: int| 0 <= k < ranges.len() ==> lo <= (#[trigger] ranges[k]).0 <= ranges[k].1 <= hi
}

fn line_ranges(chars: &Vec<char>) -> (ranges: Vec<(usize, usize)>)
    ensures
        ranges_within(ranges@, 0, chars.len() as int),
        pieces(chars@, ranges@) == lines_of(chars@),
{
    let mut ranges: Vec<(usize, usize)> = Vec::new();
    ranges.push((0, 0));
    let mut i: usize = 0;
    assert(chars@.take(0) =~= Seq::<char>::empty());
    assert(pieces(chars@, ranges@) =~= lines_of(chars@.take(0)));
    while i < chars.len()
        invariant
            0 <= i <= chars.len(),
            ranges.len() > 0,
            ranges_within(ranges@, 0, i as int),
            ranges@.last().1 == i,
            pieces(chars@, ranges@) == lines_of(chars@.take(i as int)),
        decreases chars.len() - i,
    {
        let ghost prev = ranges@;
        let c = chars[i];
        assert(chars@.take(i + 1).drop_last() =~= chars@.take(i as int));
        if c == '\n' {
            ranges.push((i + 1, i + 1));
            assert(chars@.subrange(i + 1, i + 1) =~= Seq::<char>::empty());
            assert(pieces(chars@, ranges@) =~= pieces(chars@, prev).push(Seq::empty()));
        } else {
            let last = ranges.len() - 1;
            let (s, _) = ranges[last];
            ranges.set(last, (s, i + 1));
            assert(chars@.subrange(s as int, i + 1) =~= chars@.subrange(s as int, i as int).push(c));
            assert(pieces(chars@, ranges@) =~= pieces(chars@, prev).update(
                last as int,
                pieces(chars@, prev).last().push(c),
            ));
        }
        i = i + 1;
    }
    assert(chars@.take(chars.len() as int) =~= chars@);
    ranges
}

fn field_ranges(chars: &Vec<char>, lo: usize, hi: usize) -> (ranges: Vec<(usize, usize)>)
    requires
        lo <= hi <= chars.len(),
    ensures
        ranges_within(ranges@, lo as int, hi as int),
        forall|k: int| 0 <= k < ranges@.len() ==> (#[trigger] ranges@[k]).0 < ranges@[k].1,
        pieces(chars@, ranges@) == fields_of(chars@.subrange(lo as int, hi as int)),
{
    let mut ranges: Vec<(usize, usize)> = Vec::new();
    let mut i: usize = lo;
    assert(pieces(chars@, ranges@) =~= fields_of(chars@.subrange(lo as int, lo as int)));
    while i < hi
        invariant
            lo <= i <= hi <= chars.len(),
            ranges_within(ranges@, lo as int, i as int),
            forall|k: int| 0 <= k < ranges@.len() ==> (#[trigger] ranges@[k]).0 < ranges@[k].1,
            i > lo && !is_white_space(chars@[i - 1]) ==> ranges.len() > 0 && ranges@.last().1 == i,
            pieces(chars@, ranges@) == fields_of(chars@.subrange(lo as int, i as int)),
        decreases hi - i,
    {
        let ghost prev = ranges@;
        let c = chars[i];
        let ghost sub = chars@.subrange(lo as int, i + 1);
        assert(sub.drop_last() =~= chars@.subrange(lo as int, i as int));
        assert(sub.last() == c);
        if is_white_space_char(c) {
        } else if i > lo && !is_white_space_char(chars[i - 1]) {
            assert(sub[sub.len() - 2] == chars@[i - 1]);
            let last = ranges.len() - 1;
            let (s, _) = ranges[last];
            ranges.set(last, (s, i + 1));
            assert(chars@.subrange(s as int, i + 1) =~= chars@.subrange(s as int, i as int).push(c));
            assert(pieces(chars@, ranges@) =~= pieces(chars@, prev).update(
                last as int,
                pieces(chars@, prev).last().push(c),
            ));
        } else {
            if i > lo {
                assert(sub[sub.len() - 2] == chars@[i - 1]);
            }
            ranges.push((i, i + 1));
            assert(chars@.subrange(i as int, i + 1) =~= seq![c]);
            assert(pieces(chars@, ranges@) =~= pieces(chars@, prev).push(seq![c]));
        }
        i = i + 1;
    }
    ranges
}

proof fn lemma_decimal_prefix(s: Seq<char>, k: int)
    requires
        all_digits(s),
        0 <= k <= s.len(),
    ensures
        0 <= decimal_value(s.take(k)) <= decimal_value(s),
    decreases s.len() - k,
{
    if k < s.len() {
        lemma_decimal_prefix(s, k + 1);
        assert(s.take(k + 1).drop_last() =~= s.take(k));
        lemma_decimal_nonneg(s.take(k));
    } else {
        assert(s.take(k) =~= s);
        lemma_decimal_nonneg(s);
    }
}

proof fn lemma_decimal_nonneg(s: Seq<char>)
    requires
        all_digits(s),
    ensures
        decimal_value(s) >= 0,
    decreases s.len(),
{
    if s.len() > 0 {
        assert(all_digits(s.drop_last()));
        lemma_decimal_nonneg(s.drop_last());
    }
}

/// The value of the digits `chars[lo..hi]` when they are all decimal digits and
/// the value is at most `limit`.
fn decimal_in(chars: &Vec<char>, lo: usize, hi: usize, limit: u64) -> (v: Option<u64>)
    requires
        lo <= hi <= chars.len(),
        limit <= u32::MAX,
    ensures
        ({
            let s = chars@.subrange(lo as int, hi as int);
            match v {
                Some(v) => all_digits(s) && v == decimal_value(s) && v <= limit,
                None => !(all_digits(s) && decimal_value(s) <= limit),
            }
        }),
{
    let ghost s = chars@.subrange(lo as int, hi as int);
    let mut v: u64 = 0;
    let mut i = lo;
    assert(s.take(0) =~= Seq::<char>::empty());
    while i < hi
        invariant
            lo <= i <= hi <= chars.len(),
            limit <= u32::MAX,
            s == chars@.subrange(lo as int, hi as int),
            all_digits(s.take(i - lo)),
            v == decimal_value(s.take(i - lo)),
            v <= limit,
        decreases hi - i,
    {
        let c = chars[i];
        assert(s[i - lo] == c);
        if !('0' <= c && c <= '9') {
            assert(!all_digits(s));
            return None;
        }
        let d = ((c as u32) - ('0' as u32)) as u64;
        let nv = v * 10 + d;
        assert(s.take(i - lo + 1).drop_last() =~= s.take(i - lo));
        assert(all_digits(s.take(i - lo + 1)));
        if nv > limit {
            proof {
                if all_digits(s) {
                    lemma_decimal_prefix(s, i - lo + 1);
                }
            }
            return None;
        }
        v = nv;
        i = i + 1;
    }
    assert(s.take(hi - lo) =~= s);
    Some(v)
}

fn signed_decimal_in(chars: &Vec<char>, lo: usize, hi: usize) -> (v: Option<i32>)
    requires
        lo <= hi <= chars.len(),
    ensures
        match signed_decimal(chars@.subrange(lo as int, hi as int)) {
            Some(n) => v == Some(n as i32),
            None => v is None,
        },
{
    let ghost s = chars@.subrange(lo as int, hi as int);
    let signed = lo < hi && (chars[lo] == '+' || chars[lo] == '-');
    let negative = lo < hi && chars[lo] == '-';
    let start = if signed { lo + 1 } else { lo };
    proof {
        if signed {
            assert(s.skip(1) =~= chars@.subrange(start as int, hi as int));
        } else {
            assert(s =~= chars@.subrange(start as int, hi as int));
        }
    }
    if start == hi {
        return None;
    }
    let limit: u64 = if negative { 2147483648 } else { 2147483647 };
    match decimal_in(chars, start, hi, limit) {
        None => None,
        Some(m) => {
            if negative {
                Some((0 - (m as i64)) as i32)
            } else {
                Some(m as i32)
            }
        },
    }
}

fn byte_decimal_in(chars: &Vec<char>, lo: usize, hi: usize) -> (v: Option<u8>)
    requires
        lo <= hi <= chars.len(),
    ensures
        match byte_decimal(chars@.subrange(lo as int, hi as int)) {
            Some(n) => v == Some(n as u8),
            None => v is None,
        },
{
    let ghost s = chars@.subrange(lo as int, hi as int);
    let start = if lo < hi && chars[lo] == '+' { lo + 1 } else { lo };
    proof {
        if lo < hi && chars@[lo as int] == '+' {
            assert(s.skip(1) =~= chars@.subrange(start as int, hi as int));
        } else {
            assert(s =~= chars@.subrange(start as int, hi as int));
        }
    }
    if start == hi {
        return None;
    }
    match decimal_in(chars, start, hi, 255) {
        None => None,
        Some(m) => Some(m as u8),
    }
}


fn line_outcome_in(chars: &Vec<char>, lo: usize, hi: usize) -> (o: LineOutcome)
    requires
        lo <= hi <= chars.len(),
    ensures
        o == line_outcome(chars@.subrange(lo as int, hi as int)),
{
    let ghost line = chars@.subrange(lo as int, hi as int);
    let f = field_ranges(chars, lo, hi);
    let ghost fs = fields_of(line);
    assert(pieces(chars@, f@) == fs);
    assert(forall|k: int| 0 <= k < f@.len() ==> fs[k] == chars@.subrange(#[trigger] f@[k].0 as int, f@[k].1 as int));
    if f.len() != 7 {
        return LineOutcome::Skip;
    }
    if chars[f[0].0] == '#' {
        assert(fs[0][0] == chars@[f@[0].0 as int]);
        return LineOutcome::Skip;
    }
    assert(fs[0][0] == chars@[f@[0].0 as int]);
    let x = signed_decimal_in(chars, f[0].0, f[0].1);
    let y = signed_decimal_in(chars, f[1].0, f[1].1);
    let z = signed_decimal_in(chars, f[2].0, f[2].1);
    let r = byte_decimal_in(chars, f[3].0, f[3].1);
    let g = byte_decimal_in(chars, f[4].0, f[4].1);
    let b = byte_decimal_in(chars, f[5].0, f[5].1);
    let a = byte_decimal_in(chars, f[6].0, f[6].1);
    match (x, y, z, r, g, b, a) {
        (Some(x), Some(y), Some(z), Some(r), Some(g), Some(b), Some(a)) => {
            match (x.checked_sub(70), y.checked_sub(25), z.checked_sub(10)) {
                (Some(x), Some(y), Some(z)) => LineOutcome::Atom(LatticeAtom {
                    point: LatticePoint { x, y, z, w: 0 },
                    color: AtomColor::Rgba8 { r, g, b, a },
                }),
                _ => LineOutcome::Fail(AtomsTextError::CoordinateOutOfRange),
            }
        },
        _ => LineOutcome::Fail(AtomsTextError::BadNumber),
    }
}

proof fn lemma_error_persists(ls: Seq<Seq<char>>, j: int, e: AtomsTextError)
    requires
        0 <= j <= ls.len(),
        atoms_of_lines(ls.take(j)) == Err::<Seq<LatticeAtom>, AtomsTextError>(e),
    ensures
        atoms_of_lines(ls) == Err::<Seq<LatticeAtom>, AtomsTextError>(e),
    decreases ls.len() - j,
{
    if j < ls.len() {
        assert(ls.take(j + 1).drop_last() =~= ls.take(j));
        lemma_error_persists(ls, j + 1, e);
    } else {
        assert(ls.take(j) =~= ls);
    }
}

/// Reads the atoms that `text` lists, in order (see the module documentation).
/// The first line that cannot be read decides the error.
pub fn atoms_from_text(text: &str) -> (r: Result<Vec<LatticeAtom>, AtomsTextError>)
    ensures
        match atoms_of_text(text@) {
            Ok(s) => r matches Ok(v) && v@ == s,
            Err(e) => r == Err::<Vec<LatticeAtom>, AtomsTextError>(e),
        },
{
    let chars = chars_of(text);
    let lines = line_ranges(&chars);
    let ghost ls = lines_of(chars@);
    let mut atoms: Vec<LatticeAtom> = Vec::new();
    let mut k: usize = 0;
    assert(ls.take(0) =~= Seq::<Seq<char>>::empty());
    while k < lines.len()
        invariant
            chars@ == text@,
            ls == lines_of(chars@),
            ranges_within(lines@, 0, chars.len() as int),
            pieces(chars@, lines@) == ls,
            0 <= k <= lines.len(),
            atoms_of_lines(ls.take(k as int)) == Ok::<Seq<LatticeAtom>, AtomsTextError>(atoms@),
        decreases lines.len() - k,
    {
        let (lo, hi) = lines[k];
        assert(ls[k as int] == chars@.subrange(lo as int, hi as int));
        assert(ls.take(k + 1).drop_last() =~= ls.take(k as int));
        assert(ls.take(k + 1).last() == ls[k as int]);
        match line_outcome_in(&chars, lo, hi) {
            LineOutcome::Skip => {},
            LineOutcome::Atom(a) => {
                atoms.push(a);
            },
            LineOutcome::Fail(e) => {
                proof {
                    lemma_error_persists(ls, k + 1, e);
                }
                return Err(e);
            },
        }
        k = k + 1;
    }
    assert(ls.take(lines.len() as int) =~= ls);
    Ok(atoms)
}


proof fn lemma_lines_after_newline(t: Seq<char>, l: Seq<char>)
    requires
        !l.contains('\n'),
    ensures
        lines_of(t.push('\n') + l) == lines_of(t).push(l),
    decreases l.len(),
{
    if l.len() == 0 {
        assert(t.push('\n') + l =~= t.push('\n'));
        assert(t.push('\n').drop_last() =~= t);
        assert(l =~= Seq::<char>::empty());
        assert(lines_of(t.push('\n')) == lines_of(t).push(Seq::<char>::empty()));
    } else {
        let m = l.drop_last();
        assert(!m.contains('\n')) by {
            if m.contains('\n') {
                let i = choose|i: int| 0 <= i < m.len() && m[i] == '\n';
                assert(l[i] == '\n');
            }
        }
        lemma_lines_after_newline(t, m);
        let u = t.push('\n') + l;
        assert(u.drop_last() =~= t.push('\n') + m);
        assert(u.last() == l.last());
        assert(l.last() != '\n') by {
            assert(l[l.len() - 1] == l.last());
        }
        assert(lines_of(u) =~= lines_of(t).push(l)) by {
            assert(m.push(l.last()) =~= l);
        }
    }
}

/// Appending a line to a text adds what that line describes: nothing when it is
/// blank, a comment, or does not hold seven fields; its atom at the end when it
/// describes one; and an error for a malformed line unless an earlier line already
/// failed.
pub proof fn law_appended_line(t: Seq<char>, l: Seq<char>)
    requires
        !l.contains('\n'),
    ensures
        (fields_of(l).len() != 7 || fields_of(l)[0][0] == '#')
            ==> atoms_of_text(t.push('\n') + l) == atoms_of_text(t),
        line_outcome(l) is Skip ==> atoms_of_text(t.push('\n') + l) == atoms_of_text(t),
        atoms_of_text(t) matches Ok(s) ==> (line_outcome(l) matches LineOutcome::Atom(a)
            ==> atoms_of_text(t.push('\n') + l) == Ok::<Seq<LatticeAtom>, AtomsTextError>(s.push(a))),
        atoms_of_text(t) is Ok ==> (line_outcome(l) matches LineOutcome::Fail(e)
            ==> atoms_of_text(t.push('\n') + l) == Err::<Seq<LatticeAtom>, AtomsTextError>(e)),
        atoms_of_text(t) is Err ==> atoms_of_text(t.push('\n') + l) == atoms_of_text(t),
{
    lemma_lines_after_newline(t, l);
    let ls = lines_of(t).push(l);
    assert(ls.drop_last() =~= lines_of(t));
}

} // verus!
