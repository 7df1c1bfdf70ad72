//! Finding a calendar date written inside a file name.
//!
//! A name is tried against an ordered list of date layouts, first match wins.
//! Each layout looks only at its leftmost occurrence in the name; when the
//! digits found there do not form a real day, the next layout is tried.
//! The compact and dashed day-first layouts read the same digits as the
//! month-first layouts before them, so they can only succeed where the
//! month-first reading is no real day (e.g. `31122023`).
use vstd::prelude::*;
use crate::date::{valid_ymd, CalendarDate};

verus! {

pub open spec fn is_digit(c: char) -> bool {
    '0' <= c && c <= '9'
}

pub open spec fn digit_value(c: char) -> int {
    c as int - '0' as int
}

/// `n` ASCII digits stand in `s` from index `i` on.
pub open spec fn digits_at(s: Seq<char>, i: int, n: int) -> bool {
    0 <= i && 0 <= n && i + n <= s.len() && forall|k: int| 0 <= k < n ==> is_digit(#[trigger] s[i + k])
}

/// The decimal value of the `n` characters of `s` from index `i` on.
pub open spec fn number_at(s: Seq<char>, i: int, n: nat) -> int
    decreases n,
{
    if n == 0 {
        0
    } else {
        number_at(s, i, (n - 1) as nat) * 10 + digit_value(s[i + n - 1])
    }
}

/// The name begins with `DDDD-DD-DD`, whatever the digits are.
pub open spec fn has_iso_prefix(s: Seq<char>) -> bool {
    digits_at(s, 0, 4) && s[4] == '-' && digits_at(s, 5, 2) && s[7] == '-' && digits_at(s, 8, 2)
}

/// The two shapes of digit groups that a layout looks for anywhere in a name.
#[derive(Clone, Copy, Debug, PartialEq, Eq, Structural)]
pub enum Shape {
    /// Eight digits in a row.
    Compact,
    /// `DD-DD-DDDD`.
    Dashed,
}

pub open spec fn shape_at(s: Seq<char>, i: int, shape: Shape) -> bool {
    match shape {
        Shape::Compact => digits_at(s, i, 8),
        Shape::Dashed => digits_at(s, i, 2) && digits_at(s, i + 3, 2) && digits_at(s, i + 6, 4)
            && s[i + 2] == '-' && s[i + 5] == '-',
    }
}

/// The leftmost index, from `i` on, where `shape` occurs in `s`.
pub open spec fn first_shape_from(s: Seq<char>, i: int, shape: Shape) -> Option<int>
    decreases s.len() - i,
{
    if i < 0 || i >= s.len() {
        None
    } else if shape_at(s, i, shape) {
        Some(i)
    } else {
        first_shape_from(s, i + 1, shape)
    }
}

/// The order in which a layout's three number groups give year, month and day.
#[derive(Clone, Copy, Debug, PartialEq, Eq, Structural)]
pub enum FieldOrder {
    YearMonthDay,
    MonthDayYear,
    DayMonthYear,
}

/// The (year, month, day) that `order` reads from the groups `a`, `b`, `c`.
pub open spec fn ordered(order: FieldOrder, a: int, b: int, c: int) -> (int, int, int) {
    match order {
        FieldOrder::YearMonthDay => (a, b, c),
        FieldOrder::MonthDayYear => (c, a, b),
        FieldOrder::DayMonthYear => (c, b, a),
    }
}

/// The three number groups of `shape` at index `p`.
pub open spec fn groups_at(s: Seq<char>, p: int, shape: Shape) -> (int, int, int) {
    match shape {
        Shape::Compact => (number_at(s, p, 4), number_at(s, p + 4, 2), number_at(s, p + 6, 2)),
        Shape::Dashed => (number_at(s, p, 2), number_at(s, p + 3, 2), number_at(s, p + 6, 4)),
    }
}

/// Groups of the compact shape read as two, two and four digits.
pub open spec fn short_groups_at(s: Seq<char>, p: int) -> (int, int, int) {
    (number_at(s, p, 2), number_at(s, p + 2, 2), number_at(s, p + 4, 4))
}

/// The candidate (year, month, day) of the leading `YYYY-MM-DD`.
pub open spec fn iso_candidate(s: Seq<char>) -> Option<(int, int, int)> {
    if has_iso_prefix(s) {
        Some((number_at(s, 0, 4), number_at(s, 5, 2), number_at(s, 8, 2)))
    } else {
        None
    }
}

/// The candidate (year, month, day) of a layout that searches for `shape` and reads
/// the groups in `order`. Eight contiguous digits are read as four, two and two
/// when the year comes first, else as two, two and four.
pub open spec fn layout_candidate(s: Seq<char>, shape: Shape, order: FieldOrder) -> Option<(int, int, int)> {
    match first_shape_from(s, 0, shape) {
        None => None,
        Some(p) => {
            let g = if shape == Shape::Compact && order != FieldOrder::YearMonthDay {
                short_groups_at(s, p)
            } else {
                groups_at(s, p, shape)
            };
            Some(ordered(order, g.0, g.1, g.2))
        },
    }
}

pub open spec fn accepted(t: Option<(int, int, int)>) -> bool {
    t matches Some(v) && valid_ymd(v.0, v.1, v.2)
}

/// The date found in a name: the first candidate, in priority order, that is a
/// real day.
pub open spec fn date_in_name(s: Seq<char>) -> Option<(int, int, int)> {
    let c1 = iso_candidate(s);
    let c2 = layout_candidate(s, Shape::Compact, FieldOrder::YearMonthDay);
    let c3 = layout_candidate(s, Shape::Compact, FieldOrder::MonthDayYear);
    let c4 = layout_candidate(s, Shape::Dashed, FieldOrder::MonthDayYear);
    let c5 = layout_candidate(s, Shape::Compact, FieldOrder::DayMonthYear);
    let c6 = layout_candidate(s, Shape::Dashed, FieldOrder::DayMonthYear);
    if accepted(c1) {
        c1
    } else if accepted(c2) {
        c2
    } else if accepted(c3) {
        c3
    } else if accepted(c4) {
        c4
    } else if accepted(c5) {
        c5
    } else if accepted(c6) {
        c6
    } else {
        None
    }
}

pub open spec fn ymd_of(c: CalendarDate) -> (int, int, int) {
    (c.spec_year(), c.spec_month(), c.spec_day())
}

pub open spec fn date_view(r: Option<CalendarDate>) -> Option<(int, int, int)> {
    match r {
        Some(c) => Some(ymd_of(c)),
        None => None,
    }
}

pub open spec fn pow10(n: nat) -> int
    decreases n,
{
    if n == 0 {
        1
    } else {
        10 * pow10((n - 1) as nat)
    }
}

proof fn lemma_number_bounds(s: Seq<char>, i: int, n: nat, k: nat)
    requires
        digits_at(s, i, n as int),
        k <= n,
    ensures
        0 <= number_at(s, i, k) < pow10(k),
    decreases k,
{
    if k > 0 {
        lemma_number_bounds(s, i, n, (k - 1) as nat);
        assert(is_digit(s[i + (k - 1)]));
        let prev = number_at(s, i, (k - 1) as nat);
        assert(prev * 10 + 9 < pow10(k)) by (nonlinear_arith)
            requires
                prev < pow10((k - 1) as nat),
                pow10(k) == 10 * pow10((k - 1) as nat),
        ;
    }
}

/// The characters of `s`, in order.
pub fn chars_of(s: &str) -> (r: Vec<char>)
    ensures
        r@ == s@,
{
    let n = s.unicode_len();
    let mut out: Vec<char> = Vec::new();
    let mut i: usize = 0;
    while i < n
        invariant
            n == s@.len(),
            i <= n,
            out@ == s@.subrange(0, i as int),
        decreases n - i,
    {
        out.push(s.get_char(i));
        i += 1;
        assert(out@ =~= s@.subrange(0, i as int));
    }
    assert(out@ =~= s@);
    out
}

fn digits_exec(s: &Vec<char>, i: usize, n: usize) -> (r: bool)
    ensures
        r == digits_at(s@, i as int, n as int),
{
    if n > s.len() || i > s.len() - n {
        return false;
    }
    let mut k: usize = 0;
    while k < n
        invariant
            k <= n,
            i + n <= s.len(),
            forall|j: int| 0 <= j < k ==> is_digit(#[trigger] s@[i + j]),
        decreases n - k,
    {
        let c = s[i + k];
        if !('0' <= c && c <= '9') {
            assert(!is_digit(s@[i + k as int]));
            return false;
        }
        k += 1;
    }
    true
}

/// The value of the `n` digits of `s` from index `i` on.
fn number_exec(s: &Vec<char>, i: usize, n: usize) -> (r: u32)
    requires
        digits_at(s@, i as int, n as int),
        n <= 4,
    ensures
        r == number_at(s@, i as int, n as nat),
{
    let mut acc: u32 = 0;
    let mut k: usize = 0;
    while k < n
        invariant
            k <= n <= 4,
            i + n <= s.len(),
            digits_at(s@, i as int, n as int),
            acc == number_at(s@, i as int, k as nat),
        decreases n - k,
    {
        proof {
            lemma_number_bounds(s@, i as int, n as nat, k as nat);
            assert(pow10(k as nat) <= 1000) by {
                reveal_with_fuel(pow10, 4);
            }
            assert(is_digit(s@[i + k as int]));
        }
        let c = s[i + k];
        acc = acc * 10 + (c as u32 - '0' as u32);
        k += 1;
    }
    acc
}

fn shape_exec(s: &Vec<char>, i: usize, shape: Shape) -> (r: bool)
    ensures
        r == shape_at(s@, i as int, shape),
{
    match shape {
        Shape::Compact => digits_exec(s, i, 8),
        Shape::Dashed => {
            if i >= s.len() || s.len() - i < 10 {
                return false;
            }
            digits_exec(s, i, 2) && digits_exec(s, i + 3, 2) && digits_exec(s, i + 6, 4)
                && s[i + 2] == '-' && s[i + 5] == '-'
        },
    }
}

fn find_shape(s: &Vec<char>, shape: Shape) -> (r: Option<usize>)
    ensures
        r matches Some(p) ==> first_shape_from(s@, 0, shape) == Some(p as int) && s@.len() <= usize::MAX,
        r is None ==> first_shape_from(s@, 0, shape) is None,
{
    let mut i: usize = 0;
    while i < s.len()
        invariant
            i <= s@.len(),
            first_shape_from(s@, 0, shape) == first_shape_from(s@, i as int, shape),
        decreases s@.len() - i,
    {
        if shape_exec(s, i, shape) {
            return Some(i);
        }
        i += 1;
    }
    None
}

pub open spec fn triple_view(t: Option<(u32, u32, u32)>) -> Option<(int, int, int)> {
    match t {
        Some(v) => Some((v.0 as int, v.1 as int, v.2 as int)),
        None => None,
    }
}

fn iso_exec(s: &Vec<char>) -> (r: Option<(u32, u32, u32)>)
    ensures
        triple_view(r) == iso_candidate(s@),
{
    if digits_exec(s, 0, 4) && s.len() >= 10 && s[4] == '-' && digits_exec(s, 5, 2) && s[7] == '-'
        && digits_exec(s, 8, 2) {
        Some((number_exec(s, 0, 4), number_exec(s, 5, 2), number_exec(s, 8, 2)))
    } else {
        None
    }
}

fn layout_exec(s: &Vec<char>, shape: Shape, order: FieldOrder) -> (r: Option<(u32, u32, u32)>)
    ensures
        triple_view(r) == layout_candidate(s@, shape, order),
{
    match find_shape(s, shape) {
        None => None,
        Some(p) => {
            proof {
                lemma_first_shape_found(s@, 0, shape);
                if shape == Shape::Compact {
                    lemma_digits_within(s@, p as int, 8, 2, 2);
                    lemma_digits_within(s@, p as int, 8, 4, 4);
                    lemma_digits_within(s@, p as int, 8, 4, 2);
                    lemma_digits_within(s@, p as int, 8, 6, 2);
                    lemma_digits_within(s@, p as int, 8, 0, 4);
                    lemma_digits_within(s@, p as int, 8, 0, 2);
                }
            }
            let (a, b, c) = if shape == Shape::Compact && order != FieldOrder::YearMonthDay {
                (number_exec(s, p, 2), number_exec(s, p + 2, 2), number_exec(s, p + 4, 4))
            } else {
                match shape {
                    Shape::Compact => (
                        number_exec(s, p, 4),
                        number_exec(s, p + 4, 2),
                        number_exec(s, p + 6, 2),
                    ),
                    Shape::Dashed => (
                        number_exec(s, p, 2),
                        number_exec(s, p + 3, 2),
                        number_exec(s, p + 6, 4),
                    ),
                }
            };
            match order {
                FieldOrder::YearMonthDay => Some((a, b, c)),
                FieldOrder::MonthDayYear => Some((c, a, b)),
                FieldOrder::DayMonthYear => Some((c, b, a)),
            }
        },
    }
}

proof fn lemma_digits_within(s: Seq<char>, i: int, n: int, j: int, m: int)
    requires
        digits_at(s, i, n),
        0 <= j,
        0 <= m,
        j + m <= n,
    ensures
        digits_at(s, i + j, m),
{
    assert forall|k: int| 0 <= k < m implies is_digit(#[trigger] s[i + j + k]) by {
        assert(is_digit(s[i + (j + k)]));
    }
}

proof fn lemma_first_shape_found(s: Seq<char>, i: int, shape: Shape)
    ensures
        first_shape_from(s, i, shape) matches Some(p) ==> shape_at(s, p, shape) && i <= p < s.len(),
    decreases s.len() - i,
{
    if 0 <= i < s.len() && !shape_at(s, i, shape) {
        lemma_first_shape_found(s, i + 1, shape);
    }
}

fn accept_exec(t: Option<(u32, u32, u32)>) -> (r: Option<CalendarDate>)
    ensures
        r.is_some() == accepted(triple_view(t)),
        r.is_some() ==> date_view(r) == triple_view(t),
{
    match t {
        None => None,
        Some((y, m, d)) => CalendarDate::new(y as i64, m as i64, d as i64),
    }
}

/// The date written in `name`, found by trying the layouts in priority order:
/// a leading `YYYY-MM-DD`, then `YYYYMMDD`, `MMDDYYYY`, `MM-DD-YYYY`, `DDMMYYYY`
/// and `DD-MM-YYYY` anywhere in the name; `None` where none gives a real day.
pub fn match_date(name: &str) -> (r: Option<CalendarDate>)
    ensures
        date_view(r) == date_in_name(name@),
        r matches Some(c) ==> c.wf(),
{
    let s = chars_of(name);
    let r1 = accept_exec(iso_exec(&s));
    if r1.is_some() {
        return r1;
    }
    let r2 = accept_exec(layout_exec(&s, Shape::Compact, FieldOrder::YearMonthDay));
    if r2.is_some() {
        return r2;
    }
    let r3 = accept_exec(layout_exec(&s, Shape::Compact, FieldOrder::MonthDayYear));
    if r3.is_some() {
        return r3;
    }
    let r4 = accept_exec(layout_exec(&s, Shape::Dashed, FieldOrder::MonthDayYear));
    if r4.is_some() {
        return r4;
    }
    let r5 = accept_exec(layout_exec(&s, Shape::Compact, FieldOrder::DayMonthYear));
    if r5.is_some() {
        return r5;
    }
    accept_exec(layout_exec(&s, Shape::Dashed, FieldOrder::DayMonthYear))
}

/// Whether `name` already begins with `DDDD-DD-DD`, real day or not.
pub fn is_already_dated(name: &str) -> (r: bool)
    ensures
        r == has_iso_prefix(name@),
{
    let s = chars_of(name);
    digits_exec(&s, 0, 4) && s.len() >= 10 && s[4] == '-' && digits_exec(&s, 5, 2) && s[7] == '-'
        && digits_exec(&s, 8, 2)
}

} // verus!
