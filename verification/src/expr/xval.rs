//! Literal values and value types of the expression language.
//!
//! A real-valued literal is kept as the exact decimal it was written as
//! (`XFloat`), sign, whole digits and fraction digits, in canonical form.

use vstd::prelude::*;

use crate::text::{is_ascii_digit, push_char, spec_is_digit};

verus! {

broadcast use vstd::string::group_string_axioms;

/// Every character of `s` is an ASCII decimal digit.
pub open spec fn all_digits(s: Seq<char>) -> bool {
    forall|i: int| 0 <= i < s.len() ==> #[trigger] spec_is_digit(s[i])
}

/// `s` without its leading `'0'` characters.
pub open spec fn strip_leading_zeros(s: Seq<char>) -> Seq<char>
    decreases s.len(),
{
    if s.len() > 0 && s[0] == '0' {
        strip_leading_zeros(s.drop_first())
    } else {
        s
    }
}

/// `s` without its trailing `'0'` characters.
pub open spec fn strip_trailing_zeros(s: Seq<char>) -> Seq<char>
    decreases s.len(),
{
    if s.len() > 0 && s.last() == '0' {
        strip_trailing_zeros(s.drop_last())
    } else {
        s
    }
}

/// The decimal digit for `d < 10`.
pub open spec fn digit_char(d: nat) -> char {
    if d == 0 {
        '0'
    } else if d == 1 {
        '1'
    } else if d == 2 {
        '2'
    } else if d == 3 {
        '3'
    } else if d == 4 {
        '4'
    } else if d == 5 {
        '5'
    } else if d == 6 {
        '6'
    } else if d == 7 {
        '7'
    } else if d == 8 {
        '8'
    } else {
        '9'
    }
}

/// The value of an ASCII digit.
pub open spec fn digit_value(c: char) -> nat {
    ((c as u32) - ('0' as u32)) as nat
}

/// The decimal digits of `n` with no leading zero; empty for zero.
pub open spec fn nat_digits(n: nat) -> Seq<char>
    decreases n,
{
    if n == 0 {
        Seq::empty()
    } else {
        nat_digits(n / 10).push(digit_char(n % 10))
    }
}

/// How `n` is written in decimal.
pub open spec fn nat_text(n: nat) -> Seq<char> {
    if n == 0 {
        seq!['0']
    } else {
        nat_digits(n)
    }
}

/// How the integer `i` is written in decimal, with a leading `-` when negative.
pub open spec fn int_text(i: int) -> Seq<char> {
    if i < 0 {
        seq!['-'] + nat_text((-i) as nat)
    } else {
        nat_text(i as nat)
    }
}

/// The number a string of decimal digits denotes.
pub open spec fn digits_value(s: Seq<char>) -> nat
    decreases s.len(),
{
    if s.len() == 0 {
        0
    } else {
        digits_value(s.drop_last()) * 10 + digit_value(s.last())
    }
}

/// An exact decimal number, as written in an expression.
pub struct SFloat {
    pub negative: bool,
    pub whole: Seq<char>,
    pub frac: Seq<char>,
}

/// Canonical form: digits only, no leading zero in the whole part, no trailing
/// zero in the fraction part (so that equal numbers have equal forms).
pub open spec fn float_wf(f: SFloat) -> bool {
    &&& all_digits(f.whole)
    &&& all_digits(f.frac)
    &&& (f.whole.len() == 0 || f.whole[0] != '0')
    &&& (f.frac.len() == 0 || f.frac.last() != '0')
}

/// How a decimal is shown: at least one digit on each side of the point.
pub open spec fn float_text(f: SFloat) -> Seq<char> {
    (if f.negative { seq!['-'] } else { Seq::empty() }) + (if f.whole.len() == 0 {
        seq!['0']
    } else {
        f.whole
    }) + seq!['.'] + (if f.frac.len() == 0 {
        seq!['0']
    } else {
        f.frac
    })
}

/// The decimal with the integral value `i`.
pub open spec fn float_of_int(i: int) -> SFloat {
    SFloat {
        negative: i < 0,
        whole: nat_digits((if i < 0 { -i } else { i }) as nat),
        frac: Seq::empty(),
    }
}

/// A decimal number literal: sign, whole digits and fraction digits.
#[derive(Debug, PartialEq)]
pub struct XFloat {
    pub negative: bool,
    pub whole: String,
    pub frac: String,
}

impl View for XFloat {
    type V = SFloat;

    open spec fn view(&self) -> SFloat {
        SFloat { negative: self.negative, whole: self.whole@, frac: self.frac@ }
    }
}

/// A literal value, as the language sees it.
pub enum SValue {
    Float(SFloat),
    Integer(i32),
    Vec2(SFloat, SFloat),
    Vec3(SFloat, SFloat, SFloat),
}

/// Literal values.
#[derive(Debug, PartialEq)]
pub enum XValue {
    Float(XFloat),
    Integer(i32),
    Vec2(XFloat, XFloat),
    Vec3(XFloat, XFloat, XFloat),
}

impl View for XValue {
    type V = SValue;

    open spec fn view(&self) -> SValue {
        match self {
            XValue::Float(f) => SValue::Float(f@),
            XValue::Integer(i) => SValue::Integer(*i),
            XValue::Vec2(x, y) => SValue::Vec2(x@, y@),
            XValue::Vec3(x, y, z) => SValue::Vec3(x@, y@, z@),
        }
    }
}

/// How a value is shown.
pub open spec fn value_text(v: SValue) -> Seq<char> {
    match v {
        SValue::Float(f) => float_text(f),
        SValue::Integer(i) => int_text(i as int),
        SValue::Vec2(x, y) => "vec2("@ + float_text(x) + ", "@ + float_text(y) + ")"@,
        SValue::Vec3(x, y, z) => "vec3("@ + float_text(x) + ", "@ + float_text(y) + ", "@
            + float_text(z) + ")"@,
    }
}

/// The type of an expression's result; `Error` marks an ill-typed operation.
#[derive(Debug, Clone, Copy, PartialEq, Eq, Structural)]
pub enum XExprReturnType {
    Float,
    Integer,
    Vec2,
    Vec3,
    Error,
}

/// The name a type is shown with.
pub open spec fn spec_return_type_name(t: XExprReturnType) -> Seq<char> {
    match t {
        XExprReturnType::Float => "float"@,
        XExprReturnType::Integer => "integer"@,
        XExprReturnType::Vec2 => "vec2"@,
        XExprReturnType::Vec3 => "vec3"@,
        XExprReturnType::Error => "error"@,
    }
}

impl XExprReturnType {
    /// The name this type is shown with.
    pub fn name(&self) -> (s: &'static str)
        ensures
            s@ == spec_return_type_name(*self),
    {
        match self {
            XExprReturnType::Float => "float",
            XExprReturnType::Integer => "integer",
            XExprReturnType::Vec2 => "vec2",
            XExprReturnType::Vec3 => "vec3",
            XExprReturnType::Error => "error",
        }
    }
}

/// The decimal digits of `n` are digits, with no leading zero.
pub proof fn lemma_nat_digits_wf(n: nat)
    ensures
        all_digits(nat_digits(n)),
        nat_digits(n).len() == 0 || nat_digits(n)[0] != '0',
        n == 0 <==> nat_digits(n).len() == 0,
    decreases n,
{
    if n > 0 {
        lemma_nat_digits_wf(n / 10);
        let s = nat_digits(n);
        assert(s == nat_digits(n / 10).push(digit_char(n % 10)));
        assert(spec_is_digit(digit_char(n % 10)));
        if n / 10 == 0 {
            assert(n % 10 != 0);
            assert(s[0] == digit_char(n % 10));
        } else {
            assert(s[0] == nat_digits(n / 10)[0]);
        }
    }
}

/// Stripping leading zeros keeps a digit string a digit string.
pub proof fn lemma_strip_leading(s: Seq<char>)
    requires
        all_digits(s),
    ensures
        all_digits(strip_leading_zeros(s)),
        strip_leading_zeros(s).len() == 0 || strip_leading_zeros(s)[0] != '0',
    decreases s.len(),
{
    if s.len() > 0 && s[0] == '0' {
        assert(all_digits(s.drop_first())) by {
            assert forall|i: int| 0 <= i < s.drop_first().len() implies #[trigger] spec_is_digit(
                s.drop_first()[i],
            ) by {
                assert(s.drop_first()[i] == s[i + 1]);
            }
        }
        lemma_strip_leading(s.drop_first());
    }
}

/// Stripping trailing zeros keeps a digit string a digit string.
pub proof fn lemma_strip_trailing(s: Seq<char>)
    requires
        all_digits(s),
    ensures
        all_digits(strip_trailing_zeros(s)),
        strip_trailing_zeros(s).len() == 0 || strip_trailing_zeros(s).last() != '0',
    decreases s.len(),
{
    if s.len() > 0 && s.last() == '0' {
        assert(all_digits(s.drop_last())) by {
            assert forall|i: int| 0 <= i < s.drop_last().len() implies #[trigger] spec_is_digit(
                s.drop_last()[i],
            ) by {
                assert(s.drop_last()[i] == s[i]);
            }
        }
        lemma_strip_trailing(s.drop_last());
    }
}

/// A string holding `s[start..]` without its leading zeros.
fn strip_leading_of(s: &Vec<char>) -> (r: String)
    ensures
        r@ == strip_leading_zeros(s@),
{
    let mut i: usize = 0;
    assert(s@.subrange(0, s@.len() as int) == s@);
    while i < s.len() && s[i] == '0'
        invariant
            i <= s.len(),
            strip_leading_zeros(s@) == strip_leading_zeros(s@.subrange(i as int, s@.len() as int)),
        decreases s.len() - i,
    {
        let ghost t = s@.subrange(i as int, s@.len() as int);
        assert(t.drop_first() == s@.subrange(i + 1, s@.len() as int));
        i = i + 1;
    }
    crate::text::string_of(s, i, s.len())
}

/// A string holding `s` without its trailing zeros.
fn strip_trailing_of(s: &Vec<char>) -> (r: String)
    ensures
        r@ == strip_trailing_zeros(s@),
{
    let mut j: usize = s.len();
    assert(s@.subrange(0, s@.len() as int) == s@);
    while j > 0 && s[j - 1] == '0'
        invariant
            j <= s.len(),
            strip_trailing_zeros(s@) == strip_trailing_zeros(s@.subrange(0, j as int)),
        decreases j,
    {
        let ghost t = s@.subrange(0, j as int);
        assert(t.drop_last() == s@.subrange(0, j - 1));
        j = j - 1;
    }
    crate::text::string_of(s, 0, j)
}

/// Whether every character of `s` is a digit.
fn all_digits_exec(s: &Vec<char>) -> (b: bool)
    ensures
        b == all_digits(s@),
{
    let mut i: usize = 0;
    while i < s.len()
        invariant
            i <= s.len(),
            forall|k: int| 0 <= k < i ==> #[trigger] spec_is_digit(s@[k]),
        decreases s.len() - i,
    {
        if !is_ascii_digit(s[i]) {
            return false;
        }
        i = i + 1;
    }
    true
}

/// The digit character for `d < 10`.
fn digit_of(d: u64) -> (c: char)
    requires
        d < 10,
    ensures
        c == digit_char(d as nat),
{
    if d == 0 {
        '0'
    } else if d == 1 {
        '1'
    } else if d == 2 {
        '2'
    } else if d == 3 {
        '3'
    } else if d == 4 {
        '4'
    } else if d == 5 {
        '5'
    } else if d == 6 {
        '6'
    } else if d == 7 {
        '7'
    } else if d == 8 {
        '8'
    } else {
        '9'
    }
}

/// Appends the decimal digits of `n` (none for zero).
fn push_nat_digits(s: &mut String, n: u64)
    ensures
        final(s)@ == old(s)@ + nat_digits(n as nat),
    decreases n,
{
    if n > 0 {
        push_nat_digits(s, n / 10);
        push_char(s, digit_of(n % 10));
        assert(old(s)@ + nat_digits(n as nat) =~= (old(s)@ + nat_digits((n / 10) as nat)).push(
            digit_char((n % 10) as nat),
        ));
    }
}

/// Appends how `n` is written in decimal.
pub(crate) fn push_nat_text(s: &mut String, n: u64)
    ensures
        final(s)@ == old(s)@ + nat_text(n as nat),
{
    if n == 0 {
        push_char(s, '0');
    } else {
        push_nat_digits(s, n);
    }
}

/// Appends how the integer `i` is written in decimal.
pub fn push_int_text(s: &mut String, i: i32)
    ensures
        final(s)@ == old(s)@ + int_text(i as int),
{
    if i < 0 {
        push_char(s, '-');
        let m: i64 = -(i as i64);
        push_nat_text(s, m as u64);
        assert(old(s)@ + int_text(i as int) =~= old(s)@.push('-') + nat_text(m as nat));
    } else {
        push_nat_text(s, i as u64);
    }
}

/// Appends `t`, or `"0"` when `t` is empty.
fn push_digits_or_zero(s: &mut String, t: &String)
    ensures
        final(s)@ == old(s)@ + (if t@.len() == 0 { seq!['0'] } else { t@ }),
{
    if t.as_str().is_empty() {
        push_char(s, '0');
    } else {
        s.append(t.as_str());
    }
}

impl Clone for XFloat {
    fn clone(&self) -> (r: Self)
        ensures
            r@ == self@,
    {
        XFloat { negative: self.negative, whole: self.whole.clone(), frac: self.frac.clone() }
    }
}

impl Clone for XValue {
    fn clone(&self) -> (r: Self)
        ensures
            r@ == self@,
    {
        match self {
            XValue::Float(f) => XValue::Float(f.clone()),
            XValue::Integer(i) => XValue::Integer(*i),
            XValue::Vec2(x, y) => XValue::Vec2(x.clone(), y.clone()),
            XValue::Vec3(x, y, z) => XValue::Vec3(x.clone(), y.clone(), z.clone()),
        }
    }
}

impl XFloat {
    /// The decimal `[-]whole.frac`, in canonical form; `None` when `whole` or
    /// `frac` holds a character that is not an ASCII digit.
    pub fn from_parts(negative: bool, whole: &str, frac: &str) -> (r: Option<XFloat>)
        ensures
            match r {
                Some(f) => all_digits(whole@) && all_digits(frac@) && f@ == (SFloat {
                    negative,
                    whole: strip_leading_zeros(whole@),
                    frac: strip_trailing_zeros(frac@),
                }) && float_wf(f@),
                None => !(all_digits(whole@) && all_digits(frac@)),
            },
    {
        let w = crate::text::chars_of(whole);
        let f = crate::text::chars_of(frac);
        if !all_digits_exec(&w) || !all_digits_exec(&f) {
            return None;
        }
        proof {
            lemma_strip_leading(w@);
            lemma_strip_trailing(f@);
        }
        Some(XFloat { negative, whole: strip_leading_of(&w), frac: strip_trailing_of(&f) })
    }

    /// The decimal built from digit characters `digits[ws..we]` and `digits[fs..fe]`.
    pub(crate) fn from_digit_ranges(
        negative: bool,
        digits: &Vec<char>,
        ws: usize,
        we: usize,
        fs: usize,
        fe: usize,
    ) -> (r: XFloat)
        requires
            ws <= we <= digits.len(),
            fs <= fe <= digits.len(),
            all_digits(digits@.subrange(ws as int, we as int)),
            all_digits(digits@.subrange(fs as int, fe as int)),
        ensures
            r@ == (SFloat {
                negative,
                whole: strip_leading_zeros(digits@.subrange(ws as int, we as int)),
                frac: strip_trailing_zeros(digits@.subrange(fs as int, fe as int)),
            }),
            float_wf(r@),
    {
        let w = crate::text::vec_range(digits, ws, we);
        let f = crate::text::vec_range(digits, fs, fe);
        proof {
            lemma_strip_leading(w@);
            lemma_strip_trailing(f@);
        }
        XFloat { negative, whole: strip_leading_of(&w), frac: strip_trailing_of(&f) }
    }

    /// The decimal with the integral value `i`.
    pub fn from_int(i: i32) -> (r: XFloat)
        ensures
            r@ == float_of_int(i as int),
            float_wf(r@),
    {
        let m: i64 = if i < 0 { -(i as i64) } else { i as i64 };
        let mut whole = String::new();
        push_nat_digits(&mut whole, m as u64);
        proof {
            lemma_nat_digits_wf(m as nat);
        }
        XFloat { negative: i < 0, whole, frac: String::new() }
    }

    /// The same decimal with the opposite sign.
    pub fn negated(&self) -> (r: XFloat)
        ensures
            r@ == (SFloat { negative: !self@.negative, ..self@ }),
    {
        XFloat { negative: !self.negative, whole: self.whole.clone(), frac: self.frac.clone() }
    }

    /// How this decimal is shown, e.g. `1.5`, `2.0`, `-0.25`.
    pub fn to_string(&self) -> (s: String)
        ensures
            s@ == float_text(self@),
    {
        let mut s = String::new();
        self.push_text(&mut s);
        s
    }

    /// Appends how this decimal is shown.
    pub fn push_text(&self, s: &mut String)
        ensures
            final(s)@ == old(s)@ + float_text(self@),
    {
        if self.negative {
            push_char(s, '-');
        }
        push_digits_or_zero(s, &self.whole);
        push_char(s, '.');
        push_digits_or_zero(s, &self.frac);
        assert(final(s)@ =~= old(s)@ + float_text(self@));
    }
}

impl XValue {
    /// A real value.
    pub fn float(v: XFloat) -> (r: XValue)
        ensures
            r == XValue::Float(v),
    {
        XValue::Float(v)
    }

    /// An integer value.
    pub fn integer(v: i32) -> (r: XValue)
        ensures
            r == XValue::Integer(v),
    {
        XValue::Integer(v)
    }

    /// A 2D vector value.
    pub fn vec2(x: XFloat, y: XFloat) -> (r: XValue)
        ensures
            r == XValue::Vec2(x, y),
    {
        XValue::Vec2(x, y)
    }

    /// A 3D vector value.
    pub fn vec3(x: XFloat, y: XFloat, z: XFloat) -> (r: XValue)
        ensures
            r == XValue::Vec3(x, y, z),
    {
        XValue::Vec3(x, y, z)
    }

    /// Appends how this value is shown.
    pub fn push_text(&self, s: &mut String)
        ensures
            final(s)@ == old(s)@ + value_text(self@),
    {
        match self {
            XValue::Float(f) => f.push_text(s),
            XValue::Integer(i) => push_int_text(s, *i),
            XValue::Vec2(x, y) => {
                s.append("vec2(");
                x.push_text(s);
                s.append(", ");
                y.push_text(s);
                s.append(")");
                assert(final(s)@ =~= old(s)@ + value_text(self@));
            },
            XValue::Vec3(x, y, z) => {
                s.append("vec3(");
                x.push_text(s);
                s.append(", ");
                y.push_text(s);
                s.append(", ");
                z.push_text(s);
                s.append(")");
                assert(final(s)@ =~= old(s)@ + value_text(self@));
            },
        }
    }

    /// How this value is shown, e.g. `42`, `1.5`, `vec2(1.0, 2.0)`.
    pub fn to_string(&self) -> (s: String)
        ensures
            s@ == value_text(self@),
    {
        let mut s = String::new();
        self.push_text(&mut s);
        s
    }
}

} // verus!
