use vstd::prelude::*;
use vstd::string::*;

verus! {

/// A real number carried by the model, held as the decimal text that Rust's
/// `Display` gives for the `f64` it stands for (`"3"`, `"-0.5"`, `"-0"`,
/// `"inf"`, `"-inf"`, `"NaN"`).
///
/// The text is what every writer prints, and it is enough to decide the few
/// tests the writers make: zero (`"0"` or `"-0"`), the two infinities, and
/// negation, which toggles the leading minus sign (and leaves `"NaN"` alone).
#[derive(Clone, Debug, PartialEq, Eq, Hash)]
pub struct Number {
    pub text: String,
}

/// The number is zero (either sign).
pub open spec fn spec_is_zero(t: Seq<char>) -> bool {
    t == "0"@ || t == "-0"@
}

/// The text of the negated number.
pub open spec fn spec_neg(t: Seq<char>) -> Seq<char> {
    if t == "NaN"@ {
        t
    } else if t.len() > 0 && t[0] == '-' {
        t.drop_first()
    } else {
        "-"@ + t
    }
}

/// The decimal digits of a natural number.
pub open spec fn nat_digits(n: nat) -> Seq<char>
    decreases n,
{
    if n < 10 {
        seq![digit_char(n)]
    } else {
        nat_digits(n / 10) + seq![digit_char(n % 10)]
    }
}

pub open spec fn digit_char(d: nat) -> char {
    if d == 0 {
        '0'
    } else if d == 1 {
        '1'
    } else if d == 2 {
        '2'
    } else if d == 3 {
        '3'
    } else if d == 4 {
        '4'
    } else if d == 5 {
        '5'
    } else if d == 6 {
        '6'
    } else if d == 7 {
        '7'
    } else if d == 8 {
        '8'
    } else {
        '9'
    }
}

/// How `Display` renders an integer-valued `f64`: its decimal digits, with a
/// leading minus sign when negative.
pub open spec fn int_text(i: int) -> Seq<char> {
    if i < 0 {
        "-"@ + nat_digits((-i) as nat)
    } else {
        nat_digits(i as nat)
    }
}

pub open spec fn is_digit(c: char) -> bool {
    48 <= (c as u32) && (c as u32) <= 57
}

pub open spec fn has_point(u: Seq<char>) -> bool {
    exists|i: int| 0 <= i < u.len() && u[i] == '.'
}

/// An unsigned finite number as `f64`'s `Display` writes it: decimal digits
/// with at most one point between digits, no superfluous leading zero, and no
/// trailing zero after the point (`Display` never uses an exponent).
pub open spec fn plain_decimal(u: Seq<char>) -> bool {
    &&& u.len() > 0
    &&& is_digit(u[0])
    &&& is_digit(u[u.len() - 1])
    &&& forall|i: int| 0 <= i < u.len() ==> is_digit(#[trigger] u[i]) || u[i] == '.'
    &&& forall|i: int, j: int|
        #![trigger u[i], u[j]]
        0 <= i < j < u.len() && u[i] == '.' ==> u[j] != '.'
    &&& u[0] == '0' ==> (u.len() == 1 || u[1] == '.')
    &&& has_point(u) ==> u[u.len() - 1] != '0'
}

/// An unsigned number as `Display` writes it: `inf` or a plain decimal.
pub open spec fn unsigned_text(u: Seq<char>) -> bool {
    u == "inf"@ || plain_decimal(u)
}

/// A text that `f64`'s `Display` can give: `NaN`, or an unsigned number with
/// an optional leading minus sign. On such texts the tests of this module
/// agree with the float: zero is exactly `0` and `-0`, and so on.
pub open spec fn display_form(t: Seq<char>) -> bool {
    ||| t == "NaN"@
    ||| unsigned_text(t)
    ||| (t.len() > 0 && t[0] == '-' && unsigned_text(t.drop_first()))
}

proof fn lemma_literals()
    ensures
        "-"@ == seq!['-'],
        "0"@ == seq!['0'],
        "-0"@ == seq!['-', '0'],
        "NaN"@ == seq!['N', 'a', 'N'],
        "inf"@ == seq!['i', 'n', 'f'],
{
    reveal_strlit("-");
    reveal_strlit("0");
    reveal_strlit("-0");
    reveal_strlit("NaN");
    reveal_strlit("inf");
}

/// An unsigned text does not start with a minus sign, and `NaN` is not one.
proof fn lemma_unsigned_start(u: Seq<char>)
    requires
        unsigned_text(u),
    ensures
        u.len() > 0,
        u[0] != '-',
        u != "NaN"@,
{
    lemma_literals();
    if u == "NaN"@ {
        assert(u[0] == 'N');
        assert(!is_digit('N'));
    }
}

/// Negation keeps the display form.
pub proof fn lemma_neg_display_form(t: Seq<char>)
    requires
        display_form(t),
    ensures
        display_form(spec_neg(t)),
{
    lemma_literals();
    if t == "NaN"@ {
    } else if t.len() > 0 && t[0] == '-' {
        if unsigned_text(t) {
            lemma_unsigned_start(t);
        }
        assert(unsigned_text(t.drop_first()));
    } else {
        assert(unsigned_text(t));
        let u = "-"@ + t;
        assert(u.drop_first() =~= t);
    }
}

/// Negation undoes itself, and keeps zero and non-zero apart, for every
/// number in display form.
pub proof fn lemma_neg_involution(t: Seq<char>)
    requires
        display_form(t),
    ensures
        spec_neg(spec_neg(t)) == t,
        spec_is_zero(spec_neg(t)) == spec_is_zero(t),
{
    lemma_literals();
    if t.len() >= 2 && t[0] == '-' {
        if unsigned_text(t) {
            lemma_unsigned_start(t);
        }
        lemma_unsigned_start(t.drop_first());
        assert(t.drop_first()[0] == t[1]);
    }
    if t == "-"@ + "NaN"@ {
        assert(t.drop_first() =~= "NaN"@);
        lemma_unsigned_start(t.drop_first());
    }
    reveal_strlit("-");
    reveal_strlit("0");
    reveal_strlit("-0");
    reveal_strlit("NaN");
    assert("-"@ == seq!['-']);
    assert("0"@ == seq!['0']);
    assert("-0"@ == seq!['-', '0']);
    assert("NaN"@ == seq!['N', 'a', 'N']);
    if t == "NaN"@ {
    } else if t.len() > 0 && t[0] == '-' {
        let u = t.drop_first();
        assert(u != "NaN"@) by {
            if u == "NaN"@ {
                assert(t =~= "-"@ + "NaN"@);
            }
        }
        assert(!(u.len() > 0 && u[0] == '-'));
        assert("-"@ + u =~= t);
        if u == "-0"@ {
            assert(t[1] == u[0]);
        }
        if t == "-0"@ {
            assert(u =~= "0"@);
        }
        if u == "0"@ {
            assert(t =~= "-0"@);
        }
    } else {
        let u = "-"@ + t;
        assert(u != "NaN"@);
        assert(u.drop_first() =~= t);
        assert(u[0] == '-');
        if u == "-0"@ {
            assert(t =~= "0"@);
        }
        if t == "0"@ {
            assert(u =~= "-0"@);
        }
    }
}

/// The digits of a natural number are a plain decimal.
pub proof fn lemma_nat_digits_plain(n: nat)
    ensures
        plain_decimal(nat_digits(n)),
        nat_digits(n)[0] == '0' ==> n == 0,
{
    lemma_nat_digits_are_digits(n);
    let d = nat_digits(n);
    assert(!has_point(d)) by {
        if has_point(d) {
            let i = choose|i: int| 0 <= i < d.len() && d[i] == '.';
            assert(is_digit(d[i]));
        }
    }
}

proof fn lemma_digit_char(x: nat)
    ensures
        is_digit(digit_char(x)),
        x < 10 ==> (digit_char(x) == '0' <==> x == 0),
{
}

proof fn lemma_nat_digits_are_digits(n: nat)
    ensures
        nat_digits(n).len() >= 1,
        forall|i: int| 0 <= i < nat_digits(n).len() ==> is_digit(#[trigger] nat_digits(n)[i]),
        nat_digits(n)[0] == '0' ==> n == 0,
        n < 10 ==> nat_digits(n).len() == 1,
    decreases n,
{
    let d = nat_digits(n);
    if n >= 10 {
        lemma_nat_digits_are_digits(n / 10);
        lemma_digit_char(n % 10);
        let p = nat_digits(n / 10);
        assert(d == p + seq![digit_char(n % 10)]);
        assert(d[0] == p[0]);
        assert forall|i: int| 0 <= i < d.len() implies is_digit(#[trigger] d[i]) by {
            if i < p.len() {
                assert(d[i] == p[i]);
            }
        }
    } else {
        lemma_digit_char(n);
    }
}

/// One decimal digit.
fn digit_str(d: u64) -> (s: &'static str)
    requires
        d < 10,
    ensures
        s@ == seq![digit_char(d as nat)],
{
    proof {
        reveal_strlit("0");
        reveal_strlit("1");
        reveal_strlit("2");
        reveal_strlit("3");
        reveal_strlit("4");
        reveal_strlit("5");
        reveal_strlit("6");
        reveal_strlit("7");
        reveal_strlit("8");
        reveal_strlit("9");
    }
    if d == 0 {
        "0"
    } else if d == 1 {
        "1"
    } else if d == 2 {
        "2"
    } else if d == 3 {
        "3"
    } else if d == 4 {
        "4"
    } else if d == 5 {
        "5"
    } else if d == 6 {
        "6"
    } else if d == 7 {
        "7"
    } else if d == 8 {
        "8"
    } else {
        "9"
    }
}

/// The decimal digits of `n`.
pub fn decimal(n: u64) -> (s: String)
    ensures
        s@ == nat_digits(n as nat),
{
    let mut m = n;
    let mut acc = String::from_str(digit_str(m % 10));
    m = m / 10;
    while m > 0
        invariant
            m <= n,
            nat_digits(n as nat) == (if m > 0 {
                nat_digits(m as nat) + acc@
            } else {
                acc@
            }),
        decreases m,
    {
        let mut t = String::from_str(digit_str(m % 10));
        t.append(acc.as_str());
        proof {
            assert(nat_digits(m as nat) == (if m >= 10 {
                nat_digits((m / 10) as nat) + seq![digit_char((m % 10) as nat)]
            } else {
                seq![digit_char((m % 10) as nat)]
            }));
        }
        acc = t;
        m = m / 10;
    }
    acc
}

impl Number {
    /// The text is in the form `f64`'s `Display` gives.
    pub open spec fn wf(&self) -> bool {
        display_form(self.text@)
    }

    /// Wraps a number rendered by `f64`'s `Display`.
    pub fn new(text: String) -> (n: Number)
        requires
            display_form(text@),
        ensures
            n.text@ == text@,
            n.wf(),
    {
        Number { text }
    }

    /// A copy of the number.
    pub fn copy(&self) -> (n: Number)
        ensures
            n.text@ == self.text@,
    {
        Number { text: self.text.clone() }
    }

    /// Whether the number equals zero (`0.0 == -0.0`).
    pub fn is_zero(&self) -> (b: bool)
        ensures
            b == spec_is_zero(self.text@),
    {
        let zero = String::from_str("0");
        let neg_zero = String::from_str("-0");
        self.text == zero || self.text == neg_zero
    }

    /// Whether the number is `-inf`.
    pub fn is_neg_infinity(&self) -> (b: bool)
        ensures
            b == (self.text@ == "-inf"@),
    {
        let t = String::from_str("-inf");
        self.text == t
    }

    /// Whether the number is `+inf`.
    pub fn is_pos_infinity(&self) -> (b: bool)
        ensures
            b == (self.text@ == "inf"@),
    {
        let t = String::from_str("inf");
        self.text == t
    }

    /// The negated number.
    pub fn neg(&self) -> (n: Number)
        ensures
            n.text@ == spec_neg(self.text@),
            self.wf() ==> n.wf(),
    {
        proof {
            if self.wf() {
                lemma_neg_display_form(self.text@);
            }
        }
        let nan = String::from_str("NaN");
        if self.text == nan {
            return self.copy();
        }
        let s = self.text.as_str();
        let len = s.unicode_len();
        if len > 0 && s.get_char(0) == '-' {
            let rest = s.substring_char(1, len);
            proof {
                assert(rest@ =~= self.text@.drop_first());
            }
            Number { text: String::from_str(rest) }
        } else {
            let minus = String::from_str("-");
            Number { text: minus.concat(s) }
        }
    }

    /// The number for an integer, as `Display` renders it once converted to
    /// `f64` (every `i32` is exact in `f64`).
    pub fn from_i32(i: i32) -> (n: Number)
        ensures
            n.text@ == int_text(i as int),
            n.wf(),
    {
        let neg = i < 0;
        let m: u64 = if neg {
            (-(i as i64)) as u64
        } else {
            i as u64
        };
        let digits = decimal(m);
        proof {
            lemma_nat_digits_plain(m as nat);
            lemma_literals();
            if neg {
                assert(("-"@ + digits@).drop_first() =~= digits@);
            }
        }
        if neg {
            let minus = String::from_str("-");
            Number { text: minus.concat(digits.as_str()) }
        } else {
            Number { text: digits }
        }
    }
}

} // verus!
