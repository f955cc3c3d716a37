//! The constant pool: interned strings and numbers with stable indices.
//!
//! Number constants are held in a canonical decimal form (sign, integer
//! digits without leading zeros, fraction digits without trailing zeros),
//! so equal literals intern to equal constants. Equality of two numbers
//! is equality of these canonical parts: an exact decimal comparison, not
//! a floating-point one within a tolerance, so `1.50` and `1.5` intern to
//! one constant while values that merely round alike stay distinct.

use vstd::prelude::*;

verus! {

/// A number constant in canonical decimal form. The integer digits carry
/// no leading zeros (empty means zero); the fraction digits carry no
/// trailing zeros (empty means none); zero is never negative.
#[derive(Debug, PartialEq)]
pub struct KNumber {
    pub negative: bool,
    pub int_digits: String,
    pub frac_digits: String,
}

/// The mathematical shape of a number constant.
pub open spec fn knumber_view(n: KNumber) -> (bool, Seq<char>, Seq<char>) {
    (n.negative, n.int_digits@, n.frac_digits@)
}

/// Whether a character is a decimal digit.
pub open spec fn is_digit_char(c: char) -> bool {
    '0' <= c && c <= '9'
}

/// A literal's text without its optional minus sign.
pub open spec fn literal_body(s: Seq<char>) -> Seq<char> {
    if s.len() > 0 && s[0] == '-' {
        s.drop_first()
    } else {
        s
    }
}

/// Whether `k` splits a literal body into its digit runs: digits up to
/// `k`, then either the end or a point followed by digits to the end.
pub open spec fn literal_split_at(body: Seq<char>, k: int) -> bool {
    &&& 1 <= k <= body.len()
    &&& forall|i: int| 0 <= i < k ==> is_digit_char(#[trigger] body[i])
    &&& (k == body.len() || (k + 1 < body.len() && body[k] == '.' && (forall|i: int|
        k < i < body.len() ==> is_digit_char(#[trigger] body[i]))))
}

/// Whether a text is a decimal literal: an optional minus sign, one or
/// more digits, and optionally a point followed by one or more digits.
pub open spec fn is_decimal_literal(s: Seq<char>) -> bool {
    exists|k: int| literal_split_at(literal_body(s), k)
}

/// The canonical form a number constant keeps: digits only, no leading
/// zeros in the integer part, no trailing zeros in the fraction, and
/// zero never negative.
pub open spec fn knumber_canonical(n: KNumber) -> bool {
    &&& forall|i: int| 0 <= i < n.int_digits@.len() ==> is_digit_char(#[trigger] n.int_digits@[i])
    &&& forall|i: int| 0 <= i < n.frac_digits@.len() ==> is_digit_char(
        #[trigger] n.frac_digits@[i],
    )
    &&& n.int_digits@.len() > 0 ==> n.int_digits@[0] != '0'
    &&& n.frac_digits@.len() > 0 ==> n.frac_digits@.last() != '0'
    &&& (n.int_digits@.len() == 0 && n.frac_digits@.len() == 0) ==> !n.negative
}

/// The longest run of digits starting at `from`: its end, with no digit
/// at the end position.
fn digit_run(s: &str, n: usize, from: usize) -> (r: usize)
    requires
        n == s@.len(),
        from <= n,
    ensures
        from <= r <= n,
        forall|i: int| from <= i < r ==> is_digit_char(#[trigger] s@[i]),
        r < n ==> !is_digit_char(s@[r as int]),
    decreases n - from,
{
    let mut i = from;
    while i < n
        invariant
            from <= i <= n,
            n == s@.len(),
            forall|j: int| from <= j < i ==> is_digit_char(#[trigger] s@[j]),
        decreases n - i,
    {
        let c = s.get_char(i);
        if '0' <= c && c <= '9' {
            i = i + 1;
        } else {
            return i;
        }
    }
    i
}

impl KNumber {
    /// Parses a decimal literal: an optional minus sign, digits, and an
    /// optional point followed by digits. Exactly the decimal literals
    /// parse, and the result is canonical, so two literals denoting the
    /// same number are equal.
    #[verifier::loop_isolation(false)]
    #[verifier::rlimit(100)]
    pub fn from_decimal_str(s: &str) -> (r: Option<KNumber>)
        ensures
            r is Some <==> is_decimal_literal(s@),
            r matches Some(n) ==> knumber_canonical(n) && (n.negative ==> s@.len() > 0 && s@[0]
                == '-'),
    {
        let n = s.unicode_len();
        let ghost body = literal_body(s@);
        if n == 0 {
            proof {
                assert(!is_decimal_literal(s@)) by {
                    if is_decimal_literal(s@) {
                        let k = choose|k: int| literal_split_at(literal_body(s@), k);
                    }
                }
            }
            return None;
        }
        let mut negative = false;
        let mut int_start: usize = 0;
        if s.get_char(0) == '-' {
            negative = true;
            int_start = 1;
        }
        let ghost off = int_start as int;
        proof {
            assert(body.len() == s@.len() - off);
            assert(forall|i: int| 0 <= i < body.len() ==> #[trigger] body[i] == s@[i + off]);
        }
        let int_end = digit_run(s, n, int_start);
        if int_end == int_start {
            proof {
                if is_decimal_literal(s@) {
                    let k = choose|k: int| literal_split_at(literal_body(s@), k);
                    assert(is_digit_char(body[0]));
                    assert(body[0] == s@[off]);
                    assert(false);
                }
            }
            return None;
        }
        let mut frac_start = int_end;
        let mut frac_end = int_end;
        let mut end = int_end;
        let mut fraction_missing = false;
        if int_end < n && s.get_char(int_end) == '.' {
            frac_start = int_end + 1;
            frac_end = digit_run(s, n, int_end + 1);
            if frac_end == frac_start {
                fraction_missing = true;
            }
            end = frac_end;
        }
        proof {
            if is_decimal_literal(s@) {
                let k = choose|k: int| literal_split_at(literal_body(s@), k);
                // the literal's leading digit run and the scanned one
                // coincide
                assert(k + off == int_end) by {
                    if k + off < int_end {
                        assert(is_digit_char(s@[k + off]));
                        assert(body[k] == s@[k + off]);
                    }
                    if k + off > int_end {
                        assert(is_digit_char(body[int_end - off]));
                        assert(body[int_end - off] == s@[int_end as int]);
                    }
                }
            }
        }
        if fraction_missing {
            proof {
                if is_decimal_literal(s@) {
                    let k = choose|k: int| literal_split_at(literal_body(s@), k);
                    assert(k < body.len());
                    assert(is_digit_char(body[k + 1]));
                    assert(body[k + 1] == s@[frac_start as int]);
                    assert(false);
                }
            }
            return None;
        }
        if end != n {
            proof {
                if is_decimal_literal(s@) {
                    let k = choose|k: int| literal_split_at(literal_body(s@), k);
                    if k == body.len() {
                        assert(int_end == n);
                        assert(false);
                    } else {
                        assert(s@[int_end as int] == '.');
                        assert(is_digit_char(body[frac_end - off]));
                        assert(body[frac_end - off] == s@[frac_end as int]);
                        assert(false);
                    }
                }
            }
            return None;
        }
        // the text is a literal: its digit runs are the witness
        proof {
            let k = int_end - off;
            assert forall|i: int| 0 <= i < k implies is_digit_char(#[trigger] body[i]) by {
                assert(body[i] == s@[i + off]);
            }
            if frac_start > int_end {
                assert(body[k] == s@[int_end as int]);
                assert forall|i: int| k < i < body.len() implies is_digit_char(
                    #[trigger] body[i],
                ) by {
                    assert(body[i] == s@[i + off]);
                }
                assert(k + 1 < body.len());
            } else {
                assert(k == body.len());
            }
            assert(literal_split_at(body, k));
        }
        // canonicalize: strip leading zeros of the integer part
        let mut a = int_start;
        while a < int_end
            invariant
                int_start <= a <= int_end,
            decreases int_end - a,
        {
            if s.get_char(a) == '0' {
                a = a + 1;
            } else {
                break;
            }
        }
        // strip trailing zeros of the fraction
        let mut b = frac_end;
        while b > frac_start
            invariant
                frac_start <= b <= frac_end,
            decreases b,
        {
            if s.get_char(b - 1) == '0' {
                b = b - 1;
            } else {
                break;
            }
        }
        let int_digits = s.substring_char(a, int_end).to_owned();
        let frac_digits = if frac_start <= b {
            s.substring_char(frac_start, b).to_owned()
        } else {
            String::new()
        };
        let is_zero = int_digits.as_str().unicode_len() == 0 && frac_digits.as_str().unicode_len()
            == 0;
        Some(
            KNumber {
                negative: if is_zero {
                    false
                } else {
                    negative
                },
                int_digits,
                frac_digits,
            },
        )
    }

    /// Whether this is the number zero.
    pub fn is_zero(&self) -> (r: bool)
        ensures
            r == (self.int_digits@.len() == 0 && self.frac_digits@.len() == 0),
    {
        self.int_digits.as_str().unicode_len() == 0 && self.frac_digits.as_str().unicode_len() == 0
    }

    /// Whether this is the number one.
    pub fn is_one(&self) -> (r: bool)
        ensures
            r == (!self.negative && self.int_digits@ == seq!['1'] && self.frac_digits@.len() == 0),
    {
        let r = !self.negative && self.int_digits == "1".to_owned()
            && self.frac_digits.as_str().unicode_len() == 0;
        proof {
            reveal_strlit("1");
            assert(("1")@ =~= seq!['1']);
        }
        r
    }

    /// Structural equality of two number constants.
    pub fn same_as(&self, other: &KNumber) -> (r: bool)
        ensures
            r == (knumber_view(*self) == knumber_view(*other)),
    {
        let r = self.negative == other.negative && self.int_digits == other.int_digits
            && self.frac_digits == other.frac_digits;
        proof {
            if r {
                assert(knumber_view(*self) == knumber_view(*other));
            }
        }
        r
    }
}

/// One interned constant: a number or a string.
#[derive(Debug, PartialEq)]
pub enum Constant {
    Number(KNumber),
    Str(String),
}

/// The mathematical shape of a constant.
pub enum ConstV {
    Num(bool, Seq<char>, Seq<char>),
    Text(Seq<char>),
}

pub open spec fn constant_view(c: Constant) -> ConstV {
    match c {
        Constant::Number(n) => ConstV::Num(n.negative, n.int_digits@, n.frac_digits@),
        Constant::Str(s) => ConstV::Text(s@),
    }
}

pub open spec fn pool_view(cs: Seq<Constant>) -> Seq<ConstV> {
    Seq::new(cs.len(), |i: int| constant_view(cs[i]))
}

/// The read-only constant pool a parse produces.
#[derive(Debug, PartialEq)]
pub struct ConstantPool {
    pub constants: Vec<Constant>,
}

impl ConstantPool {
    /// The number of constants.
    pub fn len(&self) -> (r: usize)
        ensures
            r == self.constants@.len(),
    {
        self.constants.len()
    }

    /// The constant at an index.
    pub fn get(&self, i: usize) -> (r: Option<&Constant>)
        ensures
            match r {
                Some(c) => i < self.constants@.len() && *c == self.constants@[i as int],
                None => i >= self.constants@.len(),
            },
    {
        if i < self.constants.len() {
            Some(&self.constants[i])
        } else {
            None
        }
    }
}

/// Builds the constant pool during a parse, interning equal strings and
/// numbers to equal indices.
#[derive(Debug)]
pub struct ConstantPoolBuilder {
    pub constants: Vec<Constant>,
}

/// The first index holding the given constant shape, if any.
pub open spec fn pool_find(cs: Seq<Constant>, v: ConstV) -> Option<int> {
    if exists|i: int| 0 <= i < cs.len() && constant_view(#[trigger] cs[i]) == v {
        Some(choose|i: int| 0 <= i < cs.len() && constant_view(#[trigger] cs[i]) == v)
    } else {
        None
    }
}

impl ConstantPoolBuilder {
    /// An empty pool.
    pub fn new() -> (r: ConstantPoolBuilder)
        ensures
            r.constants@.len() == 0,
    {
        ConstantPoolBuilder { constants: Vec::new() }
    }

    /// Interns a string: returns the index of an equal earlier string
    /// constant, or appends a new one.
    pub fn add_string(&mut self, s: &str) -> (r: usize)
        ensures
            r < final(self).constants@.len(),
            constant_view(final(self).constants@[r as int]) == ConstV::Text(s@),
            final(self).constants@.len() >= old(self).constants@.len(),
            forall|i: int|
                0 <= i < old(self).constants@.len() ==> final(self).constants@[i] == old(
                    self,
                ).constants@[i],
            final(self).constants@.len() <= old(self).constants@.len() + 1,
    {
        let n = self.constants.len();
        for i in 0..n
            invariant
                n == self.constants.len(),
                *self == *old(self),
            decreases n - i,
        {
            match &self.constants[i] {
                Constant::Str(t) => {
                    if *t == s.to_owned() {
                        return i;
                    }
                },
                _ => {},
            }
        }
        self.constants.push(Constant::Str(s.to_owned()));
        self.constants.len() - 1
    }

    /// Interns a number constant, by its canonical form.
    pub fn add_number(&mut self, value: KNumber) -> (r: usize)
        ensures
            r < final(self).constants@.len(),
            constant_view(final(self).constants@[r as int]) == ConstV::Num(
                value.negative,
                value.int_digits@,
                value.frac_digits@,
            ),
            final(self).constants@.len() >= old(self).constants@.len(),
            forall|i: int|
                0 <= i < old(self).constants@.len() ==> final(self).constants@[i] == old(
                    self,
                ).constants@[i],
            final(self).constants@.len() <= old(self).constants@.len() + 1,
    {
        let n = self.constants.len();
        for i in 0..n
            invariant
                n == self.constants.len(),
                *self == *old(self),
            decreases n - i,
        {
            match &self.constants[i] {
                Constant::Number(m) => {
                    if m.same_as(&value) {
                        return i;
                    }
                },
                _ => {},
            }
        }
        self.constants.push(Constant::Number(value));
        self.constants.len() - 1
    }

    /// Finishes the build, producing the read-only pool.
    pub fn build(self) -> (r: ConstantPool)
        ensures
            r.constants@ == self.constants@,
    {
        ConstantPool { constants: self.constants }
    }
}

} // verus!
