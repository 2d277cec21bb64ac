//! Character-level helpers: turning text into characters and back, and
//! matching literal words at a position.
use vstd::prelude::*;
use vstd::std_specs::iter::IteratorSpec;

verus! {

/// The characters of `s`, in order.
pub fn chars_of(s: &str) -> (r: Vec<char>)
    ensures
        r@ == s@,
{
    broadcast use vstd::string::axiom_spec_iter, vstd::string::next_postcondition;

    let mut it = s.chars();
    let mut r: Vec<char> = Vec::new();
    loop
        invariant
            it.obeys_prophetic_iter_laws(),
            it.decrease() is Some,
            r@ + it.remaining() == s@,
        ensures
            r@ == s@,
        decreases it.decrease()->0,
    {
        match it.next() {
            Some(c) => {
                r.push(c);
            },
            None => {
                break;
            },
        }
    }
    r
}


/// Relies on String::push: the character is added at the end.
#[verifier::external_body]
pub(crate) fn push_char(s: &mut String, c: char)
    ensures
        final(s)@ == old(s)@.push(c),
{
    s.push(c);
}

/// The text made of `w[lo..hi]`.
pub fn string_of(w: &Vec<char>, lo: usize, hi: usize) -> (r: String)
    requires
        lo <= hi <= w@.len(),
    ensures
        r@ == w@.subrange(lo as int, hi as int),
{
    let mut r = String::new();
    let mut i = lo;
    while i < hi
        invariant
            lo <= i <= hi <= w@.len(),
            r@ == w@.subrange(lo as int, i as int),
        decreases hi - i,
    {
        push_char(&mut r, w[i]);
        assert(w@.subrange(lo as int, i + 1) == w@.subrange(lo as int, i as int).push(w@[i as int]));
        i = i + 1;
    }
    r
}

/// `lit` stands in `w` starting at `p`.
pub open spec fn has_at(w: Seq<char>, p: int, lit: Seq<char>) -> bool {
    0 <= p && p + lit.len() <= w.len() && w.subrange(p, p + lit.len()) == lit
}

/// Whether `lit` stands in `w` starting at `p`.
pub fn lit_at(w: &Vec<char>, p: usize, lit: &str) -> (r: bool)
    ensures
        r == has_at(w@, p as int, lit@),
{
    let l = chars_of(lit);
    if p > w.len() || l.len() > w.len() - p {
        return false;
    }
    let mut i: usize = 0;
    while i < l.len()
        invariant
            l@ == lit@,
            w@.len() <= usize::MAX,
            p <= w@.len(),
            p + l@.len() <= w@.len(),
            i <= l@.len(),
            forall|j: int| 0 <= j < i ==> w@[p + j] == l@[j],
        decreases l.len() - i,
    {
        assert(p + i < w@.len());
        if w[p + i] != l[i] {
            assert(w@.subrange(p as int, p + l@.len())[i as int] == w@[p + i]);
            return false;
        }
        i = i + 1;
    }
    assert(w@.subrange(p as int, p + l@.len()) =~= l@);
    true
}

/// The blank characters that may pad words.
pub open spec fn is_space(c: char) -> bool {
    c == ' ' || c == '\t' || c == '\n' || c == '\r' || c == '\x0b' || c == '\x0c'
}

/// The first position at or after `p` that does not hold a blank.
pub open spec fn space_end(w: Seq<char>, p: int) -> int
    decreases w.len() - p,
{
    if p < 0 || p >= w.len() || !is_space(w[p]) {
        p
    } else {
        space_end(w, p + 1)
    }
}

pub proof fn lemma_space_end_bounds(w: Seq<char>, p: int)
    requires
        0 <= p <= w.len(),
    ensures
        p <= space_end(w, p) <= w.len(),
    decreases w.len() - p,
{
    if p < w.len() && is_space(w[p]) {
        lemma_space_end_bounds(w, p + 1);
    }
}

/// Skips blanks from `p` on.
pub fn skip_space(w: &Vec<char>, p: usize) -> (r: usize)
    requires
        p <= w@.len(),
    ensures
        r == space_end(w@, p as int),
        p <= r <= w@.len(),
{
    let mut q = p;
    while q < w.len() && (w[q] == ' ' || w[q] == '\t' || w[q] == '\n' || w[q] == '\r'
        || w[q] == '\x0b' || w[q] == '\x0c')
        invariant
            p <= q <= w@.len(),
            space_end(w@, p as int) == space_end(w@, q as int),
        decreases w.len() - q,
    {
        q = q + 1;
    }
    q
}

pub open spec fn is_digit(c: char) -> bool {
    '0' <= c <= '9'
}

pub open spec fn digit_value(c: char) -> nat {
    (c as u32 - '0' as u32) as nat
}

/// The first position at or after `p` that does not hold a decimal digit.
pub open spec fn digits_end(w: Seq<char>, p: int) -> int
    decreases w.len() - p,
{
    if p < 0 || p >= w.len() || !is_digit(w[p]) {
        p
    } else {
        digits_end(w, p + 1)
    }
}

pub proof fn lemma_digits_end_bounds(w: Seq<char>, p: int)
    requires
        0 <= p <= w.len(),
    ensures
        p <= digits_end(w, p) <= w.len(),
        forall|j: int| p <= j < digits_end(w, p) ==> is_digit(#[trigger] w[j]),
    decreases w.len() - p,
{
    if p < w.len() && is_digit(w[p]) {
        lemma_digits_end_bounds(w, p + 1);
    }
}

/// The number that a run of decimal digits writes.
pub open spec fn decimal_value(d: Seq<char>) -> nat
    decreases d.len(),
{
    if d.len() == 0 {
        0
    } else {
        decimal_value(d.drop_last()) * 10 + digit_value(d.last())
    }
}

pub proof fn lemma_decimal_value_grows(d: Seq<char>, j: int, k: int)
    requires
        0 <= j <= k <= d.len(),
    ensures
        decimal_value(d.subrange(0, j)) <= decimal_value(d.subrange(0, k)),
    decreases k - j,
{
    if j < k {
        lemma_decimal_value_grows(d, j, k - 1);
        assert(d.subrange(0, k).drop_last() == d.subrange(0, k - 1));
    }
}

/// The number written by the digits at `p`, if there is at least one digit
/// and the number fits in a `usize`; with the position after the digits.
pub open spec fn int_at(w: Seq<char>, p: int) -> Option<(usize, int)> {
    let q = digits_end(w, p);
    if q == p || decimal_value(w.subrange(p, q)) > usize::MAX {
        None
    } else {
        Some((decimal_value(w.subrange(p, q)) as usize, q))
    }
}

/// Reads a decimal number at `p`.
pub fn read_int(w: &Vec<char>, p: usize) -> (r: Option<(usize, usize)>)
    requires
        p <= w@.len(),
    ensures
        match int_at(w@, p as int) {
            Some((v, q)) => (r matches Some((x, e)) && x == v && e == q && p < q <= w@.len()),
            None => r is None,
        },
{
    proof {
        lemma_digits_end_bounds(w@, p as int);
    }
    let mut q = p;
    while q < w.len() && '0' <= w[q] && w[q] <= '9'
        invariant
            p <= q <= w@.len(),
            digits_end(w@, p as int) == digits_end(w@, q as int),
        decreases w.len() - q,
    {
        q = q + 1;
    }
    assert(digits_end(w@, q as int) == q);
    if q == p {
        return None;
    }
    let ghost d = w@.subrange(p as int, q as int);
    let mut v: usize = 0;
    let mut i = p;
    while i < q
        invariant
            p <= i <= q <= w@.len(),
            d == w@.subrange(p as int, q as int),
            digits_end(w@, p as int) == q,
            forall|j: int| p <= j < q ==> is_digit(#[trigger] w@[j]),
            v == decimal_value(d.subrange(0, i - p)),
        decreases q - i,
    {
        assert(d.subrange(0, i - p + 1).drop_last() == d.subrange(0, i - p));
        assert(is_digit(w@[i as int]));
        let dv = (w[i] as u32 - '0' as u32) as usize;
        assert(d.subrange(0, i - p + 1).last() == w@[i as int]);
        assert(decimal_value(d.subrange(0, i - p + 1)) == v * 10 + dv);
        match v.checked_mul(10) {
            None => {
                proof {
                    lemma_decimal_value_grows(d, i - p + 1, d.len() as int);
                    assert(d.subrange(0, d.len() as int) == d);
                }
                return None;
            },
            Some(t) => match t.checked_add(dv) {
                None => {
                    proof {
                        lemma_decimal_value_grows(d, i - p + 1, d.len() as int);
                        assert(d.subrange(0, d.len() as int) == d);
                    }
                    return None;
                },
                Some(n) => {
                    v = n;
                },
            },
        }
        i = i + 1;
    }
    assert(d.subrange(0, q - p) == d);
    Some((v, q))
}


/// The lower-case form of a text, as `str::to_lowercase` gives it.
pub uninterp spec fn lower_of(s: Seq<char>) -> Seq<char>;

/// Relies on str::to_lowercase: the result depends on the characters alone.
#[verifier::external_body]
pub(crate) fn lowercase(s: &str) -> (r: String)
    ensures
        r@ == lower_of(s@),
{
    s.to_lowercase()
}


/// Adds the characters of `t` at the end of `s`.
pub fn append(s: &mut String, t: &str)
    ensures
        final(s)@ == old(s)@ + t@,
{
    let cs = chars_of(t);
    let mut i: usize = 0;
    while i < cs.len()
        invariant
            i <= cs@.len(),
            cs@ == t@,
            s@ == old(s)@ + cs@.subrange(0, i as int),
        decreases cs.len() - i,
    {
        push_char(s, cs[i]);
        assert(cs@.subrange(0, i + 1) == cs@.subrange(0, i as int).push(cs@[i as int]));
        i = i + 1;
    }
    assert(cs@.subrange(0, cs@.len() as int) == cs@);
}


pub open spec fn digit_char(d: nat) -> char {
    if d == 0 {
        '0'
    } else if d == 1 {
        '1'
    } else if d == 2 {
        '2'
    } else if d == 3 {
        '3'
    } else if d == 4 {
        '4'
    } else if d == 5 {
        '5'
    } else if d == 6 {
        '6'
    } else if d == 7 {
        '7'
    } else if d == 8 {
        '8'
    } else {
        '9'
    }
}

/// The decimal digits of `n`, without padding.
pub open spec fn decimal(n: nat) -> Seq<char>
    decreases n,
{
    if n < 10 {
        seq![digit_char(n)]
    } else {
        decimal(n / 10).push(digit_char(n % 10))
    }
}

fn digit(d: usize) -> (c: char)
    requires
        d < 10,
    ensures
        c == digit_char(d as nat),
{
    if d == 0 {
        '0'
    } else if d == 1 {
        '1'
    } else if d == 2 {
        '2'
    } else if d == 3 {
        '3'
    } else if d == 4 {
        '4'
    } else if d == 5 {
        '5'
    } else if d == 6 {
        '6'
    } else if d == 7 {
        '7'
    } else if d == 8 {
        '8'
    } else {
        '9'
    }
}

/// Writes the decimal digits of `n` at the end of `s`.
pub fn push_decimal(s: &mut String, n: usize)
    ensures
        final(s)@ == old(s)@ + decimal(n as nat),
    decreases n,
{
    if n >= 10 {
        push_decimal(s, n / 10);
    }
    push_char(s, digit(n % 10));
    assert(decimal(n as nat) == if n < 10 {
        seq![digit_char(n as nat)]
    } else {
        decimal((n / 10) as nat).push(digit_char((n % 10) as nat))
    });
}

/// The character whose scalar value is `x`, where `x` is one.
pub open spec fn scalar_char(x: u32) -> Option<char> {
    if x < 0x110000 && !(0xD800 <= x <= 0xDFFF) {
        Some(x as char)
    } else {
        None
    }
}

/// Relies on char::from_u32: the character with scalar value `x`, if `x` is
/// a scalar value (below 0x110000 and not a surrogate).
#[verifier::external_body]
fn char_from_u32(x: u32) -> (r: Option<char>)
    ensures
        r.is_some() == (x < 0x110000 && !(0xD800 <= x <= 0xDFFF)),
        r matches Some(c) ==> c as u32 == x,
{
    char::from_u32(x)
}

/// The character a wet value prints as: the one whose scalar value is the
/// value modulo 0x110000, or U+FFFD where that lands on a surrogate.
pub open spec fn wet_char(v: usize) -> char {
    match scalar_char((v % 0x110000) as u32) {
        Some(c) => c,
        None => '\u{FFFD}',
    }
}

pub fn to_wet_char(v: usize) -> (c: char)
    ensures
        c == wet_char(v),
{
    let x = (v % 0x110000) as u32;
    match char_from_u32(x) {
        Some(c) => {
            proof {
                vstd::utf8::char_u32_cast(c, x);
            }
            assert(scalar_char(x) == Some(c));
            c
        },
        None => '\u{FFFD}',
    }
}

/// The position after the last non-blank character of `l`.
pub open spec fn blank_trimmed_end(l: Seq<char>, e: int) -> int
    decreases e,
{
    if e <= 0 || !is_space(l[e - 1]) {
        e
    } else {
        blank_trimmed_end(l, e - 1)
    }
}

/// The number an input line holds: decimal digits, blanks around them allowed.
pub open spec fn line_number(l: Seq<char>) -> Option<usize> {
    let a = space_end(l, 0);
    let b = blank_trimmed_end(l, l.len() as int);
    match int_at(l, a) {
        Some((v, e)) => if e == b {
            Some(v)
        } else {
            None
        },
        None => None,
    }
}

/// Reads the number an input line holds.
pub fn parse_line_number(line: &str) -> (r: Option<usize>)
    ensures
        r == line_number(line@),
{
    let l = chars_of(line);
    let a = skip_space(&l, 0);
    let mut b = l.len();
    while b > 0 && (l[b - 1] == ' ' || l[b - 1] == '\t' || l[b - 1] == '\n' || l[b - 1] == '\r'
        || l[b - 1] == '\x0b' || l[b - 1] == '\x0c')
        invariant
            b <= l@.len(),
            blank_trimmed_end(l@, l@.len() as int) == blank_trimmed_end(l@, b as int),
        decreases b,
    {
        b = b - 1;
    }
    match read_int(&l, a) {
        Some((v, e)) => if e == b {
            Some(v)
        } else {
            None
        },
        None => None,
    }
}

} // verus!
