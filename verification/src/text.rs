//! Text handling for the game: decimal numbers, trimming and splitting lines.
use vstd::prelude::*;

verus! {

/// `String::push`: appends one character.
#[verifier::external_body]
pub(crate) fn push_char(s: &mut String, c: char)
    ensures
        final(s)@ == old(s)@.push(c),
{
    s.push(c)
}

/// Whether a character has the Unicode `White_Space` property: tab, line feed, vertical
/// tab, form feed, carriage return, space, next line, no-break space, ogham space mark,
/// the spaces U+2000 to U+200A, line separator, paragraph separator, narrow no-break
/// space, medium mathematical space and ideographic space.
pub open spec fn is_whitespace(c: char) -> bool {
    let u = c as u32;
    ||| 0x9 <= u <= 0xD
    ||| u == 0x20
    ||| u == 0x85
    ||| u == 0xA0
    ||| u == 0x1680
    ||| 0x2000 <= u <= 0x200A
    ||| u == 0x2028
    ||| u == 0x2029
    ||| u == 0x202F
    ||| u == 0x205F
    ||| u == 0x3000
}

/// `char::is_whitespace`: whether the character has the Unicode `White_Space`
/// property, as `is_whitespace` lists it.
#[verifier::external_body]
fn char_is_whitespace(c: char) -> (b: bool)
    ensures
        b == is_whitespace(c),
{
    c.is_whitespace()
}

/// The character of a decimal digit.
pub open spec fn digit_char(d: nat) -> char {
    ((d + 48) as u8) as char
}

/// Whether a character is one of `0` to `9`.
pub open spec fn is_digit(c: char) -> bool {
    '0' <= c <= '9'
}

/// The value of a decimal digit character.
pub open spec fn digit_value(c: char) -> nat {
    (c as int - 48) as nat
}

/// The decimal representation of `n`, with no leading zero.
pub open spec fn decimal(n: nat) -> Seq<char>
    decreases n,
{
    if n < 10 {
        seq![digit_char(n)]
    } else {
        decimal(n / 10).push(digit_char(n % 10))
    }
}

/// Whether every character is a decimal digit.
pub open spec fn all_digits(s: Seq<char>) -> bool {
    forall|i: int| 0 <= i < s.len() ==> is_digit(#[trigger] s[i])
}

/// The number that a string of decimal digits spells.
pub open spec fn digits_value(s: Seq<char>) -> nat
    decreases s.len(),
{
    if s.len() == 0 {
        0
    } else {
        digits_value(s.drop_last()) * 10 + digit_value(s.last())
    }
}

/// The characters of a string, in order.
pub fn chars_of(s: &str) -> (v: Vec<char>)
    ensures
        v@ == s@,
{
    let n = s.unicode_len();
    let mut v: Vec<char> = Vec::new();
    let mut i: usize = 0;
    while i < n
        invariant
            n == s@.len(),
            i <= n,
            v@ == s@.take(i as int),
        decreases n - i,
    {
        let c = s.get_char(i);
        v.push(c);
        i = i + 1;
        assert(v@ =~= s@.take(i as int));
    }
    assert(s@.take(n as int) =~= s@);
    v
}

/// The character of the last decimal digit of `m`.
fn last_digit_char(m: u32) -> (c: char)
    ensures
        c == digit_char(m as nat % 10),
{
    let d = (m % 10) as u8;
    (d + 48) as char
}

/// The decimal representation of a number, as `u32::to_string` writes it.
#[verifier::rlimit(40)]
pub fn u32_to_decimal(n: u32) -> (s: String)
    ensures
        s@ == decimal(n as nat),
{
    let mut rev: Vec<char> = Vec::new();
    let mut m: u32 = n;
    while m >= 10
        invariant
            decimal(n as nat) == decimal(m as nat) + rev@.reverse(),
        decreases m,
    {
        let ghost before = rev@;
        rev.push(last_digit_char(m));
        proof {
            assert(rev@.reverse() =~= seq![digit_char(m as nat % 10)] + before.reverse());
            assert(decimal(m as nat) == decimal(m as nat / 10).push(digit_char(m as nat % 10)));
            assert(decimal(m as nat) + before.reverse() =~= decimal(m as nat / 10) + rev@.reverse());
        }
        m = m / 10;
    }
    let mut s = String::new();
    push_char(&mut s, last_digit_char(m));
    assert(s@ =~= decimal(m as nat));
    let mut k: usize = rev.len();
    assert(rev@.take(k as int) =~= rev@);
    while k > 0
        invariant
            k <= rev@.len(),
            s@ + rev@.take(k as int).reverse() == decimal(n as nat),
        decreases k,
    {
        let ghost before = s@;
        let ghost tk = rev@.take(k as int);
        k = k - 1;
        push_char(&mut s, rev[k]);
        proof {
            assert(tk =~= rev@.take(k as int).push(rev@[k as int]));
            assert(tk.reverse() =~= seq![rev@[k as int]] + rev@.take(k as int).reverse());
            assert(s@ + rev@.take(k as int).reverse() =~= before + tk.reverse());
        }
    }
    assert(s@ =~= s@ + rev@.take(0).reverse());
    s
}

/// A decimal representation is never longer than the number plus one.
pub proof fn lemma_decimal_len(n: nat)
    ensures
        1 <= decimal(n).len() <= n + 1,
    decreases n,
{
    if n >= 10 {
        lemma_decimal_len(n / 10);
    }
}

/// The number of leading whitespace characters.
pub open spec fn leading_ws(s: Seq<char>) -> int
    decreases s.len(),
{
    if s.len() == 0 {
        0
    } else if is_whitespace(s[0]) {
        1 + leading_ws(s.drop_first())
    } else {
        0
    }
}

/// The length of `s` without its trailing whitespace characters.
pub open spec fn end_without_ws(s: Seq<char>) -> int
    decreases s.len(),
{
    if s.len() == 0 {
        0
    } else if is_whitespace(s.last()) {
        end_without_ws(s.drop_last())
    } else {
        s.len() as int
    }
}

/// `s` without leading and trailing whitespace, as `str::trim` gives it.
pub open spec fn trim(s: Seq<char>) -> Seq<char> {
    let a = leading_ws(s);
    let b = end_without_ws(s);
    if a < b {
        s.subrange(a, b)
    } else {
        Seq::empty()
    }
}

proof fn lemma_leading_ws(s: Seq<char>, a: int)
    requires
        0 <= a <= s.len(),
        forall|k: int| 0 <= k < a ==> is_whitespace(#[trigger] s[k]),
        a == s.len() || !is_whitespace(s[a]),
    ensures
        leading_ws(s) == a,
    decreases a,
{
    if a > 0 {
        assert forall|k: int| 0 <= k < a - 1 implies is_whitespace(#[trigger] s.drop_first()[k]) by {
            assert(s.drop_first()[k] == s[k + 1]);
        }
        if a < s.len() {
            assert(s.drop_first()[a - 1] == s[a]);
        }
        lemma_leading_ws(s.drop_first(), a - 1);
    }
}

proof fn lemma_end_without_ws(s: Seq<char>, b: int)
    requires
        0 <= b <= s.len(),
        forall|k: int| b <= k < s.len() ==> is_whitespace(#[trigger] s[k]),
        b == 0 || !is_whitespace(s[b - 1]),
    ensures
        end_without_ws(s) == b,
    decreases s.len(),
{
    if s.len() > 0 && b < s.len() {
        assert(is_whitespace(s[s.len() - 1]));
        assert forall|k: int| b <= k < s.len() - 1 implies is_whitespace(#[trigger] s.drop_last()[k]) by {
            assert(s.drop_last()[k] == s[k]);
        }
        if b > 0 {
            assert(s.drop_last()[b - 1] == s[b - 1]);
        }
        lemma_end_without_ws(s.drop_last(), b);
    }
}

/// The characters of `s` without leading and trailing whitespace.
pub fn trim_chars(s: &Vec<char>) -> (t: Vec<char>)
    ensures
        t@ == trim(s@),
{
    let n = s.len();
    let mut a: usize = 0;
    while a < n && char_is_whitespace(s[a])
        invariant
            n == s@.len(),
            a <= n,
            forall|k: int| 0 <= k < a ==> is_whitespace(#[trigger] s@[k]),
        decreases n - a,
    {
        a = a + 1;
    }
    proof {
        lemma_leading_ws(s@, a as int);
    }
    let mut b: usize = n;
    while b > 0 && char_is_whitespace(s[b - 1])
        invariant
            n == s@.len(),
            b <= n,
            forall|k: int| b <= k < n ==> is_whitespace(#[trigger] s@[k]),
        decreases b,
    {
        b = b - 1;
    }
    proof {
        lemma_end_without_ws(s@, b as int);
    }
    let mut t: Vec<char> = Vec::new();
    if a < b {
        let mut k: usize = a;
        while k < b
            invariant
                a <= k <= b,
                b <= n,
                n == s@.len(),
                t@ == s@.subrange(a as int, k as int),
            decreases b - k,
        {
            t.push(s[k]);
            k = k + 1;
            assert(t@ =~= s@.subrange(a as int, k as int));
        }
    }
    assert(a < b ==> t@ =~= s@.subrange(a as int, b as int));
    assert(a >= b ==> t@ =~= Seq::<char>::empty());
    t
}

/// The pieces of `s` between the characters `sep`, as `str::split` with a one-character
/// pattern gives them (an empty `s` gives one empty piece).
pub open spec fn split_on(s: Seq<char>, sep: char) -> Seq<Seq<char>>
    decreases s.len(),
{
    if s.len() == 0 {
        seq![Seq::empty()]
    } else {
        let r = split_on(s.drop_last(), sep);
        if s.last() == sep {
            r.push(Seq::empty())
        } else {
            r.update(r.len() - 1, r.last().push(s.last()))
        }
    }
}

/// A split always has at least one piece.
pub proof fn lemma_split_on_len(s: Seq<char>, sep: char)
    ensures
        split_on(s, sep).len() >= 1,
    decreases s.len(),
{
    if s.len() > 0 {
        lemma_split_on_len(s.drop_last(), sep);
    }
}

/// The views of a list of character vectors.
pub open spec fn pieces_view(v: Seq<Vec<char>>) -> Seq<Seq<char>> {
    v.map_values(|p: Vec<char>| p@)
}

/// Splits characters at every `sep`.
pub fn split_chars(s: &Vec<char>, sep: char) -> (pieces: Vec<Vec<char>>)
    ensures
        pieces_view(pieces@) == split_on(s@, sep),
{
    let n = s.len();
    let mut pieces: Vec<Vec<char>> = Vec::new();
    let mut current: Vec<char> = Vec::new();
    let mut i: usize = 0;
    assert(s@.take(0) =~= Seq::<char>::empty());
    assert(pieces_view(pieces@).push(current@) =~= seq![Seq::<char>::empty()]);
    while i < n
        invariant
            n == s@.len(),
            i <= n,
            pieces_view(pieces@).push(current@) == split_on(s@.take(i as int), sep),
        decreases n - i,
    {
        let c = s[i];
        let ghost before = pieces_view(pieces@).push(current@);
        proof {
            assert(s@.take(i + 1).drop_last() =~= s@.take(i as int));
            assert(s@.take(i + 1).last() == c);
            lemma_split_on_len(s@.take(i as int), sep);
        }
        if c == sep {
            let done = current;
            pieces.push(done);
            current = Vec::new();
            assert(pieces_view(pieces@).push(current@) =~= before.push(Seq::<char>::empty()));
        } else {
            current.push(c);
            assert(pieces_view(pieces@).push(current@) =~= before.update(
                before.len() - 1,
                before.last().push(c),
            ));
        }
        i = i + 1;
    }
    assert(s@.take(n as int) =~= s@);
    pieces.push(current);
    assert(pieces_view(pieces@) =~= split_on(s@, sep));
    pieces
}

/// The smaller of two numbers.
pub open spec fn min_nat(a: nat, b: nat) -> nat {
    if a <= b {
        a
    } else {
        b
    }
}

/// The value of the decimal digits `s[start..]`, capped at `cap`, or `None` when that part
/// is empty or holds a character that is not a digit.
fn digits_capped(s: &Vec<char>, start: usize, cap: u128) -> (r: Option<u128>)
    requires
        start <= s@.len(),
        1 <= cap <= 0x1_0000_0000_0000_0000,
    ensures
        match r {
            Some(v) => {
                let d = s@.subrange(start as int, s@.len() as int);
                &&& d.len() > 0
                &&& all_digits(d)
                &&& v == min_nat(digits_value(d), cap as nat)
            },
            None => {
                let d = s@.subrange(start as int, s@.len() as int);
                d.len() == 0 || !all_digits(d)
            },
        },
{
    let n = s.len();
    if start == n {
        return None;
    }
    let mut acc: u128 = 0;
    let mut k: usize = start;
    assert(s@.subrange(start as int, start as int) =~= Seq::<char>::empty());
    while k < n
        invariant
            n == s@.len(),
            start <= k <= n,
            1 <= cap <= 0x1_0000_0000_0000_0000,
            all_digits(s@.subrange(start as int, k as int)),
            acc == min_nat(digits_value(s@.subrange(start as int, k as int)), cap as nat),
        decreases n - k,
    {
        let c = s[k];
        let ghost prefix = s@.subrange(start as int, k as int);
        if !('0' <= c && c <= '9') {
            proof {
                let d = s@.subrange(start as int, n as int);
                assert(d[k - start] == c);
            }
            return None;
        }
        let digit = (c as u32 - 48) as u128;
        let next = acc * 10 + digit;
        acc = if next < cap {
            next
        } else {
            cap
        };
        k = k + 1;
        proof {
            let p2 = s@.subrange(start as int, k as int);
            assert(p2.drop_last() =~= prefix);
            assert(p2.last() == c);
            assert(digits_value(p2) == digits_value(prefix) * 10 + digit_value(c));
            assert(all_digits(p2)) by {
                assert forall|i: int| 0 <= i < p2.len() implies is_digit(#[trigger] p2[i]) by {
                    if i < prefix.len() {
                        assert(p2[i] == prefix[i]);
                    }
                }
            }
            let v = digits_value(prefix);
            assert(min_nat(v * 10 + digit_value(c), cap as nat) == acc) by (nonlinear_arith)
                requires
                    v >= 0,
                    digit == digit_value(c),
                    digit <= 9,
                    cap >= 1,
                    next == (if v <= cap { v } else { cap as nat }) * 10 + digit,
                    acc == (if next < cap { next } else { cap }),
            ;
        }
    }
    Some(acc)
}

/// What `str::parse::<u32>` gives: an optional `+`, then one or more decimal digits whose
/// value fits in 32 bits.
pub open spec fn parse_u32_spec(s: Seq<char>) -> Option<u32> {
    let d = if s.len() > 0 && s[0] == '+' {
        s.drop_first()
    } else {
        s
    };
    if d.len() > 0 && all_digits(d) && digits_value(d) <= u32::MAX {
        Some(digits_value(d) as u32)
    } else {
        None
    }
}

/// What `str::parse::<i64>` gives: an optional `+` or `-`, then one or more decimal
/// digits whose signed value fits in 64 bits.
pub open spec fn parse_i64_spec(s: Seq<char>) -> Option<i64> {
    let signed = s.len() > 0 && (s[0] == '+' || s[0] == '-');
    let d = if signed {
        s.drop_first()
    } else {
        s
    };
    if d.len() > 0 && all_digits(d) {
        let v = digits_value(d);
        if s[0] == '-' {
            if v <= 0x8000_0000_0000_0000 {
                Some((-v) as i64)
            } else {
                None
            }
        } else if v <= i64::MAX {
            Some(v as i64)
        } else {
            None
        }
    } else {
        None
    }
}

/// Parses an unsigned 32-bit decimal number, as `str::parse::<u32>` does.
pub fn parse_u32(s: &Vec<char>) -> (r: Option<u32>)
    ensures
        r == parse_u32_spec(s@),
{
    let start: usize = if s.len() > 0 && s[0] == '+' {
        1
    } else {
        0
    };
    assert(s@.subrange(start as int, s@.len() as int) =~= (if s@.len() > 0 && s@[0] == '+' {
        s@.drop_first()
    } else {
        s@
    }));
    match digits_capped(s, start, 0x1_0000_0000) {
        Some(v) => {
            if v <= 0xFFFF_FFFF {
                Some(v as u32)
            } else {
                None
            }
        },
        None => None,
    }
}

/// Parses a signed 64-bit decimal number, as `str::parse::<i64>` does.
pub fn parse_i64(s: &Vec<char>) -> (r: Option<i64>)
    ensures
        r == parse_i64_spec(s@),
{
    let signed = s.len() > 0 && (s[0] == '+' || s[0] == '-');
    let start: usize = if signed {
        1
    } else {
        0
    };
    assert(s@.subrange(start as int, s@.len() as int) =~= (if signed {
        s@.drop_first()
    } else {
        s@
    }));
    match digits_capped(s, start, 0x8000_0000_0000_0001) {
        Some(v) => {
            if s[0] == '-' {
                if v <= 0x8000_0000_0000_0000 {
                    if v == 0x8000_0000_0000_0000 {
                        Some(i64::MIN)
                    } else {
                        Some(-(v as i64))
                    }
                } else {
                    None
                }
            } else if v <= 0x7FFF_FFFF_FFFF_FFFF {
                Some(v as i64)
            } else {
                None
            }
        },
        None => None,
    }
}

} // verus!
