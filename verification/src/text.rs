//! Text building blocks: decimal and hexadecimal rendering of integers,
//! zero padding, whitespace trimming and suffix tests.
use vstd::prelude::*;
use vstd::string::*;

verus! {

/// The character of a decimal or hexadecimal digit (`a`..`f` lower case).
pub open spec fn digit_char(d: int) -> char {
    if d < 10 { (d + 48) as char } else { (d + 87) as char }
}

/// Digits of `n` in base `b` (most significant first, no leading zeros;
/// zero renders as a single `0`).
pub open spec fn digits(n: nat, b: nat) -> Seq<char>
    decreases n,
{
    if b < 2 || n < b {
        seq![digit_char(n as int)]
    } else {
        proof {
            vstd::arithmetic::div_mod::lemma_div_is_strictly_smaller(n as int, b as int);
        }
        digits(n / b, b).push(digit_char((n % b) as int))
    }
}

/// Decimal rendering of `n`.
pub open spec fn decimal(n: nat) -> Seq<char> {
    digits(n, 10)
}

/// Lower-case hexadecimal rendering of `n`.
pub open spec fn hex(n: nat) -> Seq<char> {
    digits(n, 16)
}

/// `s` left-padded with `0` characters to at least `width` characters.
pub open spec fn zero_pad(s: Seq<char>, width: nat) -> Seq<char> {
    if s.len() >= width {
        s
    } else {
        Seq::new((width - s.len()) as nat, |i: int| '0') + s
    }
}

/// The characters that `char::is_whitespace` accepts (Unicode `White_Space`).
pub open spec fn is_white_space(c: char) -> bool {
    let u = c as u32;
    (0x9 <= u <= 0xd) || u == 0x20 || u == 0x85 || u == 0xa0 || u == 0x1680 || (0x2000 <= u
        <= 0x200a) || u == 0x2028 || u == 0x2029 || u == 0x202f || u == 0x205f || u == 0x3000
}

/// `r` is `s` with leading and trailing white space removed: a slice
/// `[lo, hi)` of `s` with only white space before `lo` and from `hi` on,
/// whose first and last characters (if any) are not white space.
pub open spec fn is_trim_of(s: Seq<char>, r: Seq<char>) -> bool {
    exists|lo: int, hi: int|
        #![trigger s.subrange(lo, hi)]
        0 <= lo <= hi <= s.len() && r == s.subrange(lo, hi) && (forall|i: int|
            0 <= i < lo ==> is_white_space(#[trigger] s[i])) && (forall|i: int|
            hi <= i < s.len() ==> is_white_space(#[trigger] s[i])) && (lo < hi ==> !is_white_space(
            s[lo],
        ) && !is_white_space(s[hi - 1]))
}

/// Whether `c` is Unicode white space.
pub fn is_whitespace_char(c: char) -> (r: bool)
    ensures
        r == is_white_space(c),
{
    let u = c as u32;
    (0x9 <= u && u <= 0xd) || u == 0x20 || u == 0x85 || u == 0xa0 || u == 0x1680 || (0x2000 <= u
        && u <= 0x200a) || u == 0x2028 || u == 0x2029 || u == 0x202f || u == 0x205f || u == 0x3000
}

/// `s` without leading and trailing white space.
pub fn trim(s: &str) -> (r: String)
    ensures
        is_trim_of(s@, r@),
{
    let n = s.unicode_len();
    let mut lo: usize = 0;
    while lo < n && is_whitespace_char(s.get_char(lo))
        invariant
            n == s@.len(),
            lo <= n,
            forall|i: int| 0 <= i < lo ==> is_white_space(#[trigger] s@[i]),
        decreases n - lo,
    {
        lo = lo + 1;
    }
    let mut hi: usize = n;
    while hi > lo && is_whitespace_char(s.get_char(hi - 1))
        invariant
            n == s@.len(),
            lo <= hi <= n,
            forall|i: int| hi <= i < n ==> is_white_space(#[trigger] s@[i]),
        decreases hi - lo,
    {
        hi = hi - 1;
    }
    let r = String::from_str(s.substring_char(lo, hi));
    proof {
        if lo < hi {
            assert(!is_white_space(s@[lo as int]));
        }
        assert(s@.subrange(lo as int, hi as int) == r@);
    }
    r
}

/// A one-character string holding digit `d`.
fn digit_str(d: u64) -> (r: &'static str)
    requires
        d < 16,
    ensures
        r@ == seq![digit_char(d as int)],
{
    if d < 8 {
        if d == 0 {
            proof { reveal_strlit("0"); }
            "0"
        } else if d == 1 {
            proof { reveal_strlit("1"); }
            "1"
        } else if d == 2 {
            proof { reveal_strlit("2"); }
            "2"
        } else if d == 3 {
            proof { reveal_strlit("3"); }
            "3"
        } else if d == 4 {
            proof { reveal_strlit("4"); }
            "4"
        } else if d == 5 {
            proof { reveal_strlit("5"); }
            "5"
        } else if d == 6 {
            proof { reveal_strlit("6"); }
            "6"
        } else {
            proof { reveal_strlit("7"); }
            "7"
        }
    } else {
        if d == 8 {
            proof { reveal_strlit("8"); }
            "8"
        } else if d == 9 {
            proof { reveal_strlit("9"); }
            "9"
        } else if d == 10 {
            proof { reveal_strlit("a"); }
            "a"
        } else if d == 11 {
            proof { reveal_strlit("b"); }
            "b"
        } else if d == 12 {
            proof { reveal_strlit("c"); }
            "c"
        } else if d == 13 {
            proof { reveal_strlit("d"); }
            "d"
        } else if d == 14 {
            proof { reveal_strlit("e"); }
            "e"
        } else {
            proof { reveal_strlit("f"); }
            "f"
        }
    }
}

/// Appends the base-`base` digits of `n` to `out`.
pub fn push_digits(out: &mut String, n: u128, base: u128)
    requires
        base == 10 || base == 16,
    ensures
        final(out)@ == old(out)@ + digits(n as nat, base as nat),
    decreases n,
{
    if n >= base {
        push_digits(out, n / base, base);
    }
    let d = (n % base) as u64;
    out.append(digit_str(d));
    proof {
        if n >= base {
            assert(digits(n as nat, base as nat) == digits((n / base) as nat, base as nat).push(
                digit_char((n % base) as int),
            ));
        }
    }
}

/// Number of base-`base` digits of `n`.
pub fn digit_count(n: u128, base: u128) -> (r: usize)
    requires
        base == 10 || base == 16,
    ensures
        r == digits(n as nat, base as nat).len(),
        1 <= r <= 39,
    decreases n,
{
    proof {
        reveal_with_fuel(pow10, 40);
        assert(pow10(39) == 1_000_000_000_000_000_000_000_000_000_000_000_000_000);
        lemma_digits_len_upper(n as nat, base as nat, 39);
    }
    if n >= base {
        let inner = digit_count(n / base, base);
        inner + 1
    } else {
        1
    }
}

spec fn pow10(k: nat) -> nat
    decreases k,
{
    if k == 0 { 1 } else { 10 * pow10((k - 1) as nat) }
}

proof fn lemma_digits_len_upper(n: nat, b: nat, k: nat)
    requires
        b >= 10,
        n < pow10(k),
        k >= 1,
    ensures
        1 <= digits(n, b).len() <= k,
    decreases k,
{
    if n >= b {
        let p = pow10((k - 1) as nat);
        assert(pow10(k) == 10 * p);
        vstd::arithmetic::div_mod::lemma_div_is_ordered_by_denominator(n as int, 10, b as int);
        vstd::arithmetic::div_mod::lemma_multiply_divide_lt(n as int, 10, p as int);
        if k == 1 {
            assert(p == 1);
        } else {
            lemma_digits_len_upper(n / b, b, (k - 1) as nat);
        }
    }
}

/// Appends `n` in base `base`, left-padded with zeros to `width` characters.
pub fn push_padded(out: &mut String, n: u128, base: u128, width: usize)
    requires
        base == 10 || base == 16,
    ensures
        final(out)@ == old(out)@ + zero_pad(digits(n as nat, base as nat), width as nat),
{
    let len = digit_count(n, base);
    let mut k: usize = len;
    let ghost start = out@;
    while k < width
        invariant
            len <= k <= if width > len { width } else { len },
            len == digits(n as nat, base as nat).len(),
            out@ == start + Seq::new((k - len) as nat, |i: int| '0'),
        decreases width - k,
    {
        proof { reveal_strlit("0"); }
        out.append("0");
        k = k + 1;
        assert(out@ == start + Seq::new((k - len) as nat, |i: int| '0'));
    }
    let ghost before = out@;
    push_digits(out, n, base);
    proof {
        let s = digits(n as nat, base as nat);
        if s.len() >= width {
            assert(k == len);
            assert(Seq::new(0, |i: int| '0') =~= Seq::<char>::empty());
            assert(out@ =~= start + s);
        } else {
            assert(out@ =~= start + (Seq::new((width - s.len()) as nat, |i: int| '0') + s));
        }
    }
}

/// Whether two strings hold the same characters.
pub fn str_eq(a: &str, b: &str) -> (r: bool)
    ensures
        r == (a@ == b@),
{
    let n = a.unicode_len();
    if n != b.unicode_len() {
        return false;
    }
    let mut i: usize = 0;
    while i < n
        invariant
            n == a@.len(),
            n == b@.len(),
            i <= n,
            forall|j: int| 0 <= j < i ==> a@[j] == b@[j],
        decreases n - i,
    {
        if a.get_char(i) != b.get_char(i) {
            return false;
        }
        i = i + 1;
    }
    assert(a@ =~= b@);
    true
}

/// Whether `s` ends with `suffix`.
pub open spec fn has_suffix(s: Seq<char>, suffix: Seq<char>) -> bool {
    s.len() >= suffix.len() && s.subrange(s.len() - suffix.len(), s.len() as int) == suffix
}

} // verus!
