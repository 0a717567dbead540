//! Reading text: lines, words, numbers.

use vstd::prelude::*;
use vstd::arithmetic::div_mod::lemma_mod_breakdown;
use vstd::slice::slice_subrange;

verus! {

/// Appends a character.
///
/// `String::push` of the standard library: the string then ends with `c`.
pub assume_specification[ String::push ](s: &mut String, c: char)
    ensures
        final(s)@ == old(s)@.push(c),
;

/// Unicode white space.
pub open spec fn is_space(c: char) -> bool {
    let n = c as u32;
    ||| 0x09 <= n <= 0x0D
    ||| n == 0x20
    ||| n == 0x85
    ||| n == 0xA0
    ||| n == 0x1680
    ||| 0x2000 <= n <= 0x200A
    ||| n == 0x2028
    ||| n == 0x2029
    ||| n == 0x202F
    ||| n == 0x205F
    ||| n == 0x3000
}

/// Whether `c` is Unicode white space.
pub fn is_white(c: char) -> (r: bool)
    ensures
        r == is_space(c),
{
    let n: u32 = c as u32;
    (0x09 <= n && n <= 0x0D) || n == 0x20 || n == 0x85 || n == 0xA0 || n == 0x1680 || (0x2000 <= n
        && n <= 0x200A) || n == 0x2028 || n == 0x2029 || n == 0x202F || n == 0x205F || n == 0x3000
}

/// Index of the first `c` from `from` on; the length if there is none.
pub open spec fn find_from(s: Seq<char>, c: char, from: int) -> int
    decreases s.len() - from,
{
    if from >= s.len() {
        s.len() as int
    } else if s[from] == c {
        from
    } else {
        find_from(s, c, from + 1)
    }
}

/// Index of the first character from `from` on that is no space.
pub open spec fn space_end(s: Seq<char>, from: int) -> int
    decreases s.len() - from,
{
    if from >= s.len() {
        s.len() as int
    } else if is_space(s[from]) {
        space_end(s, from + 1)
    } else {
        from
    }
}

/// Index of the first space from `from` on.
pub open spec fn word_end(s: Seq<char>, from: int) -> int
    decreases s.len() - from,
{
    if from >= s.len() {
        s.len() as int
    } else if is_space(s[from]) {
        from
    } else {
        word_end(s, from + 1)
    }
}

/// One past the last of the first `to` characters that is no space.
pub open spec fn tail_start(s: Seq<char>, to: int) -> int
    decreases to,
{
    if to <= 0 {
        0
    } else if is_space(s[to - 1]) {
        tail_start(s, to - 1)
    } else {
        to
    }
}

/// The text without the spaces at both ends.
pub open spec fn trimmed(s: Seq<char>) -> Seq<char> {
    let a = space_end(s, 0);
    let b = tail_start(s, s.len() as int);
    if a < b {
        s.subrange(a, b)
    } else {
        Seq::empty()
    }
}

/// Word `k` (from 0) of the text from `from` on; empty if there are fewer.
pub open spec fn word_from(s: Seq<char>, from: int, k: nat) -> Seq<char>
    decreases k,
{
    let a = space_end(s, from);
    let b = word_end(s, a);
    if k == 0 {
        s.subrange(a, b)
    } else {
        word_from(s, b, (k - 1) as nat)
    }
}

/// Word `k` (from 0) of the text; empty if there are fewer.
pub open spec fn word(s: Seq<char>, k: nat) -> Seq<char> {
    word_from(s, 0, k)
}

/// An ASCII lower-case letter in upper case, any other character as it is.
pub open spec fn upper_char(c: char) -> char {
    let n = c as u32;
    if 0x61 <= n <= 0x7A {
        ((n - 0x20) as u32) as char
    } else {
        c
    }
}

/// The text with its ASCII letters in upper case.
pub open spec fn upper(s: Seq<char>) -> Seq<char> {
    s.map(|i: int, c: char| upper_char(c))
}

/// The lines of a text: its pieces between line feeds.
pub open spec fn lines(s: Seq<char>) -> Seq<Seq<char>>
    decreases s.len(),
{
    let e = find_from(s, '\n', 0);
    if e < 0 || e >= s.len() {
        seq![s]
    } else {
        seq![s.take(e)] + lines(s.skip(e + 1))
    }
}

/// The value of a digit of radix 10 or 16.
pub open spec fn digit(c: char, radix: int) -> Option<int> {
    let n = c as u32;
    if 0x30 <= n <= 0x39 {
        Some(n - 0x30)
    } else if radix == 16 && 0x41 <= n <= 0x46 {
        Some(n - 0x41 + 10)
    } else if radix == 16 && 0x61 <= n <= 0x66 {
        Some(n - 0x61 + 10)
    } else {
        None
    }
}

/// The number that a row of digits writes; `None` if one is no digit.
pub open spec fn digits_value(s: Seq<char>, radix: int) -> Option<int>
    decreases s.len(),
{
    if s.len() == 0 {
        Some(0)
    } else {
        match (digits_value(s.drop_last(), radix), digit(s.last(), radix)) {
            (Some(v), Some(d)) => Some(v * radix + d),
            _ => None,
        }
    }
}

/// The number that a text writes: digits with an optional sign, where a minus
/// sign counts only if `signed`.
pub open spec fn number(s: Seq<char>, radix: int, signed: bool) -> Option<int> {
    if s.len() == 0 {
        None
    } else if s[0] == '+' || (s[0] == '-' && signed) {
        if s.len() == 1 {
            None
        } else {
            match digits_value(s.skip(1), radix) {
                Some(v) => Some(if s[0] == '-' {
                    -v
                } else {
                    v
                }),
                None => None,
            }
        }
    } else {
        digits_value(s, radix)
    }
}

/// The number that a text writes, if it lies in `min..=max`.
pub open spec fn bounded(s: Seq<char>, radix: int, min: int, max: int) -> Option<int> {
    match number(s, radix, min < 0) {
        Some(v) => if min <= v <= max {
            Some(v)
        } else {
            None
        },
        None => None,
    }
}

/// The decimal digits of a number.
pub open spec fn decimal(n: nat) -> Seq<char>
    decreases n,
{
    let d = ((0x30 + n % 10) as u32) as char;
    if n < 10 {
        seq![d]
    } else {
        decimal(n / 10).push(d)
    }
}

/// A decimal or `0x`-prefixed hexadecimal 64-bit number, with spaces around it.
pub open spec fn mixed_int(s: Seq<char>) -> Option<int> {
    let t = trimmed(s);
    if t.len() >= 2 && t[0] == '0' && (t[1] == 'x' || t[1] == 'X') {
        bounded(t.skip(2), 16, i64::MIN as int, i64::MAX as int)
    } else {
        bounded(t, 10, i64::MIN as int, i64::MAX as int)
    }
}

// ---- code -------------------------------------------------------------------

/// The characters of a string.
pub fn chars_of(s: &str) -> (r: Vec<char>)
    ensures
        r@ == s@,
{
    let mut v: Vec<char> = Vec::new();
    for c in it: s.chars()
        invariant
            v@ == it.seq().take(it.index() as int),
            it.seq() == s@,
    {
        v.push(c);
        assert(v@ =~= it.seq().take(it.index() + 1));
    }
    assert(v@ =~= s@);
    v
}

/// The string of some characters.
pub fn string_of(s: &[char]) -> (r: String)
    ensures
        r@ == s@,
{
    let mut r: String = String::new();
    let mut i: usize = 0;
    while i < s.len()
        invariant
            i <= s@.len(),
            r@ == s@.take(i as int),
        decreases s.len() - i,
    {
        r.push(s[i]);
        i += 1;
        assert(r@ =~= s@.take(i as int));
    }
    assert(r@ =~= s@);
    r
}

/// Index of the first `c` from `from` on; the length if there is none.
pub fn find_char(s: &[char], c: char, from: usize) -> (r: usize)
    requires
        from <= s@.len(),
    ensures
        r == find_from(s@, c, from as int),
        from <= r <= s@.len(),
        r < s@.len() ==> s@[r as int] == c,
{
    let mut i: usize = from;
    while i < s.len()
        invariant
            from <= i <= s@.len(),
            find_from(s@, c, from as int) == find_from(s@, c, i as int),
        decreases s.len() - i,
    {
        if s[i] == c {
            return i;
        }
        i += 1;
    }
    i
}

/// Index of the first character from `from` on that is no space.
pub fn skip_spaces(s: &[char], from: usize) -> (r: usize)
    requires
        from <= s@.len(),
    ensures
        r == space_end(s@, from as int),
        from <= r <= s@.len(),
{
    let mut i: usize = from;
    while i < s.len()
        invariant
            from <= i <= s@.len(),
            space_end(s@, from as int) == space_end(s@, i as int),
        decreases s.len() - i,
    {
        if !is_white(s[i]) {
            return i;
        }
        i += 1;
    }
    i
}

/// Index of the first space from `from` on.
pub fn skip_word(s: &[char], from: usize) -> (r: usize)
    requires
        from <= s@.len(),
    ensures
        r == word_end(s@, from as int),
        from <= r <= s@.len(),
{
    let mut i: usize = from;
    while i < s.len()
        invariant
            from <= i <= s@.len(),
            word_end(s@, from as int) == word_end(s@, i as int),
        decreases s.len() - i,
    {
        if is_white(s[i]) {
            return i;
        }
        i += 1;
    }
    i
}

/// Word `k` (from 0) of a text; empty if there are fewer.
pub fn nth_word(s: &[char], k: usize) -> (r: &[char])
    ensures
        r@ == word(s@, k as nat),
{
    let mut from: usize = 0;
    let mut left: usize = k;
    loop
        invariant
            from <= s@.len(),
            left <= k,
            word(s@, k as nat) == word_from(s@, from as int, left as nat),
        decreases left,
    {
        let a: usize = skip_spaces(s, from);
        let b: usize = skip_word(s, a);
        if left == 0 {
            return slice_subrange(s, a, b);
        }
        from = b;
        left -= 1;
    }
}

/// The text without the spaces at both ends.
pub fn trim(s: &[char]) -> (r: &[char])
    ensures
        r@ == trimmed(s@),
{
    let a: usize = skip_spaces(s, 0);
    let mut b: usize = s.len();
    while b > 0
        invariant_except_break
            tail_start(s@, s@.len() as int) == tail_start(s@, b as int),
        invariant
            b <= s@.len(),
        ensures
            b == tail_start(s@, s@.len() as int),
        decreases b,
    {
        if !is_white(s[b - 1]) {
            break ;
        }
        b -= 1;
    }
    if a < b {
        slice_subrange(s, a, b)
    } else {
        let r = slice_subrange(s, 0, 0);
        assert(r@ =~= Seq::empty());
        r
    }
}

fn to_upper(c: char) -> (r: char)
    ensures
        r == upper_char(c),
{
    let n: u32 = c as u32;
    if 0x61 <= n && n <= 0x7A {
        let b: u8 = (n - 0x20) as u8;
        b as char
    } else {
        c
    }
}

/// The text with its ASCII letters in upper case.
pub fn to_upper_case(s: &[char]) -> (r: Vec<char>)
    ensures
        r@ == upper(s@),
{
    let mut v: Vec<char> = Vec::new();
    let mut i: usize = 0;
    while i < s.len()
        invariant
            i <= s@.len(),
            v@ == upper(s@).take(i as int),
        decreases s.len() - i,
    {
        v.push(to_upper(s[i]));
        i += 1;
        assert(v@ =~= upper(s@).take(i as int));
    }
    assert(v@ =~= upper(s@));
    v
}

/// Whether two texts are the same.
pub fn same_text(s: &[char], t: &str) -> (r: bool)
    ensures
        r == (s@ == t@),
{
    let u = chars_of(t);
    if s.len() != u.len() {
        return false;
    }
    let mut i: usize = 0;
    while i < s.len()
        invariant
            i <= s@.len(),
            s@.len() == u@.len(),
            u@ == t@,
            forall|j: int| 0 <= j < i ==> s@[j] == u@[j],
        decreases s.len() - i,
    {
        if s[i] != u[i] {
            return false;
        }
        i += 1;
    }
    assert(s@ =~= t@);
    true
}

/// Views of some texts.
pub open spec fn texts(v: Seq<Vec<char>>) -> Seq<Seq<char>> {
    Seq::new(v.len(), |i: int| v[i]@)
}

/// The lines of a text.
pub fn split_lines(s: &[char]) -> (r: Vec<Vec<char>>)
    ensures
        texts(r@) == lines(s@),
{
    let mut out: Vec<Vec<char>> = Vec::new();
    let mut pos: usize = 0;
    proof {
        assert(s@.skip(0) =~= s@);
        assert(texts(out@) + lines(s@) =~= lines(s@));
    }
    loop
        invariant
            pos <= s@.len(),
            texts(out@) + lines(s@.skip(pos as int)) == lines(s@),
        decreases s@.len() - pos,
    {
        let ghost rest = s@.skip(pos as int);
        let e: usize = find_char(s, '\n', pos);
        proof {
            find_in_tail(s@, '\n', pos as int, 0);
        }
        let ghost before = out@;
        let mut line: Vec<char> = Vec::new();
        line.extend_from_slice(slice_subrange(s, pos, e));
        assert(line@ =~= s@.subrange(pos as int, e as int));
        out.push(line);
        if e >= s.len() {
            proof {
                assert(line@ =~= rest);
                assert(texts(out@) =~= texts(before) + seq![rest]);
            }
            return out;
        }
        proof {
            assert(line@ =~= rest.take(e - pos));
            assert(s@.skip(e + 1) =~= rest.skip(e - pos + 1));
            assert(texts(out@) + lines(s@.skip(e + 1)) =~= texts(before) + (seq![line@] + lines(
                rest.skip(e - pos + 1),
            )));
        }
        pos = e + 1;
    }
}

/// Searching a tail of a text is searching the text from there.
proof fn find_in_tail(s: Seq<char>, c: char, start: int, from: int)
    requires
        0 <= start,
        0 <= from,
        start + from <= s.len(),
    ensures
        find_from(s.skip(start), c, from) + start == find_from(s, c, start + from),
        find_from(s, c, start + from) >= start + from,
    decreases s.len() - start - from,
{
    let t = s.skip(start);
    if from < t.len() && t[from] != c {
        find_in_tail(s, c, start, from + 1);
    }
}

/// A longer row of digits does not write a smaller number.
proof fn digits_grow(s: Seq<char>, radix: int, k: int)
    requires
        radix >= 1,
        0 <= k <= s.len(),
        digits_value(s, radix) is Some,
    ensures
        digits_value(s.take(k), radix) is Some,
        0 <= digits_value(s.take(k), radix)->0 <= digits_value(s, radix)->0,
    decreases s.len(),
{
    if k == s.len() {
        assert(s.take(k) =~= s);
        if s.len() > 0 {
            digits_grow(s.drop_last(), radix, s.len() - 1);
            let v = digits_value(s.drop_last(), radix)->0;
            assert(s.drop_last().take(s.len() - 1) =~= s.drop_last());
            assert(0 <= v * radix) by (nonlinear_arith)
                requires
                    0 <= v,
                    radix >= 1,
            ;
        }
    } else {
        digits_grow(s.drop_last(), radix, k);
        assert(s.drop_last().take(k) =~= s.take(k));
        let v = digits_value(s.drop_last(), radix)->0;
        assert(v <= v * radix) by (nonlinear_arith)
            requires
                0 <= v,
                radix >= 1,
        ;
    }
}

fn digit_of(c: char, radix: u32) -> (r: Option<u32>)
    requires
        radix == 10 || radix == 16,
    ensures
        r is Some <==> digit(c, radix as int) is Some,
        r matches Some(d) ==> digit(c, radix as int) == Some(d as int) && d < radix,
{
    let n: u32 = c as u32;
    if 0x30 <= n && n <= 0x39 {
        Some(n - 0x30)
    } else if radix == 16 && 0x41 <= n && n <= 0x46 {
        Some(n - 0x41 + 10)
    } else if radix == 16 && 0x61 <= n && n <= 0x66 {
        Some(n - 0x61 + 10)
    } else {
        None
    }
}

/// Reads a row of digits; `None` if one is no digit or the number is above
/// `2^63`.
fn read_digits(s: &[char], radix: u32) -> (r: Option<u64>)
    requires
        radix == 10 || radix == 16,
    ensures
        r matches Some(v) ==> digits_value(s@, radix as int) == Some(v as int) && v
            <= 0x8000_0000_0000_0000,
        r is None ==> (digits_value(s@, radix as int) matches Some(v) ==> v
            > 0x8000_0000_0000_0000),
{
    let mut acc: u64 = 0;
    let mut i: usize = 0;
    assert(s@.take(0).len() == 0);
    while i < s.len()
        invariant
            i <= s@.len(),
            radix == 10 || radix == 16,
            digits_value(s@.take(i as int), radix as int) == Some(acc as int),
            acc <= 0x8000_0000_0000_0000,
        decreases s.len() - i,
    {
        assert(s@.take(i + 1).drop_last() =~= s@.take(i as int));
        proof {
            if digits_value(s@, radix as int) is Some {
                digits_grow(s@, radix as int, i + 1);
            }
        }
        match digit_of(s[i], radix) {
            None => {
                return None;
            },
            Some(d) => {
                assert(acc * radix <= 0x8000_0000_0000_0000 * 16) by (nonlinear_arith)
                    requires
                        acc <= 0x8000_0000_0000_0000,
                        radix <= 16,
                ;
                let next: u128 = acc as u128 * radix as u128 + d as u128;
                if next > 0x8000_0000_0000_0000 {
                    return None;
                }
                acc = next as u64;
            },
        }
        i += 1;
    }
    assert(s@.take(i as int) =~= s@);
    Some(acc)
}

/// Reads a number that must lie in `min..=max`.
pub fn read_number(s: &[char], radix: u32, min: i64, max: i64) -> (r: Option<i64>)
    requires
        radix == 10 || radix == 16,
        min <= 0 <= max,
    ensures
        r is Some <==> bounded(s@, radix as int, min as int, max as int) is Some,
        r matches Some(v) ==> bounded(s@, radix as int, min as int, max as int) == Some(v as int),
{
    if s.len() == 0 {
        return None;
    }
    let negative: bool = s[0] == '-' && min < 0;
    let signed: bool = negative || s[0] == '+';
    if signed && s.len() == 1 {
        return None;
    }
    let digits = if signed {
        slice_subrange(s, 1, s.len())
    } else {
        slice_subrange(s, 0, s.len())
    };
    proof {
        if signed {
            assert(digits@ =~= s@.skip(1));
        } else {
            assert(digits@ =~= s@);
        }
    }
    match read_digits(digits, radix) {
        None => {
            proof {
                if digits_value(digits@, radix as int) is Some {
                    digits_grow(digits@, radix as int, 0);
                }
            }
            None
        },
        Some(v) => {
            let w: i128 = if negative {
                -(v as i128)
            } else {
                v as i128
            };
            if min as i128 <= w && w <= max as i128 {
                Some(w as i64)
            } else {
                None
            }
        },
    }
}

/// Appends the decimal digits of a number.
pub fn push_decimal(s: &mut String, n: u128)
    ensures
        final(s)@ == old(s)@ + decimal(n as nat),
    decreases n,
{
    if n >= 10 {
        push_decimal(s, n / 10);
    }
    let d: u8 = 0x30 + (n % 10) as u8;
    s.push(d as char);
    assert(s@ =~= old(s)@ + decimal(n as nat));
}

/// An upper-case hexadecimal digit.
pub open spec fn hex_digit(d: int) -> char {
    if d < 10 {
        (0x30 + d) as char
    } else {
        (0x37 + d) as char
    }
}

/// The lowest `width` hexadecimal digits of a number, in upper case.
pub open spec fn hex(n: nat, width: nat) -> Seq<char>
    decreases width,
{
    if width == 0 {
        Seq::empty()
    } else {
        hex(n / 16, (width - 1) as nat).push(hex_digit((n % 16) as int))
    }
}

/// Appends the lowest `width` hexadecimal digits of a number.
pub fn push_hex(s: &mut String, n: u32, width: u32)
    ensures
        final(s)@ == old(s)@ + hex(n as nat, width as nat),
    decreases width,
{
    if width > 0 {
        push_hex(s, n / 16, width - 1);
        let d: u8 = (n % 16) as u8;
        let c: u8 = if d < 10 {
            0x30 + d
        } else {
            0x37 + d
        };
        s.push(c as char);
    }
    assert(s@ =~= old(s)@ + hex(n as nat, width as nat));
}

/// What is written in decimal is read back.
pub proof fn decimal_is_read_back(n: nat)
    ensures
        digits_value(decimal(n), 10) == Some(n as int),
        decimal(n).len() > 0,
        number(decimal(n), 10, true) == Some(n as int),
        number(decimal(n), 10, false) == Some(n as int),
    decreases n,
{
    let d = ((0x30 + n % 10) as u32) as char;
    assert(digit(d, 10) == Some((n % 10) as int));
    if n >= 10 {
        decimal_is_read_back(n / 10);
        assert(decimal(n).drop_last() =~= decimal(n / 10));
        assert(decimal(n).last() == d);
        assert((n / 10) * 10 + n % 10 == n);
    } else {
        assert(decimal(n).drop_last() =~= Seq::<char>::empty());
        assert(digits_value(Seq::<char>::empty(), 10) == Some(0int));
        assert(decimal(n).last() == d);
    }
    decimal_starts_with_digit(n);
}

proof fn decimal_starts_with_digit(n: nat)
    ensures
        decimal(n).len() > 0,
        decimal(n)[0] != '+',
        decimal(n)[0] != '-',
    decreases n,
{
    let d = ((0x30 + n % 10) as u32) as char;
    assert(0x30 <= d as u32 <= 0x39);
    if n >= 10 {
        decimal_starts_with_digit(n / 10);
    }
}

/// A power of sixteen.
pub open spec fn power16(width: nat) -> nat
    decreases width,
{
    if width == 0 {
        1
    } else {
        16 * power16((width - 1) as nat)
    }
}

/// What is written in hexadecimal is read back, as far as its digits reach.
pub proof fn hex_is_read_back(n: nat, width: nat)
    ensures
        hex(n, width).len() == width,
        power16(width) > 0,
        digits_value(hex(n, width), 16) == Some((n % power16(width)) as int),
    decreases width,
{
    if width > 0 {
        let w = (width - 1) as nat;
        hex_is_read_back(n / 16, w);
        let d = (n % 16) as int;
        assert(digit(hex_digit(d), 16) == Some(d));
        assert(hex(n, width).drop_last() =~= hex(n / 16, w));
        assert(hex(n, width).last() == hex_digit(d));
        lemma_mod_breakdown(n as int, 16, power16(w) as int);
    }
}

proof fn spaces_end(s: Seq<char>, from: int)
    requires
        0 <= from <= s.len(),
    ensures
        from <= space_end(s, from) <= s.len(),
        space_end(s, from) < s.len() ==> !is_space(s[space_end(s, from)]),
        forall|i: int| from <= i < space_end(s, from) ==> is_space(#[trigger] s[i]),
    decreases s.len() - from,
{
    if from < s.len() && is_space(s[from]) {
        spaces_end(s, from + 1);
    }
}

proof fn tail_ends(s: Seq<char>, to: int)
    requires
        0 <= to <= s.len(),
    ensures
        0 <= tail_start(s, to) <= to,
        tail_start(s, to) > 0 ==> !is_space(s[tail_start(s, to) - 1]),
        forall|i: int| tail_start(s, to) <= i < to ==> is_space(#[trigger] s[i]),
    decreases to,
{
    if to > 0 && is_space(s[to - 1]) {
        tail_ends(s, to - 1);
    }
}

/// A trimmed text begins and ends with no space, and nothing but spaces was taken off.
pub proof fn trimming_takes_spaces_alone(s: Seq<char>)
    ensures
        ({
            let t = trimmed(s);
            let a = space_end(s, 0);
            &&& t.len() > 0 ==> !is_space(t[0]) && !is_space(t.last())
            &&& t.len() > 0 ==> t == s.subrange(a, a + t.len())
            &&& forall|i: int|
                0 <= i < s.len() && !(a <= i < a + t.len()) ==> is_space(#[trigger] s[i])
        }),
{
    spaces_end(s, 0);
    tail_ends(s, s.len() as int);
}

/// Lines joined with line feeds between them.
pub open spec fn joined(l: Seq<Seq<char>>) -> Seq<char>
    decreases l.len(),
{
    if l.len() == 0 {
        Seq::empty()
    } else if l.len() == 1 {
        l[0]
    } else {
        l[0] + seq!['\n'] + joined(l.drop_first())
    }
}

proof fn first_is_found(s: Seq<char>, c: char, from: int)
    requires
        0 <= from <= s.len(),
    ensures
        from <= find_from(s, c, from) <= s.len(),
        find_from(s, c, from) < s.len() ==> s[find_from(s, c, from)] == c,
        forall|i: int| from <= i < find_from(s, c, from) ==> #[trigger] s[i] != c,
    decreases s.len() - from,
{
    if from < s.len() && s[from] != c {
        first_is_found(s, c, from + 1);
    }
}

/// The lines of a text are the text: joined again they are what they were, and none of
/// them has a line feed.
pub proof fn lines_are_the_text(s: Seq<char>, i: int)
    requires
        0 <= i < lines(s).len(),
    ensures
        joined(lines(s)) == s,
        !lines(s)[i].contains('\n'),
    decreases s.len(),
{
    first_is_found(s, '\n', 0);
    let e = find_from(s, '\n', 0);
    if e < s.len() {
        let rest = s.skip(e + 1);
        let l = lines(s);
        assert(l.drop_first() =~= lines(rest));
        assert(lines(rest).len() >= 1);
        if i > 0 {
            lines_are_the_text(rest, i - 1);
            assert(l[i] == lines(rest)[i - 1]);
        } else {
            lines_are_the_text(rest, 0);
            assert(l[0] == s.take(e));
        }
        assert(s.take(e) + seq!['\n'] + rest =~= s);
    } else {
        assert(lines(s)[0] == s);
    }
}

/// A separator is found where the first one is.
pub proof fn separator_is_found(s: Seq<char>, c: char, from: int, k: int)
    requires
        0 <= from <= k <= s.len(),
        forall|i: int| from <= i < k ==> #[trigger] s[i] != c,
        k < s.len() ==> s[k] == c,
    ensures
        find_from(s, c, from) == k,
{
    first_is_found(s, c, from);
}

/// Decimal digits are digits.
pub proof fn decimal_has_digits_alone(n: nat, i: int)
    requires
        0 <= i < decimal(n).len(),
    ensures
        0x30 <= decimal(n)[i] as u32 <= 0x39,
    decreases n,
{
    let d = ((0x30 + n % 10) as u32) as char;
    assert(0x30 <= d as u32 <= 0x39);
    if n >= 10 && i < decimal(n).len() - 1 {
        decimal_has_digits_alone(n / 10, i);
    }
}

} // verus!
