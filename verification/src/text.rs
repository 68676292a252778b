//! Text: building strings, numerals, paths and the order of strings.

use vstd::arithmetic::power;
use vstd::prelude::*;

verus! {

/// `String::push`: the string gains the character at its end.
pub assume_specification[ String::push ](s: &mut String, c: char)
    ensures
        final(s)@ == old(s)@.push(c),
;

/// The characters of a string, one by one.
pub fn chars_of(s: &str) -> (r: Vec<char>)
    ensures
        r@ == s@,
{
    let mut out: Vec<char> = Vec::new();
    for c in it: s.chars()
        invariant
            out@ == s@.take(it.index() as int),
            it.seq() == s@,
    {
        out.push(c);
    }
    out
}

/// Whether two strings hold the same characters.
pub fn same_text(a: &str, b: &str) -> (r: bool)
    ensures
        r == (a@ == b@),
{
    let x = chars_of(a);
    let y = chars_of(b);
    if x.len() != y.len() {
        return false;
    }
    let mut i: usize = 0;
    while i < x.len()
        invariant
            x@ == a@,
            y@ == b@,
            x.len() == y.len(),
            i <= x.len(),
            forall|j: int| 0 <= j < i ==> x@[j] == y@[j],
        decreases x.len() - i,
    {
        if x[i] != y[i] {
            return false;
        }
        i = i + 1;
    }
    proof {
        assert(a@ =~= b@);
    }
    true
}

/// A string of the parts, in order.
pub fn concat3(a: &str, b: &str, c: &str) -> (r: String)
    ensures
        r@ == a@ + b@ + c@,
{
    let mut s = a.to_owned();
    s.append(b);
    s.append(c);
    s
}

// ---------------------------------------------------------------- numerals

/// The character of a decimal digit.
pub open spec fn digit(d: nat) -> char {
    (('0' as u32) + d) as char
}

/// The decimal numeral of a number, without leading zeros.
pub open spec fn decimal_of(n: nat) -> Seq<char>
    decreases n,
{
    if n < 10 {
        seq![digit(n)]
    } else {
        decimal_of(n / 10).push(digit(n % 10))
    }
}

/// The character of a hexadecimal digit, in lower case.
pub open spec fn hex_digit(d: nat) -> char {
    if d < 10 {
        digit(d)
    } else {
        (('a' as u32) + (d - 10)) as char
    }
}

/// The last `width` hexadecimal digits of a number, leading zeros kept.
pub open spec fn hex_of(n: nat, width: nat) -> Seq<char>
    decreases width,
{
    if width == 0 {
        Seq::empty()
    } else {
        hex_of(n / 16, (width - 1) as nat).push(hex_digit(n % 16))
    }
}

/// A lower-case hexadecimal digit.
pub open spec fn is_hex(c: char) -> bool {
    '0' <= c <= '9' || 'a' <= c <= 'f'
}

/// What a hexadecimal digit stands for.
pub open spec fn hex_value(c: char) -> nat {
    if c <= '9' {
        (c as u32 - '0' as u32) as nat
    } else {
        (c as u32 - 'a' as u32 + 10) as nat
    }
}

/// The number that a hexadecimal numeral stands for.
pub open spec fn hex_read(s: Seq<char>) -> nat
    decreases s.len(),
{
    if s.len() == 0 {
        0
    } else {
        16 * hex_read(s.drop_last()) + hex_value(s.last())
    }
}

/// A hexadecimal numeral of a width has that many digits, all of lower case, and
/// reads back as the number where the number fits.
pub proof fn law_hexadecimal_reads_back(n: nat, width: nat)
    ensures
        hex_of(n, width).len() == width,
        forall|i: int| 0 <= i < width ==> is_hex(#[trigger] hex_of(n, width)[i]),
        n < power::pow(16, width) ==> hex_read(hex_of(n, width)) == n,
    decreases width,
{
    reveal(power::pow);
    if width > 0 {
        let rest = (width - 1) as nat;
        law_hexadecimal_reads_back(n / 16, rest);
        let d = n % 16;
        let c = hex_digit(d);
        assert(is_hex(c) && hex_value(c) == d);
        let all = hex_of(n, width);
        assert(all == hex_of(n / 16, rest).push(c));
        assert(all.drop_last() =~= hex_of(n / 16, rest));
        assert forall|i: int| 0 <= i < width implies is_hex(#[trigger] all[i]) by {
            if i < rest {
                assert(all[i] == hex_of(n / 16, rest)[i]);
            }
        }
        assert(power::pow(16, width) == 16 * power::pow(16, rest));
        if n < power::pow(16, width) {
            assert(n / 16 < power::pow(16, rest));
        }
    }
}

pub fn decimal(n: u64) -> (r: String)
    ensures
        r@ == decimal_of(n as nat),
    decreases n,
{
    if n < 10 {
        let mut s = String::new();
        s.push((48u8 + (n as u8)) as char);
        s
    } else {
        let mut s = decimal(n / 10);
        s.push((48u8 + ((n % 10) as u8)) as char);
        s
    }
}

pub fn hexadecimal(n: u64, width: u8) -> (r: String)
    ensures
        r@ == hex_of(n as nat, width as nat),
    decreases width,
{
    if width == 0 {
        String::new()
    } else {
        let mut s = hexadecimal(n / 16, width - 1);
        let d: u8 = (n % 16) as u8;
        if d < 10 {
            s.push((48u8 + d) as char);
        } else {
            s.push((97u8 + (d - 10)) as char);
        }
        s
    }
}

// ---------------------------------------------------------------- order

/// The order of strings: by the first character in which they differ, by code
/// point; a proper prefix comes first.
pub open spec fn lex_below(a: Seq<char>, b: Seq<char>) -> bool
    decreases a.len(),
{
    if b.len() == 0 {
        false
    } else if a.len() == 0 {
        true
    } else if a[0] != b[0] {
        (a[0] as int) < (b[0] as int)
    } else {
        lex_below(a.drop_first(), b.drop_first())
    }
}

pub fn text_below(a: &str, b: &str) -> (r: bool)
    ensures
        r == lex_below(a@, b@),
{
    let x = chars_of(a);
    let y = chars_of(b);
    let mut i: usize = 0;
    proof {
        assert(a@.skip(0) =~= a@);
        assert(b@.skip(0) =~= b@);
    }
    while i < x.len() && i < y.len()
        invariant
            x@ == a@,
            y@ == b@,
            i <= x.len(),
            i <= y.len(),
            lex_below(a@, b@) == lex_below(a@.skip(i as int), b@.skip(i as int)),
        decreases x.len() - i,
    {
        proof {
            assert(a@.skip(i as int).drop_first() =~= a@.skip(i + 1));
            assert(b@.skip(i as int).drop_first() =~= b@.skip(i + 1));
        }
        if x[i] != y[i] {
            let p: char = x[i];
            let q: char = y[i];
            return p < q;
        }
        i = i + 1;
    }
    i < y.len()
}

/// No string comes before itself.
pub proof fn lemma_lex_irreflexive(a: Seq<char>)
    ensures
        !lex_below(a, a),
    decreases a.len(),
{
    if a.len() > 0 {
        lemma_lex_irreflexive(a.drop_first());
    }
}

/// Of two different strings one comes first.
pub proof fn lemma_lex_total(a: Seq<char>, b: Seq<char>)
    ensures
        a == b || lex_below(a, b) || lex_below(b, a),
    decreases a.len(),
{
    if a.len() == 0 || b.len() == 0 {
        if a.len() == b.len() {
            assert(a =~= b);
        }
    } else if a[0] == b[0] {
        lemma_lex_total(a.drop_first(), b.drop_first());
        if a.drop_first() == b.drop_first() {
            assert(a =~= seq![a[0]] + a.drop_first());
            assert(b =~= seq![b[0]] + b.drop_first());
        }
    }
}

pub proof fn lemma_lex_transitive(a: Seq<char>, b: Seq<char>, c: Seq<char>)
    requires
        lex_below(a, b),
        lex_below(b, c),
    ensures
        lex_below(a, c),
    decreases a.len(),
{
    if a.len() > 0 && a[0] == b[0] && b[0] == c[0] {
        lemma_lex_transitive(a.drop_first(), b.drop_first(), c.drop_first());
    }
}

/// Strings are strictly and totally ordered.
pub proof fn law_strings_are_totally_ordered(a: Seq<char>, b: Seq<char>, c: Seq<char>)
    ensures
        !lex_below(a, a),
        a == b || lex_below(a, b) || lex_below(b, a),
        !(lex_below(a, b) && lex_below(b, a)),
        lex_below(a, b) && lex_below(b, c) ==> lex_below(a, c),
{
    lemma_lex_irreflexive(a);
    lemma_lex_total(a, b);
    if lex_below(a, b) && lex_below(b, a) {
        lemma_lex_transitive(a, b, a);
    }
    if lex_below(a, b) && lex_below(b, c) {
        lemma_lex_transitive(a, b, c);
    }
}

// ---------------------------------------------------------------- paths

/// A path below a directory: the two with one slash between them; none where
/// the directory is empty or already ends in one.
pub open spec fn joined(dir: Seq<char>, leaf: Seq<char>) -> Seq<char> {
    if dir.len() == 0 || dir.last() == '/' {
        dir + leaf
    } else {
        dir.push('/') + leaf
    }
}

pub fn join(dir: &str, leaf: &str) -> (r: String)
    ensures
        r@ == joined(dir@, leaf@),
{
    let n = dir.unicode_len();
    let mut s = dir.to_owned();
    if n > 0 {
        let last = dir.get_char(n - 1);
        if last != '/' {
            s.push('/');
        }
    }
    s.append(leaf);
    s
}

// ---------------------------------------------------------------- blanks

/// The characters with the Unicode property `White_Space`.
pub open spec fn white_space(c: char) -> bool {
    ||| '\u{9}' <= c <= '\u{d}'
    ||| c == ' '
    ||| c == '\u{85}'
    ||| c == '\u{a0}'
    ||| c == '\u{1680}'
    ||| '\u{2000}' <= c <= '\u{200a}'
    ||| c == '\u{2028}'
    ||| c == '\u{2029}'
    ||| c == '\u{202f}'
    ||| c == '\u{205f}'
    ||| c == '\u{3000}'
}

/// A text with nothing but white space.
pub open spec fn blank(s: Seq<char>) -> bool {
    forall|i: int| 0 <= i < s.len() ==> white_space(#[trigger] s[i])
}

pub fn is_blank(s: &str) -> (r: bool)
    ensures
        r == blank(s@),
{
    let x = chars_of(s);
    let mut i: usize = 0;
    while i < x.len()
        invariant
            x@ == s@,
            i <= x.len(),
            forall|j: int| 0 <= j < i ==> white_space(#[trigger] s@[j]),
        decreases x.len() - i,
    {
        let c: char = x[i];
        let space = ('\u{9}' <= c && c <= '\u{d}') || c == ' ' || c == '\u{85}' || c == '\u{a0}'
            || c == '\u{1680}' || ('\u{2000}' <= c && c <= '\u{200a}') || c == '\u{2028}'
            || c == '\u{2029}' || c == '\u{202f}' || c == '\u{205f}' || c == '\u{3000}';
        if !space {
            assert(!white_space(s@[i as int]));
            return false;
        }
        i = i + 1;
    }
    true
}

/// Two strings that agree on their first `i` characters are ordered by the next:
/// by its code point where both have one and it differs, and the one that ends
/// there comes first where the other goes on.
pub proof fn law_the_first_difference_decides(a: Seq<char>, b: Seq<char>, i: int)
    requires
        0 <= i <= a.len(),
        i <= b.len(),
        forall|j: int| 0 <= j < i ==> (#[trigger] a[j]) == b[j],
    ensures
        i < a.len() && i < b.len() && a[i] != b[i] ==> lex_below(a, b) == ((a[i] as int) < (
        b[i] as int)),
        i == a.len() && i < b.len() ==> lex_below(a, b),
        i == b.len() ==> !lex_below(a, b),
    decreases i,
{
    if i > 0 {
        assert(a[0] == b[0]);
        let x = a.drop_first();
        let y = b.drop_first();
        assert forall|j: int| 0 <= j < i - 1 implies (#[trigger] x[j]) == y[j] by {
            assert(a[j + 1] == b[j + 1]);
        }
        law_the_first_difference_decides(x, y, i - 1);
        if i < a.len() && i < b.len() {
            assert(x[i - 1] == a[i] && y[i - 1] == b[i]);
        }
    }
}

/// The number that a decimal numeral stands for.
pub open spec fn decimal_read(s: Seq<char>) -> nat
    decreases s.len(),
{
    if s.len() == 0 {
        0
    } else {
        10 * decimal_read(s.drop_last()) + (s.last() as u32 - '0' as u32) as nat
    }
}

/// A decimal numeral holds nothing but digits, has no leading zero unless it is the
/// numeral of nought, and reads back as the number.
pub proof fn law_decimal_reads_back(n: nat)
    ensures
        decimal_of(n).len() > 0,
        forall|i: int| 0 <= i < decimal_of(n).len() ==> '0' <= (#[trigger] decimal_of(n)[i]) <= '9',
        n > 0 ==> decimal_of(n)[0] != '0',
        decimal_read(decimal_of(n)) == n,
    decreases n,
{
    let all = decimal_of(n);
    let last = digit(n % 10);
    assert(last as u32 == '0' as u32 + n % 10);
    if n >= 10 {
        let front = decimal_of(n / 10);
        law_decimal_reads_back(n / 10);
        assert(all.drop_last() =~= front);
        assert forall|i: int| 0 <= i < all.len() implies '0' <= (#[trigger] all[i]) <= '9' by {
            if i < front.len() {
                assert(all[i] == front[i]);
            }
        }
        assert(all[0] == front[0]);
    } else {
        assert(all.drop_last() =~= Seq::<char>::empty());
        assert(decimal_read(all.drop_last()) == 0);
    }
}

} // verus!
