//! Character classes and small string algorithms over sequences of characters.

use vstd::prelude::*;
use vstd::string::StrSliceExecFns;
use vstd::string::StringExecFns;

verus! {

/// Characters with the Unicode `White_Space` property.
pub open spec fn is_white_space(c: char) -> bool {
    let u = c as u32;
    ||| 0x09 <= u <= 0x0D
    ||| u == 0x20
    ||| u == 0x85
    ||| u == 0xA0
    ||| u == 0x1680
    ||| 0x2000 <= u <= 0x200A
    ||| u == 0x2028
    ||| u == 0x2029
    ||| u == 0x202F
    ||| u == 0x205F
    ||| u == 0x3000
}

/// Characters of the Unicode general category `Cc`.
pub open spec fn is_control(c: char) -> bool {
    let u = c as u32;
    u <= 0x1F || 0x7F <= u <= 0x9F
}

/// Tells whether `c` is a white space character.
pub fn char_is_white_space(c: char) -> (r: bool)
    ensures
        r == is_white_space(c),
{
    let u: u32 = c as u32;
    (0x09 <= u && u <= 0x0D) || u == 0x20 || u == 0x85 || u == 0xA0 || u == 0x1680 || (0x2000 <= u
        && u <= 0x200A) || u == 0x2028 || u == 0x2029 || u == 0x202F || u == 0x205F || u == 0x3000
}

/// Tells whether `c` is a control character.
pub fn char_is_control(c: char) -> (r: bool)
    ensures
        r == is_control(c),
{
    let u: u32 = c as u32;
    u <= 0x1F || (0x7F <= u && u <= 0x9F)
}

/// The characters of `s`, in order.
pub fn chars_of(s: &str) -> (v: Vec<char>)
    ensures
        v@ == s@,
{
    let mut v: Vec<char> = Vec::new();
    for c in it: s.chars()
        invariant
            v@.len() == it.index(),
            it.seq() == s@,
            forall|j: int| 0 <= j < v@.len() ==> v@[j] == it.seq()[j],
    {
        v.push(c);
    }
    assert(v@ =~= s@);
    v
}


/// Index of the first character of `s` that is no white space; the length if there is none.
pub open spec fn trim_lo(s: Seq<char>) -> int
    decreases s.len(),
{
    if s.len() == 0 || !is_white_space(s[0]) {
        0
    } else {
        1 + trim_lo(s.drop_first())
    }
}

/// One past the index of the last character of `s` that is no white space; 0 if there is none.
pub open spec fn trim_hi(s: Seq<char>) -> int
    decreases s.len(),
{
    if s.len() == 0 {
        0
    } else if !is_white_space(s.last()) {
        s.len() as int
    } else {
        trim_hi(s.drop_last())
    }
}

/// `s` without its leading and trailing white space.
pub open spec fn trim(s: Seq<char>) -> Seq<char> {
    if trim_lo(s) < trim_hi(s) {
        s.subrange(trim_lo(s), trim_hi(s))
    } else {
        Seq::empty()
    }
}

/// `trim_lo` is the end of the longest prefix of white space.
pub proof fn lemma_trim_lo(s: Seq<char>, a: int)
    requires
        0 <= a <= s.len(),
        forall|j: int| 0 <= j < a ==> is_white_space(#[trigger] s[j]),
        a < s.len() ==> !is_white_space(s[a]),
    ensures
        trim_lo(s) == a,
    decreases s.len(),
{
    if s.len() == 0 || !is_white_space(s[0]) {
    } else {
        let t = s.drop_first();
        assert forall|j: int| 0 <= j < a - 1 implies is_white_space(#[trigger] t[j]) by {
            assert(t[j] == s[j + 1]);
        }
        if a - 1 < t.len() {
            assert(t[a - 1] == s[a]);
        }
        lemma_trim_lo(t, a - 1);
    }
}

/// `trim_hi` is the start of the longest suffix of white space.
pub proof fn lemma_trim_hi(s: Seq<char>, b: int)
    requires
        0 <= b <= s.len(),
        forall|j: int| b <= j < s.len() ==> is_white_space(#[trigger] s[j]),
        b > 0 ==> !is_white_space(s[b - 1]),
    ensures
        trim_hi(s) == b,
    decreases s.len(),
{
    if s.len() == 0 {
    } else if !is_white_space(s.last()) {
    } else {
        let t = s.drop_last();
        assert forall|j: int| b <= j < t.len() implies is_white_space(#[trigger] t[j]) by {
            assert(t[j] == s[j]);
        }
        if b > 0 {
            assert(t[b - 1] == s[b - 1]);
        }
        lemma_trim_hi(t, b);
    }
}

/// The bounds of a trimmed sequence lie inside it, and what they enclose neither starts nor
/// ends with white space.
pub proof fn lemma_trim_shape(s: Seq<char>)
    ensures
        0 <= trim_lo(s) <= s.len(),
        0 <= trim_hi(s) <= s.len(),
        forall|j: int| 0 <= j < trim_lo(s) ==> is_white_space(#[trigger] s[j]),
        forall|j: int| trim_hi(s) <= j < s.len() ==> is_white_space(#[trigger] s[j]),
        trim_lo(s) < s.len() ==> !is_white_space(s[trim_lo(s)]),
        trim_hi(s) > 0 ==> !is_white_space(s[trim_hi(s) - 1]),
        trim_lo(s) < s.len() ==> trim_lo(s) < trim_hi(s),
        trim_lo(s) == s.len() ==> trim_hi(s) == 0,
    decreases s.len(),
{
    if s.len() == 0 {
    } else {
        let f = s.drop_first();
        let l = s.drop_last();
        lemma_trim_shape(f);
        lemma_trim_shape(l);
        if is_white_space(s[0]) {
            assert forall|j: int| 0 <= j < trim_lo(s) implies is_white_space(#[trigger] s[j]) by {
                if j > 0 {
                    assert(s[j] == f[j - 1]);
                }
            }
            if trim_lo(s) < s.len() {
                assert(s[trim_lo(s)] == f[trim_lo(f)]);
            }
        }
        if is_white_space(s.last()) {
            assert forall|j: int| trim_hi(s) <= j < s.len() implies is_white_space(
                #[trigger] s[j],
            ) by {
                if j < s.len() - 1 {
                    assert(s[j] == l[j]);
                }
            }
            if trim_hi(s) > 0 {
                assert(s[trim_hi(s) - 1] == l[trim_hi(l) - 1]);
            }
        }
        if trim_lo(s) < s.len() && trim_hi(s) <= trim_lo(s) {
            assert(is_white_space(s[trim_lo(s)]));
        }
        if trim_lo(s) == s.len() && trim_hi(s) > 0 {
            assert(is_white_space(s[trim_hi(s) - 1]));
        }
    }
}

/// A sequence that neither starts nor ends with white space is its own trimmed form.
pub proof fn lemma_trim_fixed(s: Seq<char>)
    requires
        s.len() > 0 ==> !is_white_space(s[0]) && !is_white_space(s.last()),
    ensures
        trim(s) == s,
{
    assert(trim(s) =~= s);
}

/// Bounds, within `from..to`, of what is left of that range after trimming.
pub fn trim_range(v: &Vec<char>, from: usize, to: usize) -> (r: (usize, usize))
    requires
        from <= to <= v.len(),
    ensures
        from <= r.0 <= r.1 <= to,
        v@.subrange(r.0 as int, r.1 as int) == trim(v@.subrange(from as int, to as int)),
{
    let ghost s = v@.subrange(from as int, to as int);
    let mut a: usize = from;
    while a < to && char_is_white_space(v[a])
        invariant
            from <= a <= to <= v.len(),
            forall|j: int| from <= j < a ==> is_white_space(#[trigger] v@[j]),
        decreases to - a,
    {
        a += 1;
    }
    if a == to {
        proof {
            assert forall|j: int| 0 <= j < s.len() implies is_white_space(#[trigger] s[j]) by {
                assert(s[j] == v@[from + j]);
            }
            lemma_trim_lo(s, s.len() as int);
            lemma_trim_hi(s, 0);
            assert(v@.subrange(a as int, a as int) =~= Seq::<char>::empty());
        }
        return (a, a);
    }
    let mut b: usize = to;
    while b > a + 1 && char_is_white_space(v[b - 1])
        invariant
            from <= a < b <= to <= v.len(),
            !is_white_space(v@[a as int]),
            forall|j: int| b <= j < to ==> is_white_space(#[trigger] v@[j]),
        decreases b - a,
    {
        b -= 1;
    }
    proof {
        assert forall|j: int| 0 <= j < a - from implies is_white_space(#[trigger] s[j]) by {
            assert(s[j] == v@[from + j]);
        }
        assert(s[a - from] == v@[a as int]);
        lemma_trim_lo(s, a - from);
        assert forall|j: int| b - from <= j < s.len() implies is_white_space(#[trigger] s[j]) by {
            assert(s[j] == v@[from + j]);
        }
        assert(s[b - from - 1] == v@[b - 1]);
        lemma_trim_hi(s, b - from);
        assert(v@.subrange(a as int, b as int) =~= s.subrange(a - from, b - from));
    }
    (a, b)
}


/// How often `c` occurs in `s`.
pub open spec fn count_of(s: Seq<char>, c: char) -> nat
    decreases s.len(),
{
    if s.len() == 0 {
        0
    } else {
        count_of(s.drop_last(), c) + if s.last() == c {
            1nat
        } else {
            0nat
        }
    }
}

/// Index of the first occurrence of `c` in `s`; the length of `s` if there is none.
pub open spec fn first_index_of(s: Seq<char>, c: char) -> int
    decreases s.len(),
{
    if s.len() == 0 || s[0] == c {
        0
    } else {
        1 + first_index_of(s.drop_first(), c)
    }
}

/// `first_index_of` is the end of the longest prefix without `c`.
pub proof fn lemma_first_index_of(s: Seq<char>, c: char, i: int)
    requires
        0 <= i <= s.len(),
        forall|j: int| 0 <= j < i ==> #[trigger] s[j] != c,
        i < s.len() ==> s[i] == c,
    ensures
        first_index_of(s, c) == i,
    decreases s.len(),
{
    if s.len() == 0 || s[0] == c {
    } else {
        let t = s.drop_first();
        assert forall|j: int| 0 <= j < i - 1 implies #[trigger] t[j] != c by {
            assert(t[j] == s[j + 1]);
        }
        if i - 1 < t.len() {
            assert(t[i - 1] == s[i]);
        }
        lemma_first_index_of(t, c, i - 1);
    }
}

/// Where `first_index_of` points, and that nothing before it is `c`.
pub proof fn lemma_first_index_shape(s: Seq<char>, c: char)
    ensures
        0 <= first_index_of(s, c) <= s.len(),
        forall|j: int| 0 <= j < first_index_of(s, c) ==> #[trigger] s[j] != c,
        first_index_of(s, c) < s.len() ==> s[first_index_of(s, c)] == c,
    decreases s.len(),
{
    if s.len() == 0 || s[0] == c {
    } else {
        let t = s.drop_first();
        lemma_first_index_shape(t, c);
        assert forall|j: int| 0 <= j < first_index_of(s, c) implies #[trigger] s[j] != c by {
            if j > 0 {
                assert(s[j] == t[j - 1]);
            }
        }
        if first_index_of(s, c) < s.len() {
            assert(s[first_index_of(s, c)] == t[first_index_of(t, c)]);
        }
    }
}

/// Counting distributes over concatenation.
pub proof fn lemma_count_concat(a: Seq<char>, b: Seq<char>, c: char)
    ensures
        count_of(a + b, c) == count_of(a, c) + count_of(b, c),
    decreases b.len(),
{
    if b.len() == 0 {
        assert(a + b =~= a);
    } else {
        assert((a + b).drop_last() =~= a + b.drop_last());
        lemma_count_concat(a, b.drop_last(), c);
    }
}

/// A sequence in which `c` does not occur counts none, and the other way round.
pub proof fn lemma_count_zero(s: Seq<char>, c: char)
    ensures
        count_of(s, c) == 0 <==> (forall|j: int| 0 <= j < s.len() ==> #[trigger] s[j] != c),
    decreases s.len(),
{
    if s.len() > 0 {
        let t = s.drop_last();
        lemma_count_zero(t, c);
        if count_of(s, c) == 0 {
            assert forall|j: int| 0 <= j < s.len() implies #[trigger] s[j] != c by {
                if j < t.len() {
                    assert(t[j] == s[j]);
                }
            }
        } else if s.last() != c {
            let j = choose|j: int| 0 <= j < t.len() && #[trigger] t[j] == c;
            assert(s[j] == c);
        }
    }
}

/// Number of occurrences of `c` in `v[from..to]`, and the index of the first of them
/// (`to` if there is none).
pub fn scan_for(v: &Vec<char>, from: usize, to: usize, c: char) -> (r: (usize, usize))
    requires
        from <= to <= v.len(),
    ensures
        r.0 == count_of(v@.subrange(from as int, to as int), c),
        r.1 == from + first_index_of(v@.subrange(from as int, to as int), c),
        from <= r.1 <= to,
{
    let ghost s = v@.subrange(from as int, to as int);
    let mut count: usize = 0;
    let mut first: usize = to;
    let mut i: usize = from;
    while i < to
        invariant
            from <= i <= to <= v.len(),
            s == v@.subrange(from as int, to as int),
            count == count_of(s.take(i - from), c),
            count <= i - from,
            count == 0 ==> first == to,
            count > 0 ==> from <= first < i && v@[first as int] == c,
            forall|j: int| from <= j < i && j < first ==> #[trigger] v@[j] != c,
        decreases to - i,
    {
        proof {
            assert(s.take(i - from + 1).drop_last() =~= s.take(i - from));
            assert(s.take(i - from + 1).last() == v@[i as int]);
        }
        if v[i] == c {
            if count == 0 {
                first = i;
            }
            count += 1;
        }
        i += 1;
    }
    proof {
        assert(s.take(to - from) =~= s);
        assert forall|j: int| 0 <= j < first - from implies #[trigger] s[j] != c by {
            assert(s[j] == v@[from + j]);
        }
        if first < to {
            assert(s[first - from] == v@[first as int]);
        }
        lemma_first_index_of(s, c, first - from);
    }
    (count, first)
}


/// The ASCII decimal digits.
pub open spec fn is_digit(c: char) -> bool {
    '0' <= c <= '9'
}

/// The value of a decimal digit.
pub open spec fn digit_value(c: char) -> nat {
    (c as u32 - '0' as u32) as nat
}

/// Whether every character of `s` is a decimal digit.
pub open spec fn all_digits(s: Seq<char>) -> bool {
    forall|i: int| 0 <= i < s.len() ==> is_digit(#[trigger] s[i])
}

/// The number that a sequence of decimal digits denotes.
pub open spec fn decimal_value(s: Seq<char>) -> nat
    decreases s.len(),
{
    if s.len() == 0 {
        0
    } else {
        10 * decimal_value(s.drop_last()) + digit_value(s.last())
    }
}

/// The digits of an unsigned decimal numeral: `s` without one leading `+`.
pub open spec fn numeral_digits(s: Seq<char>) -> Seq<char> {
    if s.len() > 0 && s[0] == '+' {
        s.drop_first()
    } else {
        s
    }
}

/// The number that `s` denotes as an unsigned decimal numeral no greater than `max`: an
/// optional `+`, then one digit or more. `None` for every other text.
pub open spec fn parse_unsigned(s: Seq<char>, max: nat) -> Option<nat> {
    let digits = numeral_digits(s);
    if digits.len() > 0 && all_digits(digits) && decimal_value(digits) <= max {
        Some(decimal_value(digits))
    } else {
        None
    }
}

/// A numeral is worth at least as much as each of its prefixes.
pub proof fn lemma_decimal_prefix(s: Seq<char>, k: int)
    requires
        0 <= k <= s.len(),
    ensures
        decimal_value(s.take(k)) <= decimal_value(s),
    decreases s.len() - k,
{
    if k == s.len() {
        assert(s.take(k) =~= s);
    } else {
        assert(s.take(k + 1).drop_last() =~= s.take(k));
        lemma_decimal_prefix(s, k + 1);
    }
}

/// Reads `v[from..to]` as an unsigned decimal numeral no greater than `max`.
pub fn parse_decimal_range(v: &Vec<char>, from: usize, to: usize, max: u64) -> (r: Option<u64>)
    requires
        from <= to <= v.len(),
    ensures
        r matches Some(n) ==> parse_unsigned(v@.subrange(from as int, to as int), max as nat)
            == Some(n as nat),
        r is None ==> parse_unsigned(v@.subrange(from as int, to as int), max as nat) is None,
{
    let ghost s = v@.subrange(from as int, to as int);
    let start: usize = if from < to && v[from] == '+' {
        from + 1
    } else {
        from
    };
    let ghost d = numeral_digits(s);
    proof {
        if from < to {
            assert(s[0] == v@[from as int]);
        }
        assert(d =~= v@.subrange(start as int, to as int));
    }
    if start == to {
        return None;
    }
    let mut acc: u64 = 0;
    let mut i: usize = start;
    while i < to
        invariant
            from <= start <= i <= to <= v.len(),
            s == v@.subrange(from as int, to as int),
            d == numeral_digits(s),
            d == v@.subrange(start as int, to as int),
            all_digits(d.take(i - start)),
            acc == decimal_value(d.take(i - start)),
            acc <= max,
        decreases to - i,
    {
        let c = v[i];
        proof {
            assert(d[i - start] == c);
            assert(d.take(i - start + 1).drop_last() =~= d.take(i - start));
            assert(d.take(i - start + 1).last() == c);
        }
        if !(c >= '0' && c <= '9') {
            assert(!is_digit(d[i - start]));
            return None;
        }
        let digit: u64 = (c as u32 - '0' as u32) as u64;
        if digit > max || acc > (max - digit) / 10 {
            proof {
                assert(decimal_value(d.take(i - start + 1)) > max);
                lemma_decimal_prefix(d, i - start + 1);
            }
            return None;
        }
        proof {
            assert forall|j: int| 0 <= j < i - start + 1 implies is_digit(
                #[trigger] d.take(i - start + 1)[j],
            ) by {
                if j < i - start {
                    assert(d.take(i - start + 1)[j] == d.take(i - start)[j]);
                }
            }
        }
        acc = acc * 10 + digit;
        i += 1;
    }
    proof {
        assert(d.take(to - start) =~= d);
    }
    Some(acc)
}

/// Reads `s` as an unsigned decimal numeral no greater than `max`.
pub fn parse_decimal(s: &str, max: u64) -> (r: Option<u64>)
    ensures
        r matches Some(n) ==> parse_unsigned(s@, max as nat) == Some(n as nat),
        r is None ==> parse_unsigned(s@, max as nat) is None,
{
    let v = chars_of(s);
    proof {
        assert(v@.subrange(0, v@.len() as int) =~= s@);
    }
    parse_decimal_range(&v, 0, v.len(), max)
}


/// The decimal digit that stands for `d`, for `d` below ten.
pub open spec fn digit_char(d: nat) -> char {
    if d == 0 {
        '0'
    } else if d == 1 {
        '1'
    } else if d == 2 {
        '2'
    } else if d == 3 {
        '3'
    } else if d == 4 {
        '4'
    } else if d == 5 {
        '5'
    } else if d == 6 {
        '6'
    } else if d == 7 {
        '7'
    } else if d == 8 {
        '8'
    } else {
        '9'
    }
}

/// The decimal numeral of `n`, without sign or leading zeros.
pub open spec fn decimal_text(n: nat) -> Seq<char>
    decreases n,
{
    if n < 10 {
        seq![digit_char(n)]
    } else {
        decimal_text(n / 10).push(digit_char(n % 10))
    }
}

/// The numeral of one digit.
fn digit_str(d: u64) -> (r: &'static str)
    requires
        d < 10,
    ensures
        r@ == seq![digit_char(d as nat)],
{
    proof {
        reveal_strlit("0");
        reveal_strlit("1");
        reveal_strlit("2");
        reveal_strlit("3");
        reveal_strlit("4");
        reveal_strlit("5");
        reveal_strlit("6");
        reveal_strlit("7");
        reveal_strlit("8");
        reveal_strlit("9");
    }
    let r = if d == 0 {
        "0"
    } else if d == 1 {
        "1"
    } else if d == 2 {
        "2"
    } else if d == 3 {
        "3"
    } else if d == 4 {
        "4"
    } else if d == 5 {
        "5"
    } else if d == 6 {
        "6"
    } else if d == 7 {
        "7"
    } else if d == 8 {
        "8"
    } else {
        "9"
    };
    assert(r@ =~= seq![digit_char(d as nat)]);
    r
}

/// Renders `n` in decimal.
pub fn decimal_string(n: u64) -> (r: String)
    ensures
        r@ == decimal_text(n as nat),
    decreases n,
{
    if n < 10 {
        String::from_str(digit_str(n))
    } else {
        let mut r = decimal_string(n / 10);
        r.append(digit_str(n % 10));
        assert(r@ =~= decimal_text((n / 10) as nat).push(digit_char((n % 10) as nat)));
        r
    }
}

/// What the `Debug` rendering of a string is: the string in double quotes, with the
/// characters escaped that Rust escapes there.
pub uninterp spec fn debug_quoted(s: Seq<char>) -> Seq<char>;

/// Renders `s` as `{:?}` does. Calls the `Debug` implementation of `str`, which is a
/// function of the string alone; its result is named, not described.
#[verifier::external_body]
pub(crate) fn quote_debug(s: &str) -> (r: String)
    ensures
        r@ == debug_quoted(s@),
{
    format!("{:?}", s)
}


/// `c` in lower case if it is an ASCII capital, `c` itself otherwise.
pub open spec fn ascii_lower(c: char) -> char {
    if 'A' <= c <= 'Z' {
        ((c as u8) + 32) as char
    } else {
        c
    }
}

/// Whether `s` reads `word` once its ASCII capitals are put in lower case.
pub open spec fn folds_to(s: Seq<char>, word: Seq<char>) -> bool {
    s.len() == word.len() && forall|i: int| 0 <= i < s.len() ==> ascii_lower(s[i]) == #[trigger] word[i]
}

/// Whether `s` ends with `suffix` once its ASCII capitals are put in lower case.
pub open spec fn ends_with_folded(s: Seq<char>, suffix: Seq<char>) -> bool {
    s.len() >= suffix.len() && folds_to(s.skip(s.len() - suffix.len()), suffix)
}

/// `c` in lower case if it is an ASCII capital.
pub fn char_ascii_lower(c: char) -> (r: char)
    ensures
        r == ascii_lower(c),
{
    if c >= 'A' && c <= 'Z' {
        ((c as u8) + 32) as char
    } else {
        c
    }
}

/// Whether `v[from..]` reads `word` once its ASCII capitals are put in lower case.
pub fn range_folds_to(v: &Vec<char>, from: usize, word: &str) -> (r: bool)
    requires
        from <= v.len(),
    ensures
        r == folds_to(v@.skip(from as int), word@),
{
    let w = chars_of(word);
    let ghost s = v@.skip(from as int);
    if v.len() - from != w.len() {
        return false;
    }
    let mut i: usize = 0;
    while i < w.len()
        invariant
            from <= v@.len(),
            i <= w@.len(),
            w@ == word@,
            s == v@.skip(from as int),
            s.len() == w@.len(),
            v@.len() == from + w@.len(),
            v@.len() <= usize::MAX,
            forall|j: int| 0 <= j < i ==> ascii_lower(s[j]) == #[trigger] w@[j],
        decreases w@.len() - i,
    {
        if char_ascii_lower(v[from + i]) != w[i] {
            assert(s[i as int] == v@[from + i]);
            assert(ascii_lower(s[i as int]) != w@[i as int]);
            return false;
        }
        assert(s[i as int] == v@[from + i]);
        i += 1;
    }
    true
}

/// Whether `s` reads `word` once its ASCII capitals are put in lower case.
pub fn eq_ignore_ascii_case(s: &str, word: &str) -> (r: bool)
    ensures
        r == folds_to(s@, word@),
{
    let v = chars_of(s);
    proof {
        assert(v@.skip(0) =~= s@);
    }
    range_folds_to(&v, 0, word)
}

/// Whether `v` ends with `suffix` once its ASCII capitals are put in lower case.
pub fn ends_with_ignore_ascii_case(v: &Vec<char>, suffix: &str) -> (r: bool)
    ensures
        r == ends_with_folded(v@, suffix@),
{
    let n = suffix.unicode_len();
    if v.len() < n {
        return false;
    }
    range_folds_to(v, v.len() - n, suffix)
}

/// The decimal numeral of `n`, with `-` in front where `n` is negative.
pub open spec fn signed_decimal_text(n: int) -> Seq<char> {
    if n < 0 {
        seq!['-'] + decimal_text((-n) as nat)
    } else {
        decimal_text(n as nat)
    }
}

/// Renders `n` in decimal.
pub fn signed_decimal_string(n: i64) -> (r: String)
    ensures
        r@ == signed_decimal_text(n as int),
{
    if n < 0 {
        let magnitude: u64 = ((-(n + 1)) as u64) + 1;
        let digits = decimal_string(magnitude);
        proof {
            reveal_strlit("-");
            assert("-"@ =~= seq!['-']);
        }
        String::from_str("-").concat(digits.as_str())
    } else {
        decimal_string(n as u64)
    }
}


/// The view of an optional string.
pub open spec fn opt_text(s: Option<String>) -> Option<Seq<char>> {
    match s {
        Some(t) => Some(t@),
        None => None,
    }
}

/// The view of an optional string slice.
pub open spec fn opt_str_text(s: Option<&str>) -> Option<Seq<char>> {
    match s {
        Some(t) => Some(t@),
        None => None,
    }
}

} // verus!
