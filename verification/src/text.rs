//! Character-level helpers shared by the parsers: conversions between `str`
//! and character vectors, and the ASCII character classes the parsers use.
use vstd::prelude::*;

verus! {

/// The characters of `s`, in order (std `str::chars`, collected).
#[verifier::external_body]
pub(crate) fn chars_of(s: &str) -> (result: Vec<char>)
    ensures
        result@ == s@,
{
    s.chars().collect()
}

/// A `String` holding exactly `chars` (std `FromIterator<char>` for `String`).
#[verifier::external_body]
pub(crate) fn string_from_chars(chars: &[char]) -> (result: String)
    ensures
        result@ == chars@,
{
    chars.iter().collect()
}

pub open spec fn is_ascii_digit(c: char) -> bool {
    '0' <= c <= '9'
}

pub open spec fn is_ascii_lower(c: char) -> bool {
    'a' <= c <= 'z'
}

pub open spec fn is_ascii_upper(c: char) -> bool {
    'A' <= c <= 'Z'
}

pub open spec fn is_ascii_alpha(c: char) -> bool {
    is_ascii_lower(c) || is_ascii_upper(c)
}

pub open spec fn is_ascii_alnum(c: char) -> bool {
    is_ascii_alpha(c) || is_ascii_digit(c)
}

pub fn ascii_digit(c: char) -> (result: bool)
    ensures
        result == is_ascii_digit(c),
{
    '0' <= c && c <= '9'
}

pub fn ascii_alpha(c: char) -> (result: bool)
    ensures
        result == is_ascii_alpha(c),
{
    ('a' <= c && c <= 'z') || ('A' <= c && c <= 'Z')
}

pub fn ascii_alnum(c: char) -> (result: bool)
    ensures
        result == is_ascii_alnum(c),
{
    ascii_alpha(c) || ascii_digit(c)
}

/// Whether two texts are equal.
pub fn str_eq(left: &str, right: &str) -> (result: bool)
    ensures
        result == (left@ == right@),
{
    let a = chars_of(left);
    let b = chars_of(right);
    if a.len() != b.len() {
        return false;
    }
    let mut i: usize = 0;
    while i < a.len()
        invariant
            a@ == left@,
            b@ == right@,
            a@.len() == b@.len(),
            i <= a@.len(),
            forall|j: int| 0 <= j < i ==> a@[j] == b@[j],
        decreases a@.len() - i,
    {
        if a[i] != b[i] {
            return false;
        }
        i = i + 1;
    }
    assert(a@ =~= b@);
    true
}

/// Whether `text` starts with `prefix`.
pub open spec fn spec_starts_with(text: Seq<char>, prefix: Seq<char>) -> bool {
    prefix.len() <= text.len() && text.subrange(0, prefix.len() as int) == prefix
}

/// Whether the character vector starts with `prefix`.
pub fn starts_with(text: &[char], prefix: &str) -> (result: bool)
    ensures
        result == spec_starts_with(text@, prefix@),
{
    let p = chars_of(prefix);
    if p.len() > text.len() {
        return false;
    }
    let mut i: usize = 0;
    while i < p.len()
        invariant
            p@ == prefix@,
            p@.len() <= text@.len(),
            i <= p@.len(),
            forall|j: int| 0 <= j < i ==> text@[j] == p@[j],
        decreases p@.len() - i,
    {
        if text[i] != p[i] {
            assert(text@.subrange(0, p@.len() as int)[i as int] == text@[i as int]);
            return false;
        }
        i = i + 1;
    }
    assert(text@.subrange(0, p@.len() as int) =~= p@);
    true
}

/// Position of the first `c` in `s`, if `c` occurs.
pub open spec fn first_index_of(s: Seq<char>, c: char) -> Option<int> {
    if exists|i: int| is_first_index(s, c, i) {
        Some(choose|i: int| is_first_index(s, c, i))
    } else {
        None
    }
}

/// `i` is where `c` first occurs in `s`.
pub open spec fn is_first_index(s: Seq<char>, c: char, i: int) -> bool {
    &&& 0 <= i < s.len()
    &&& s[i] == c
    &&& forall|j: int| 0 <= j < i ==> s[j] != c
}

proof fn lemma_first_index_unique(s: Seq<char>, c: char, i: int, k: int)
    requires
        is_first_index(s, c, i),
        is_first_index(s, c, k),
    ensures
        i == k,
{
    if i < k {
        assert(s[i] != c);
    } else if k < i {
        assert(s[k] != c);
    }
}

/// Finds the first occurrence of `c`.
pub fn find_char(text: &[char], c: char) -> (result: Option<usize>)
    ensures
        match result {
            Some(i) => first_index_of(text@, c) == Some(i as int),
            None => first_index_of(text@, c) is None && !text@.contains(c),
        },
{
    let mut i: usize = 0;
    while i < text.len()
        invariant
            i <= text@.len(),
            forall|j: int| 0 <= j < i ==> text@[j] != c,
        decreases text@.len() - i,
    {
        if text[i] == c {
            proof {
                assert(is_first_index(text@, c, i as int));
                let k = choose|k: int| is_first_index(text@, c, k);
                lemma_first_index_unique(text@, c, i as int, k);
            }
            return Some(i);
        }
        i = i + 1;
    }
    proof {
        if exists|k: int| is_first_index(text@, c, k) {
            let k = choose|k: int| is_first_index(text@, c, k);
            assert(text@[k] != c);
        }
        if text@.contains(c) {
            let k = choose|k: int| 0 <= k < text@.len() && text@[k] == c;
            assert(text@[k] != c);
        }
    }
    None
}

/// Whether `c` occurs in the text.
pub fn contains_char(text: &[char], c: char) -> (result: bool)
    ensures
        result == text@.contains(c),
{
    match find_char(text, c) {
        Some(i) => {
            proof {
                let k = choose|k: int| is_first_index(text@, c, k);
                assert(text@[k] == c);
            }
            true
        },
        None => false,
    }
}

/// Value of a non-empty string of ASCII digits.
pub open spec fn digits_value(s: Seq<char>) -> int
    decreases s.len(),
{
    if s.len() == 0 {
        0
    } else {
        digits_value(s.drop_last()) * 10 + (s.last() as int - 48)
    }
}

/// Every character of `s` is an ASCII digit.
pub open spec fn all_digits(s: Seq<char>) -> bool {
    forall|i: int| 0 <= i < s.len() ==> is_ascii_digit(#[trigger] s[i])
}

/// What `u64`'s `FromStr` accepts: an optional `+`, then one or more ASCII
/// digits whose value fits in 64 bits.
pub open spec fn spec_parse_u64(s: Seq<char>) -> Option<u64> {
    let digits = if s.len() > 0 && s[0] == '+' {
        s.skip(1)
    } else {
        s
    };
    if digits.len() == 0 || !all_digits(digits) || digits_value(digits) > u64::MAX {
        None
    } else {
        Some(digits_value(digits) as u64)
    }
}

proof fn lemma_digits_value_grows(s: Seq<char>, k: int)
    requires
        all_digits(s),
        0 <= k <= s.len(),
    ensures
        0 <= digits_value(s.take(k)) <= digits_value(s),
    decreases s.len() - k,
{
    if k < s.len() {
        lemma_digits_value_grows(s, k + 1);
        let t = s.take(k + 1);
        assert(t.drop_last() =~= s.take(k));
        assert(is_ascii_digit(s[k]));
        lemma_digits_value_nonneg(s.take(k));
    } else {
        assert(s.take(k) =~= s);
        lemma_digits_value_nonneg(s);
    }
}

proof fn lemma_digits_value_nonneg(s: Seq<char>)
    requires
        all_digits(s),
    ensures
        digits_value(s) >= 0,
    decreases s.len(),
{
    if s.len() > 0 {
        assert(all_digits(s.drop_last()));
        assert(is_ascii_digit(s[s.len() - 1]));
        lemma_digits_value_nonneg(s.drop_last());
    }
}

/// Parses a decimal `u64` the way `u64`'s `FromStr` does.
pub fn parse_u64(text: &[char]) -> (result: Option<u64>)
    ensures
        result == spec_parse_u64(text@),
{
    let start: usize = if text.len() > 0 && text[0] == '+' {
        1
    } else {
        0
    };
    let ghost digits = text@.skip(start as int);
    proof {
        if start == 0 {
            assert(digits =~= text@);
        }
    }
    if start == text.len() {
        return None;
    }
    let mut i: usize = start;
    while i < text.len()
        invariant
            start <= i <= text@.len(),
            digits == text@.skip(start as int),
            digits == (if text@.len() > 0 && text@[0] == '+' {
                text@.skip(1)
            } else {
                text@
            }),
            forall|j: int| start <= j < i ==> is_ascii_digit(#[trigger] text@[j]),
        decreases text@.len() - i,
    {
        if !ascii_digit(text[i]) {
            proof {
                assert(digits[i - start] == text@[i as int]);
                assert(!is_ascii_digit(digits[i - start]));
            }
            return None;
        }
        i = i + 1;
    }
    assert(all_digits(digits)) by {
        assert forall|j: int| 0 <= j < digits.len() implies is_ascii_digit(#[trigger] digits[j]) by {
            assert(digits[j] == text@[j + start]);
        }
    }
    let mut value: u64 = 0;
    let mut i: usize = start;
    while i < text.len()
        invariant
            start <= i <= text@.len(),
            digits == text@.skip(start as int),
            digits == (if text@.len() > 0 && text@[0] == '+' {
                text@.skip(1)
            } else {
                text@
            }),
            all_digits(digits),
            value as int == digits_value(digits.take(i - start)),
        decreases text@.len() - i,
    {
        proof {
            assert(digits[i - start] == text@[i as int]);
            assert(is_ascii_digit(digits[i - start]));
            let t = digits.take(i - start + 1);
            assert(t.drop_last() =~= digits.take(i - start));
            assert(t.last() == text@[i as int]);
        }
        let d = (text[i] as u32 - 48) as u64;
        if value > (u64::MAX - d) / 10 {
            proof {
                assert(value * 10 + d > u64::MAX) by (nonlinear_arith)
                    requires
                        value > (u64::MAX - d) / 10,
                        d <= 9,
                ;
                lemma_digits_value_grows(digits, i - start + 1);
            }
            return None;
        }
        proof {
            assert(value * 10 + d <= u64::MAX) by (nonlinear_arith)
                requires
                    value <= (u64::MAX - d) / 10,
                    d <= 9,
            ;
        }
        value = value * 10 + d;
        i = i + 1;
    }
    assert(digits.take(digits.len() as int) =~= digits);
    Some(value)
}

/// `a` immediately followed by `b` occurs in `s`.
pub open spec fn contains_adjacent(s: Seq<char>, a: char, b: char) -> bool {
    exists|i: int| 0 <= i && i + 1 < s.len() && #[trigger] s[i] == a && s[i + 1] == b
}

/// Whether `a` immediately followed by `b` occurs in the text.
pub fn contains_pair(text: &[char], a: char, b: char) -> (result: bool)
    ensures
        result == contains_adjacent(text@, a, b),
{
    let mut i: usize = 0;
    if text.len() < 2 {
        return false;
    }
    while i < text.len() - 1
        invariant
            text@.len() >= 2,
            forall|j: int| 0 <= j < i && j + 1 < text@.len() ==> !(#[trigger] text@[j] == a && text@[j
                + 1] == b),
        decreases text@.len() - i,
    {
        if text[i] == a && text[i + 1] == b {
            return true;
        }
        i = i + 1;
    }
    proof {
        if contains_adjacent(text@, a, b) {
            let k = choose|k: int| 0 <= k && k + 1 < text@.len() && #[trigger] text@[k] == a && text@[k
                + 1] == b;
            assert(!(text@[k] == a && text@[k + 1] == b));
        }
    }
    false
}

/// The characters `text[from..to]` as a vector.
pub fn chars_between(text: &[char], from: usize, to: usize) -> (result: Vec<char>)
    requires
        from <= to <= text@.len(),
    ensures
        result@ == text@.subrange(from as int, to as int),
{
    vstd::slice::slice_to_vec(vstd::slice::slice_subrange(text, from, to))
}

/// What is left of `text` after `prefix`, if it starts with `prefix`.
pub fn strip_prefix(text: &[char], prefix: &str) -> (result: Option<Vec<char>>)
    ensures
        match result {
            Some(rest) => spec_starts_with(text@, prefix@) && rest@ == text@.skip(prefix@.len() as int),
            None => !spec_starts_with(text@, prefix@),
        },
{
    if starts_with(text, prefix) {
        let n = chars_of(prefix).len();
        Some(chars_between(text, n, text.len()))
    } else {
        None
    }
}

/// The decimal digits of `n`, most significant first, without leading zeros.
pub open spec fn decimal_text(n: nat) -> Seq<char>
    decreases n,
{
    if n < 10 {
        seq![((n + 48) as u8) as char]
    } else {
        decimal_text(n / 10).push((((n % 10) + 48) as u8) as char)
    }
}

/// The decimal text of a number is one or more ASCII digits whose value is
/// the number, so `u64`'s `FromStr` reads it back.
pub proof fn lemma_decimal_text_reads_back(n: nat)
    ensures
        decimal_text(n).len() > 0,
        all_digits(decimal_text(n)),
        digits_value(decimal_text(n)) == n,
        n <= u64::MAX ==> spec_parse_u64(decimal_text(n)) == Some(n as u64),
    decreases n,
{
    let t = decimal_text(n);
    if n < 10 {
        let c = ((n + 48) as u8) as char;
        assert(c as int == n + 48);
        assert(t == seq![c]);
        assert(t.drop_last() =~= Seq::<char>::empty());
        assert(digits_value(t.drop_last()) == 0);
    } else {
        lemma_decimal_text_reads_back(n / 10);
        let d = (((n % 10) + 48) as u8) as char;
        assert(d as int == n % 10 + 48);
        assert(t == decimal_text(n / 10).push(d));
        assert(t.drop_last() =~= decimal_text(n / 10));
        assert(t.last() == d);
        vstd::arithmetic::div_mod::lemma_fundamental_div_mod(n as int, 10);
        assert forall|i: int| 0 <= i < t.len() implies is_ascii_digit(#[trigger] t[i]) by {
            if i < t.len() - 1 {
                assert(t[i] == decimal_text(n / 10)[i]);
            }
        }
    }
    if t.len() > 0 {
        assert(is_ascii_digit(t[0]));
    }
}

/// The decimal text of `n`, as `Display` of `u64` writes it.
pub fn u64_text(n: u64) -> (result: String)
    ensures
        result@ == decimal_text(n as nat),
{
    let mut digits: Vec<char> = Vec::new();
    let mut rest = n;
    while rest >= 10
        invariant
            decimal_text(n as nat) == decimal_text(rest as nat) + digits@,
        decreases rest,
    {
        let d = ((rest % 10) as u8 + 48) as char;
        proof {
            assert(decimal_text(rest as nat) == decimal_text((rest / 10) as nat).push(d));
            assert(decimal_text(rest as nat) + digits@ =~= decimal_text((rest / 10) as nat) + (
            seq![d] + digits@));
        }
        digits.insert(0, d);
        rest = rest / 10;
    }
    let first = (rest as u8 + 48) as char;
    digits.insert(0, first);
    proof {
        assert(decimal_text(rest as nat) == seq![first]);
    }
    string_from_chars(digits.as_slice())
}

/// `s` cut at every `c`, as `str::split` with a character separator does.
pub open spec fn spec_split(s: Seq<char>, c: char) -> Seq<Seq<char>>
    decreases s.len(),
{
    match first_index_of(s, c) {
        None => seq![s],
        Some(i) => {
            if 0 <= i < s.len() {
                seq![s.take(i)] + spec_split(s.skip(i + 1), c)
            } else {
                seq![s]
            }
        },
    }
}

/// The views of a vector of character vectors.
pub open spec fn views_of(parts: Seq<Vec<char>>) -> Seq<Seq<char>> {
    parts.map_values(|v: Vec<char>| v@)
}

proof fn lemma_first_index_in_range(s: Seq<char>, c: char)
    ensures
        first_index_of(s, c) matches Some(i) ==> is_first_index(s, c, i),
{
}

/// Cuts the text at every `c`.
pub fn split_char(text: &[char], c: char) -> (result: Vec<Vec<char>>)
    ensures
        views_of(result@) == spec_split(text@, c),
{
    let mut parts: Vec<Vec<char>> = Vec::new();
    let mut rest: Vec<char> = chars_between(text, 0, text.len());
    assert(rest@ =~= text@);
    loop
        invariant
            spec_split(text@, c) == views_of(parts@) + spec_split(rest@, c),
        decreases rest@.len(),
    {
        match find_char(rest.as_slice(), c) {
            None => {
                proof {
                    assert(spec_split(rest@, c) == seq![rest@]);
                }
                let ghost before = parts@;
                parts.push(rest);
                proof {
                    assert(views_of(parts@) =~= views_of(before).push(rest@));
                    assert(views_of(before) + seq![rest@] =~= views_of(before).push(rest@));
                }
                return parts;
            },
            Some(i) => {
                proof {
                    lemma_first_index_in_range(rest@, c);
                    assert(is_first_index(rest@, c, i as int));
                }
                let n = rest.len();
                let head = chars_between(rest.as_slice(), 0, i);
                let tail = chars_between(rest.as_slice(), i + 1, n);
                proof {
                    assert(head@ =~= rest@.take(i as int));
                    assert(tail@ =~= rest@.skip(i + 1));
                    assert(spec_split(rest@, c) == seq![head@] + spec_split(tail@, c));
                }
                let ghost before = parts@;
                parts.push(head);
                proof {
                    assert(views_of(parts@) =~= views_of(before).push(head@));
                    assert(views_of(before) + (seq![head@] + spec_split(tail@, c)) =~= views_of(
                        before,
                    ).push(head@) + spec_split(tail@, c));
                }
                rest = tail;
            },
        }
    }
}

/// Unicode `White_Space`, the property `char::is_whitespace` tests.
pub open spec fn is_unicode_whitespace(c: char) -> bool {
    let n = c as u32;
    ||| 9 <= n <= 13
    ||| n == 32
    ||| n == 0x85
    ||| n == 0xA0
    ||| n == 0x1680
    ||| 0x2000 <= n <= 0x200A
    ||| n == 0x2028
    ||| n == 0x2029
    ||| n == 0x202F
    ||| n == 0x205F
    ||| n == 0x3000
}

/// Whether `c` is Unicode white space.
pub fn is_whitespace(c: char) -> (result: bool)
    ensures
        result == is_unicode_whitespace(c),
{
    let n = c as u32;
    (9 <= n && n <= 13) || n == 32 || n == 0x85 || n == 0xA0 || n == 0x1680 || (0x2000 <= n && n
        <= 0x200A) || n == 0x2028 || n == 0x2029 || n == 0x202F || n == 0x205F || n == 0x3000
}

/// `s` without its leading white space.
pub open spec fn spec_trim_start(s: Seq<char>) -> Seq<char>
    decreases s.len(),
{
    if s.len() > 0 && is_unicode_whitespace(s[0]) {
        spec_trim_start(s.skip(1))
    } else {
        s
    }
}

/// `s` without its trailing white space.
pub open spec fn spec_trim_end(s: Seq<char>) -> Seq<char>
    decreases s.len(),
{
    if s.len() > 0 && is_unicode_whitespace(s.last()) {
        spec_trim_end(s.drop_last())
    } else {
        s
    }
}

/// `s` without leading and trailing white space, as `str::trim` gives it.
pub open spec fn spec_trim(s: Seq<char>) -> Seq<char> {
    spec_trim_end(spec_trim_start(s))
}

/// Every character of `s` is white space.
pub open spec fn all_whitespace(s: Seq<char>) -> bool {
    forall|i: int| 0 <= i < s.len() ==> is_unicode_whitespace(#[trigger] s[i])
}

/// Leading white space before a text is dropped with the text's own.
pub proof fn lemma_trim_start_after_space(ws: Seq<char>, v: Seq<char>)
    requires
        all_whitespace(ws),
    ensures
        spec_trim_start(ws + v) == spec_trim_start(v),
    decreases ws.len(),
{
    if ws.len() > 0 {
        assert((ws + v)[0] == ws[0]);
        assert((ws + v).skip(1) =~= ws.skip(1) + v);
        assert(all_whitespace(ws.skip(1))) by {
            assert forall|i: int| 0 <= i < ws.skip(1).len() implies is_unicode_whitespace(
                #[trigger] ws.skip(1)[i],
            ) by {
                assert(ws.skip(1)[i] == ws[i + 1]);
            }
        }
        lemma_trim_start_after_space(ws.skip(1), v);
    } else {
        assert(ws + v =~= v);
    }
}

/// Trailing white space after a text is dropped with the text's own.
pub proof fn lemma_trim_end_before_space(v: Seq<char>, ws: Seq<char>)
    requires
        all_whitespace(ws),
    ensures
        spec_trim_end(v + ws) == spec_trim_end(v),
    decreases ws.len(),
{
    if ws.len() > 0 {
        assert((v + ws).last() == ws.last());
        assert((v + ws).drop_last() =~= v + ws.drop_last());
        assert(all_whitespace(ws.drop_last())) by {
            assert forall|i: int| 0 <= i < ws.drop_last().len() implies is_unicode_whitespace(
                #[trigger] ws.drop_last()[i],
            ) by {
                assert(ws.drop_last()[i] == ws[i]);
            }
        }
        lemma_trim_end_before_space(v, ws.drop_last());
    } else {
        assert(v + ws =~= v);
    }
}

/// Trimming the front of `v + w` trims `v`'s front, and all of `w` too when
/// `v` was only white space.
proof fn lemma_trim_start_concat(v: Seq<char>, w: Seq<char>)
    ensures
        spec_trim_start(v).len() > 0 ==> spec_trim_start(v + w) == spec_trim_start(v) + w,
        spec_trim_start(v).len() == 0 ==> spec_trim_start(v + w) == spec_trim_start(w),
    decreases v.len(),
{
    if v.len() == 0 {
        assert(v + w =~= w);
    } else if is_unicode_whitespace(v[0]) {
        assert((v + w)[0] == v[0]);
        assert((v + w).skip(1) =~= v.skip(1) + w);
        lemma_trim_start_concat(v.skip(1), w);
    } else {
        assert((v + w)[0] == v[0]);
    }
}

/// `str::trim` ignores white space added around a text: trimming
/// `ws1 + v + ws2` gives what trimming `v` gives.
pub proof fn lemma_trim_ignores_padding(ws1: Seq<char>, v: Seq<char>, ws2: Seq<char>)
    requires
        all_whitespace(ws1),
        all_whitespace(ws2),
    ensures
        spec_trim(ws1 + v + ws2) == spec_trim(v),
{
    assert(ws1 + v + ws2 =~= ws1 + (v + ws2));
    lemma_trim_start_after_space(ws1, v + ws2);
    lemma_trim_start_concat(v, ws2);
    if spec_trim_start(v).len() > 0 {
        lemma_trim_end_before_space(spec_trim_start(v), ws2);
    } else {
        lemma_trim_start_after_space(ws2, Seq::<char>::empty());
        assert(ws2 + Seq::<char>::empty() =~= ws2);
        assert(spec_trim_start(Seq::<char>::empty()) =~= Seq::<char>::empty());
        assert(spec_trim_start(v) =~= Seq::<char>::empty());
    }
}

/// Drops leading white space.
pub fn trim_start(text: &[char]) -> (result: Vec<char>)
    ensures
        result@ == spec_trim_start(text@),
{
    let mut i: usize = 0;
    assert(text@.skip(0) =~= text@);
    while i < text.len() && is_whitespace(text[i])
        invariant
            i <= text@.len(),
            spec_trim_start(text@) == spec_trim_start(text@.skip(i as int)),
        decreases text@.len() - i,
    {
        proof {
            assert(text@.skip(i as int).skip(1) =~= text@.skip(i + 1));
        }
        i = i + 1;
    }
    let result = chars_between(text, i, text.len());
    assert(result@ =~= text@.skip(i as int));
    result
}

/// Drops trailing white space.
pub fn trim_end(text: &[char]) -> (result: Vec<char>)
    ensures
        result@ == spec_trim_end(text@),
{
    let mut n: usize = text.len();
    assert(text@.take(n as int) =~= text@);
    while n > 0 && is_whitespace(text[n - 1])
        invariant
            n <= text@.len(),
            spec_trim_end(text@) == spec_trim_end(text@.take(n as int)),
        decreases n,
    {
        proof {
            assert(text@.take(n as int).drop_last() =~= text@.take(n - 1));
        }
        n = n - 1;
    }
    let result = chars_between(text, 0, n);
    assert(result@ =~= text@.take(n as int));
    result
}

/// Drops leading and trailing white space.
pub fn trim(text: &[char]) -> (result: Vec<char>)
    ensures
        result@ == spec_trim(text@),
{
    let front = trim_start(text);
    trim_end(front.as_slice())
}

/// Whether the text ends with `c`.
pub fn ends_with_char(text: &[char], c: char) -> (result: bool)
    ensures
        result == (text@.len() > 0 && text@.last() == c),
{
    text.len() > 0 && text[text.len() - 1] == c
}

/// The length of the UTF-8 encoding of `s`, as `str::len` reports it.
pub open spec fn byte_len(s: Seq<char>) -> usize {
    vstd::utf8::encode_utf8(s).len() as usize
}

/// The length of a text in bytes.
pub fn byte_len_of(s: &str) -> (result: usize)
    ensures
        result == byte_len(s@),
{
    s.len()
}

/// `pattern` occurs in `s` at `i`.
pub open spec fn occurs_at(s: Seq<char>, pattern: Seq<char>, i: int) -> bool {
    0 <= i && i + pattern.len() <= s.len() && s.subrange(i, i + pattern.len()) == pattern
}

/// `pattern` first occurs in `s` at `i`.
pub open spec fn first_occurs_at(s: Seq<char>, pattern: Seq<char>, i: int) -> bool {
    occurs_at(s, pattern, i) && forall|j: int| 0 <= j < i ==> !#[trigger] occurs_at(s, pattern, j)
}

/// Where `pattern` first occurs in `s`, as `str::find` reports it.
pub open spec fn spec_find(s: Seq<char>, pattern: Seq<char>) -> Option<int> {
    if exists|i: int| first_occurs_at(s, pattern, i) {
        Some(choose|i: int| first_occurs_at(s, pattern, i))
    } else {
        None
    }
}

/// `pattern` occurs somewhere in `s`.
pub open spec fn contains_seq(s: Seq<char>, pattern: Seq<char>) -> bool {
    exists|i: int| occurs_at(s, pattern, i)
}

proof fn lemma_first_occurrence(s: Seq<char>, pattern: Seq<char>, i: int)
    requires
        occurs_at(s, pattern, i),
    ensures
        exists|k: int| first_occurs_at(s, pattern, k),
    decreases i,
{
    if exists|j: int| 0 <= j < i && #[trigger] occurs_at(s, pattern, j) {
        let j = choose|j: int| 0 <= j < i && #[trigger] occurs_at(s, pattern, j);
        lemma_first_occurrence(s, pattern, j);
    } else {
        assert(first_occurs_at(s, pattern, i));
    }
}

/// `str::find` finds a pattern exactly when it occurs somewhere.
pub proof fn lemma_find_iff_contains(s: Seq<char>, pattern: Seq<char>)
    ensures
        spec_find(s, pattern) is Some <==> contains_seq(s, pattern),
{
    if contains_seq(s, pattern) {
        let i = choose|i: int| occurs_at(s, pattern, i);
        lemma_first_occurrence(s, pattern, i);
    }
    if spec_find(s, pattern) is Some {
        let i = choose|i: int| first_occurs_at(s, pattern, i);
        assert(occurs_at(s, pattern, i));
    }
}

/// Whether `pattern` occurs at `i`.
fn matches_at(text: &[char], pattern: &[char], i: usize) -> (result: bool)
    requires
        i <= text@.len(),
    ensures
        result == occurs_at(text@, pattern@, i as int),
{
    let n = text.len();
    if pattern.len() > n - i {
        return false;
    }
    let mut k: usize = 0;
    while k < pattern.len()
        invariant
            k <= pattern@.len(),
            n == text@.len(),
            i + pattern@.len() <= n,
            forall|j: int| 0 <= j < k ==> text@[i + j] == pattern@[j],
        decreases pattern@.len() - k,
    {
        if text[i + k] != pattern[k] {
            assert(text@.subrange(i as int, i + pattern@.len())[k as int] != pattern@[k as int]);
            return false;
        }
        k = k + 1;
    }
    assert(text@.subrange(i as int, i + pattern@.len()) =~= pattern@);
    true
}

/// Finds where `pattern` first occurs.
pub fn find_str(text: &[char], pattern: &str) -> (result: Option<usize>)
    ensures
        match result {
            Some(i) => spec_find(text@, pattern@) == Some(i as int),
            None => spec_find(text@, pattern@) is None,
        },
{
    let p = chars_of(pattern);
    let n = text.len();
    let mut i: usize = 0;
    loop
        invariant
            p@ == pattern@,
            n == text@.len(),
            i <= n,
            forall|j: int| 0 <= j < i ==> !#[trigger] occurs_at(text@, pattern@, j),
        decreases n - i,
    {
        if matches_at(text, p.as_slice(), i) {
            proof {
                assert(first_occurs_at(text@, pattern@, i as int));
                let w = choose|w: int| first_occurs_at(text@, pattern@, w);
                if w < i {
                    assert(!occurs_at(text@, pattern@, w));
                }
                if i < w {
                    assert(!occurs_at(text@, pattern@, i as int));
                }
            }
            return Some(i);
        }
        if i == n {
            proof {
                if exists|w: int| first_occurs_at(text@, pattern@, w) {
                    let w = choose|w: int| first_occurs_at(text@, pattern@, w);
                    if w < i {
                        assert(!occurs_at(text@, pattern@, w));
                    }
                }
            }
            return None;
        }
        i = i + 1;
    }
}

} // verus!
