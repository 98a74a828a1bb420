use vstd::prelude::*;

verus! {

/// `pat` occurs in `s` at position `i`.
pub open spec fn occurs_at(s: Seq<char>, pat: Seq<char>, i: int) -> bool {
    0 <= i && i + pat.len() <= s.len() && s.subrange(i, i + pat.len()) == pat
}

/// `pat` occurs somewhere in `s`.
pub open spec fn contains_text(s: Seq<char>, pat: Seq<char>) -> bool {
    exists|i: int| occurs_at(s, pat, i)
}

/// `s` begins with `prefix`.
pub open spec fn starts_with_text(s: Seq<char>, prefix: Seq<char>) -> bool {
    prefix.len() <= s.len() && s.take(prefix.len() as int) == prefix
}

/// Whether `pat` occurs in `s`.
pub fn contains(s: &str, pat: &str) -> (r: bool)
    ensures
        r == contains_text(s@, pat@),
{
    let n = s.unicode_len();
    let m = pat.unicode_len();
    if m > n {
        assert forall|i: int| !occurs_at(s@, pat@, i) by {}
        return false;
    }
    let last = n - m;
    let mut i: usize = 0;
    loop
        invariant
            m <= n,
            n == s@.len(),
            m == pat@.len(),
            last == n - m,
            i <= last,
            forall|k: int| 0 <= k < i ==> !occurs_at(s@, pat@, k),
        decreases last - i,
    {
        if occurs_here(s, pat, i, m) {
            return true;
        }
        if i == last {
            assert forall|k: int| !occurs_at(s@, pat@, k) by {
                if 0 <= k <= i {
                }
            }
            return false;
        }
        i = i + 1;
    }
}

fn occurs_here(s: &str, pat: &str, i: usize, m: usize) -> (r: bool)
    requires
        s@.len() <= usize::MAX,
        m == pat@.len(),
        i + m <= s@.len(),
    ensures
        r == occurs_at(s@, pat@, i as int),
{
    let mut j: usize = 0;
    while j < m
        invariant
            s@.len() <= usize::MAX,
            m == pat@.len(),
            i + m <= s@.len(),
            j <= m,
            forall|k: int| 0 <= k < j ==> s@[i + k] == pat@[k],
        decreases m - j,
    {
        if s.get_char(i + j) != pat.get_char(j) {
            assert(s@.subrange(i as int, i + m)[j as int] != pat@[j as int]);
            return false;
        }
        j = j + 1;
    }
    assert(s@.subrange(i as int, i + m) =~= pat@);
    true
}

/// Whether `s` begins with `prefix`.
pub fn starts_with(s: &str, prefix: &str) -> (r: bool)
    ensures
        r == starts_with_text(s@, prefix@),
{
    let n = s.unicode_len();
    let m = prefix.unicode_len();
    if m > n {
        return false;
    }
    let r = occurs_here(s, prefix, 0, m);
    assert(s@.subrange(0, m as int) == s@.take(m as int));
    r
}

/// Position of the first `d` in `s`, or `s.len()` when there is none.
pub open spec fn first_index(s: Seq<char>, d: char) -> nat
    decreases s.len(),
{
    if s.len() == 0 {
        0
    } else if s[0] == d {
        0
    } else {
        1 + first_index(s.skip(1), d)
    }
}

/// The pieces of `s` between occurrences of `d`, as `str::split` gives them.
pub open spec fn split_text(s: Seq<char>, d: char) -> Seq<Seq<char>>
    decreases s.len(),
{
    let k = first_index(s, d) as int;
    if k >= s.len() {
        seq![s]
    } else {
        seq![s.take(k)] + split_text(s.skip(k + 1), d)
    }
}

/// Where no `d` occurs before position `k` and `d` stands at `k`, `k` is the first index.
pub proof fn lemma_first_index_is(s: Seq<char>, d: char, k: int)
    requires
        0 <= k <= s.len(),
        forall|j: int| 0 <= j < k ==> s[j] != d,
        k < s.len() ==> s[k] == d,
    ensures
        first_index(s, d) == k,
    decreases s.len(),
{
    if s.len() > 0 && k > 0 {
        assert forall|j: int| 0 <= j < k - 1 implies s.skip(1)[j] != d by {
            assert(s.skip(1)[j] == s[j + 1]);
        }
        lemma_first_index_is(s.skip(1), d, k - 1);
    }
}

/// The pieces of `s` split at every `d`.
pub fn split_on(s: &str, d: char) -> (r: Vec<String>)
    ensures
        r@.map_values(|p: String| p@) == split_text(s@, d),
{
    let n = s.unicode_len();
    let mut pieces: Vec<String> = Vec::new();
    let mut start: usize = 0;
    let mut i: usize = 0;
    assert(s@.skip(0) =~= s@);
    assert(pieces@.map_values(|p: String| p@) =~= Seq::<Seq<char>>::empty());
    while i < n
        invariant
            n == s@.len(),
            start <= i <= n,
            forall|j: int| start <= j < i ==> s@[j] != d,
            pieces@.map_values(|p: String| p@) + split_text(s@.skip(start as int), d)
                == split_text(s@, d),
        decreases n - i,
    {
        if s.get_char(i) == d {
            let piece = String::from_str(s.substring_char(start, i));
            proof {
                let rest = s@.skip(start as int);
                assert forall|j: int| 0 <= j < i - start implies rest[j] != d by {
                    assert(rest[j] == s@[start + j]);
                }
                lemma_first_index_is(rest, d, i - start);
                assert(rest.take(i - start) =~= piece@);
                assert(rest.skip(i - start + 1) =~= s@.skip(i + 1));
                assert(split_text(rest, d) == seq![piece@] + split_text(s@.skip(i + 1), d));
                assert(pieces@.push(piece).map_values(|p: String| p@) =~= pieces@.map_values(
                    |p: String| p@,
                ).push(piece@));
                assert(pieces@.map_values(|p: String| p@).push(piece@) + split_text(
                    s@.skip(i + 1),
                    d,
                ) =~= pieces@.map_values(|p: String| p@) + (seq![piece@] + split_text(
                    s@.skip(i + 1),
                    d,
                )));
            }
            pieces.push(piece);
            start = i + 1;
        }
        i = i + 1;
    }
    let last = String::from_str(s.substring_char(start, n));
    proof {
        let rest = s@.skip(start as int);
        assert forall|j: int| 0 <= j < n - start implies rest[j] != d by {
            assert(rest[j] == s@[start + j]);
        }
        lemma_first_index_is(rest, d, n - start);
        assert(rest =~= last@);
        assert(pieces@.push(last).map_values(|p: String| p@) =~= pieces@.map_values(
            |p: String| p@,
        ) + split_text(rest, d));
    }
    pieces.push(last);
    pieces
}

/// Decimal digit character `c` stands for a value.
pub open spec fn is_digit(c: char) -> bool {
    '0' <= c <= '9'
}

/// Value of a digit character.
pub open spec fn digit_value(c: char) -> nat {
    (c as nat - '0' as nat) as nat
}

/// Value of a string of decimal digits, most significant first.
pub open spec fn digits_value(s: Seq<char>) -> nat
    decreases s.len(),
{
    if s.len() == 0 {
        0
    } else {
        digits_value(s.drop_last()) * 10 + digit_value(s.last())
    }
}

/// The digits of an unsigned number as `u32::from_str` reads them: an optional
/// leading `+`, then at least one decimal digit and nothing else.
pub open spec fn unsigned_digits(s: Seq<char>) -> Seq<char> {
    if s.len() > 0 && s[0] == '+' {
        s.skip(1)
    } else {
        s
    }
}

/// The number that `s` denotes as a `u32`, if it is one.
pub open spec fn u32_of_text(s: Seq<char>) -> Option<u32> {
    let body = unsigned_digits(s);
    if body.len() > 0 && (forall|i: int| 0 <= i < body.len() ==> is_digit(#[trigger] body[i]))
        && digits_value(body) <= u32::MAX {
        Some(digits_value(body) as u32)
    } else {
        None
    }
}

proof fn lemma_digits_value_grows(s: Seq<char>, i: int)
    requires
        0 <= i <= s.len(),
    ensures
        digits_value(s.take(i)) <= digits_value(s),
    decreases s.len() - i,
{
    if i < s.len() {
        lemma_digits_value_grows(s, i + 1);
        assert(s.take(i + 1).drop_last() =~= s.take(i));
    } else {
        assert(s.take(i) =~= s);
    }
}

/// Reads a `u32` written in decimal.
pub fn parse_u32(s: &str) -> (r: Option<u32>)
    ensures
        r == u32_of_text(s@),
{
    let n = s.unicode_len();
    let mut i: usize = 0;
    if n > 0 && s.get_char(0) == '+' {
        i = 1;
    }
    let start = i;
    let ghost body = unsigned_digits(s@);
    assert(body =~= s@.skip(start as int));
    if start == n {
        return None;
    }
    let mut acc: u64 = 0;
    while i < n
        invariant
            n == s@.len(),
            start <= i <= n,
            start < n,
            body == s@.skip(start as int),
            body == unsigned_digits(s@),
            acc <= u32::MAX,
            acc == digits_value(body.take(i - start)),
            forall|j: int| 0 <= j < i - start ==> is_digit(#[trigger] body[j]),
        decreases n - i,
    {
        let c = s.get_char(i);
        assert(c == body[i - start]);
        if c < '0' || c > '9' {
            assert(!is_digit(body[i - start]));
            assert(!(forall|j: int| 0 <= j < body.len() ==> is_digit(#[trigger] body[j])));
            return None;
        }
        let d = (c as u32 - '0' as u32) as u64;
        acc = acc * 10 + d;
        assert(body.take(i - start + 1).drop_last() =~= body.take(i - start));
        assert(acc == digits_value(body.take(i - start + 1)));
        i = i + 1;
        if acc > u32::MAX as u64 {
            proof {
                lemma_digits_value_grows(body, i - start);
            }
            assert(digits_value(body) > u32::MAX);
            return None;
        }
    }
    assert(body.take(i - start) =~= body);
    Some(acc as u32)
}

/// Decimal text of `n`, as `u64::to_string` writes it.
pub open spec fn decimal(n: nat) -> Seq<char>
    decreases n,
{
    if n < 10 {
        seq![digit_char(n)]
    } else {
        decimal(n / 10).push(digit_char(n % 10))
    }
}

/// Character of a digit value below ten.
pub open spec fn digit_char(d: nat) -> char {
    if d == 0 {
        '0'
    } else if d == 1 {
        '1'
    } else if d == 2 {
        '2'
    } else if d == 3 {
        '3'
    } else if d == 4 {
        '4'
    } else if d == 5 {
        '5'
    } else if d == 6 {
        '6'
    } else if d == 7 {
        '7'
    } else if d == 8 {
        '8'
    } else {
        '9'
    }
}

fn digit_text(d: u64) -> (r: &'static str)
    requires
        d < 10,
    ensures
        r@ == seq![digit_char(d as nat)],
{
    proof {
        reveal_strlit("0");
        reveal_strlit("1");
        reveal_strlit("2");
        reveal_strlit("3");
        reveal_strlit("4");
        reveal_strlit("5");
        reveal_strlit("6");
        reveal_strlit("7");
        reveal_strlit("8");
        reveal_strlit("9");
    }
    match d {
        0 => "0",
        1 => "1",
        2 => "2",
        3 => "3",
        4 => "4",
        5 => "5",
        6 => "6",
        7 => "7",
        8 => "8",
        _ => "9",
    }
}

/// Writes `n` in decimal.
pub fn decimal_text(n: u64) -> (r: String)
    ensures
        r@ == decimal(n as nat),
    decreases n,
{
    if n < 10 {
        String::from_str(digit_text(n))
    } else {
        let mut r = decimal_text(n / 10);
        r.append(digit_text(n % 10));
        r
    }
}

/// `d` does not occur in `s`.
pub open spec fn free_of(s: Seq<char>, d: char) -> bool {
    forall|i: int| 0 <= i < s.len() ==> s[i] != d
}

/// Text without the delimiter is a single piece.
pub proof fn lemma_split_single(s: Seq<char>, d: char)
    requires
        free_of(s, d),
    ensures
        split_text(s, d) == seq![s],
{
    lemma_first_index_is(s, d, s.len() as int);
}

/// A leading piece without the delimiter, then the delimiter, splits off as one piece.
pub proof fn lemma_split_first(p: Seq<char>, rest: Seq<char>, d: char)
    requires
        free_of(p, d),
    ensures
        split_text(p + seq![d] + rest, d) == seq![p] + split_text(rest, d),
{
    let s = p + seq![d] + rest;
    assert forall|j: int| 0 <= j < p.len() implies s[j] != d by {
        assert(s[j] == p[j]);
    }
    lemma_first_index_is(s, d, p.len() as int);
    assert(s.take(p.len() as int) =~= p);
    assert(s.skip(p.len() + 1 as int) =~= rest);
}

/// Decimal text consists of digits only, does not start with `+`, and has the
/// value it was written from.
pub proof fn lemma_decimal_digits(n: nat)
    ensures
        decimal(n).len() > 0,
        forall|i: int| 0 <= i < decimal(n).len() ==> is_digit(#[trigger] decimal(n)[i]),
        digits_value(decimal(n)) == n,
    decreases n,
{
    lemma_digit_char_value(n % 10);
    if n < 10 {
        assert(decimal(n).drop_last() =~= Seq::<char>::empty());
        assert(decimal(n).last() == digit_char(n));
        assert(digits_value(decimal(n)) == digits_value(Seq::<char>::empty()) * 10 + digit_value(
            digit_char(n),
        ));
    } else {
        lemma_decimal_digits(n / 10);
        let s = decimal(n);
        assert(s.drop_last() =~= decimal(n / 10));
        assert(s.last() == digit_char(n % 10));
        assert(digits_value(s) == (n / 10) * 10 + n % 10);
        assert((n / 10) * 10 + n % 10 == n);
        assert forall|i: int| 0 <= i < s.len() implies is_digit(#[trigger] s[i]) by {
            if i < s.len() - 1 {
                assert(s[i] == decimal(n / 10)[i]);
            }
        }
    }
}

proof fn lemma_digit_char_value(d: nat)
    requires
        d < 10,
    ensures
        is_digit(digit_char(d)),
        digit_value(digit_char(d)) == d,
{
}

/// Every `u32` written in decimal reads back as itself.
pub proof fn lemma_decimal_reads_back(n: u32)
    ensures
        u32_of_text(decimal(n as nat)) == Some(n),
        free_of(decimal(n as nat), ':'),
{
    lemma_decimal_digits(n as nat);
    let s = decimal(n as nat);
    assert(is_digit(s[0]));
    assert(unsigned_digits(s) == s);
    assert forall|i: int| 0 <= i < s.len() implies s[i] != ':' by {
        assert(is_digit(s[i]));
    }
}

/// Whitespace as `char::is_whitespace` defines it: the Unicode `White_Space` property.
pub open spec fn is_white(c: char) -> bool {
    ('\u{9}' <= c <= '\u{d}') || c == ' ' || c == '\u{85}' || c == '\u{a0}' || c == '\u{1680}'
        || ('\u{2000}' <= c <= '\u{200a}') || c == '\u{2028}' || c == '\u{2029}' || c
        == '\u{202f}' || c == '\u{205f}' || c == '\u{3000}'
}

/// Whether `c` is whitespace.
pub fn is_white_char(c: char) -> (r: bool)
    ensures
        r == is_white(c),
{
    ('\u{9}' <= c && c <= '\u{d}') || c == ' ' || c == '\u{85}' || c == '\u{a0}' || c
        == '\u{1680}' || ('\u{2000}' <= c && c <= '\u{200a}') || c == '\u{2028}' || c
        == '\u{2029}' || c == '\u{202f}' || c == '\u{205f}' || c == '\u{3000}'
}

/// `s` without its leading whitespace.
pub open spec fn trim_start_text(s: Seq<char>) -> Seq<char>
    decreases s.len(),
{
    if s.len() > 0 && is_white(s[0]) {
        trim_start_text(s.skip(1))
    } else {
        s
    }
}

/// `s` without its trailing whitespace.
pub open spec fn trim_end_text(s: Seq<char>) -> Seq<char>
    decreases s.len(),
{
    if s.len() > 0 && is_white(s.last()) {
        trim_end_text(s.drop_last())
    } else {
        s
    }
}

/// `s` without leading and trailing whitespace, as `str::trim` gives it.
pub open spec fn trim_text(s: Seq<char>) -> Seq<char> {
    trim_end_text(trim_start_text(s))
}

/// `s` without leading and trailing whitespace.
pub fn trim(s: &str) -> (r: &str)
    ensures
        r@ == trim_text(s@),
{
    let n = s.unicode_len();
    let mut lo: usize = 0;
    assert(s@.skip(0) =~= s@);
    while lo < n && is_white_char(s.get_char(lo))
        invariant
            n == s@.len(),
            lo <= n,
            trim_start_text(s@.skip(lo as int)) == trim_start_text(s@),
        decreases n - lo,
    {
        assert(s@.skip(lo as int).skip(1) =~= s@.skip(lo + 1));
        lo = lo + 1;
    }
    let ghost rest = s@.skip(lo as int);
    assert(trim_start_text(rest) == rest);
    let mut hi: usize = n;
    assert(s@.subrange(lo as int, n as int) =~= rest);
    while hi > lo && is_white_char(s.get_char(hi - 1))
        invariant
            n == s@.len(),
            lo <= hi <= n,
            rest == s@.skip(lo as int),
            trim_end_text(s@.subrange(lo as int, hi as int)) == trim_end_text(rest),
        decreases hi - lo,
    {
        assert(s@.subrange(lo as int, hi as int).drop_last() =~= s@.subrange(
            lo as int,
            hi - 1,
        ));
        hi = hi - 1;
    }
    let r = s.substring_char(lo, hi);
    assert(trim_end_text(r@) == r@);
    r
}

/// Position of the first whitespace character of `s`, or its length when there is none.
pub open spec fn first_white(s: Seq<char>) -> nat
    decreases s.len(),
{
    if s.len() == 0 || is_white(s[0]) {
        0
    } else {
        1 + first_white(s.skip(1))
    }
}

/// The first whitespace-separated word of `s`, which has no leading whitespace.
pub fn first_word(s: &str) -> (r: &str)
    ensures
        r@ == s@.take(first_white(s@) as int),
{
    let n = s.unicode_len();
    let mut i: usize = 0;
    assert(s@.skip(0) =~= s@);
    while i < n && !is_white_char(s.get_char(i))
        invariant
            n == s@.len(),
            i <= n,
            first_white(s@) == i + first_white(s@.skip(i as int)),
        decreases n - i,
    {
        assert(s@.skip(i as int).skip(1) =~= s@.skip(i + 1));
        i = i + 1;
    }
    assert(first_white(s@.skip(i as int)) == 0);
    let r = s.substring_char(0, i);
    assert(r@ =~= s@.take(i as int));
    r
}

/// Whether `a` and `b` are the same text.
pub fn same_text(a: &str, b: &str) -> (r: bool)
    ensures
        r == (a@ == b@),
{
    let n = a.unicode_len();
    let m = b.unicode_len();
    if n != m {
        return false;
    }
    let r = occurs_here(a, b, 0, m);
    assert(a@.subrange(0, m as int) =~= a@);
    r
}

} // verus!
