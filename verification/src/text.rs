//! Reading and writing text: trimming, numbers, searching and joining.

use vstd::prelude::*;
use vstd::string::*;

verus! {

/// `String::push` puts one character at the end.
pub assume_specification[ String::push ](s: &mut String, c: char)
    ensures
        final(s)@ == old(s)@.push(c),
;

/// What `str::to_lowercase` makes of a text: the Unicode lower-case mapping,
/// one character to one or more.
pub uninterp spec fn lowercase(s: Seq<char>) -> Seq<char>;

/// `str::to_lowercase`: the result depends on the text alone and is called
/// `lowercase` of it.
#[verifier::external_body]
pub(crate) fn to_lower(s: &str) -> (r: String)
    ensures
        r@ == lowercase(s@),
{
    s.to_lowercase()
}

/// What the debug form of a text is: the text in double quotes, with the
/// characters that need it escaped.
pub uninterp spec fn quoted(s: Seq<char>) -> Seq<char>;

/// The debug form of a `str`, as `format!("{:?}", s)` writes it: it depends
/// on the text alone and is called `quoted` of it.
#[verifier::external_body]
pub(crate) fn quote(s: &str) -> (r: String)
    ensures
        r@ == quoted(s@),
{
    format!("{:?}", s)
}

/// White space, as Unicode has it.
pub open spec fn is_space(c: char) -> bool {
    let v = c as u32;
    ||| 9 <= v <= 13
    ||| v == 0x20
    ||| v == 0x85
    ||| v == 0xA0
    ||| v == 0x1680
    ||| 0x2000 <= v <= 0x200A
    ||| v == 0x2028
    ||| v == 0x2029
    ||| v == 0x202F
    ||| v == 0x205F
    ||| v == 0x3000
}

pub fn space(c: char) -> (r: bool)
    ensures
        r == is_space(c),
{
    let v: u32 = c as u32;
    (9 <= v && v <= 13) || v == 0x20 || v == 0x85 || v == 0xA0 || v == 0x1680 || (0x2000 <= v && v
        <= 0x200A) || v == 0x2028 || v == 0x2029 || v == 0x202F || v == 0x205F || v == 0x3000
}

/// The text without the white space it starts with.
pub open spec fn trim_front(s: Seq<char>) -> Seq<char>
    decreases s.len(),
{
    if s.len() > 0 && is_space(s[0]) {
        trim_front(s.subrange(1, s.len() as int))
    } else {
        s
    }
}

/// The text without the white space it ends with.
pub open spec fn trim_back(s: Seq<char>) -> Seq<char>
    decreases s.len(),
{
    if s.len() > 0 && is_space(s[s.len() - 1]) {
        trim_back(s.subrange(0, s.len() - 1))
    } else {
        s
    }
}

/// The text without white space at either end.
pub open spec fn trimmed(s: Seq<char>) -> Seq<char> {
    trim_back(trim_front(s))
}

proof fn trim_front_from(s: Seq<char>, from: int)
    requires
        0 <= from <= s.len(),
        forall|i: int| 0 <= i < from ==> is_space(#[trigger] s[i]),
        from == s.len() || !is_space(s[from]),
    ensures
        trim_front(s) == s.subrange(from, s.len() as int),
    decreases s.len(),
{
    if from == 0 {
        assert(s.subrange(0, s.len() as int) =~= s);
    } else {
        let t = s.subrange(1, s.len() as int);
        assert forall|i: int| 0 <= i < from - 1 implies is_space(#[trigger] t[i]) by {
            assert(t[i] == s[i + 1]);
        }
        trim_front_from(t, from - 1);
        assert(t.subrange(from - 1, t.len() as int) =~= s.subrange(from, s.len() as int));
    }
}

proof fn trim_back_to(s: Seq<char>, to: int)
    requires
        0 <= to <= s.len(),
        forall|i: int| to <= i < s.len() ==> is_space(#[trigger] s[i]),
        to == 0 || !is_space(s[to - 1]),
    ensures
        trim_back(s) == s.subrange(0, to),
    decreases s.len(),
{
    if to == s.len() {
        assert(s.subrange(0, s.len() as int) =~= s);
    } else {
        let t = s.subrange(0, s.len() - 1);
        assert forall|i: int| to <= i < t.len() implies is_space(#[trigger] t[i]) by {
            assert(t[i] == s[i]);
        }
        trim_back_to(t, to);
        assert(t.subrange(0, to) =~= s.subrange(0, to));
    }
}

/// The text without white space at either end.
pub fn trim<'a>(s: &'a str) -> (r: &'a str)
    ensures
        r@ == trimmed(s@),
{
    let n: usize = s.unicode_len();
    let mut from: usize = 0;
    while from < n && space(s.get_char(from))
        invariant
            n == s@.len(),
            from <= n,
            forall|i: int| 0 <= i < from ==> is_space(#[trigger] s@[i]),
        ensures
            from <= n,
            forall|i: int| 0 <= i < from ==> is_space(#[trigger] s@[i]),
            from == n || !is_space(s@[from as int]),
        decreases n - from,
    {
        from = from + 1;
    }
    let mut to: usize = n;
    while to > from && space(s.get_char(to - 1))
        invariant
            n == s@.len(),
            from <= to <= n,
            forall|i: int| to <= i < n ==> is_space(#[trigger] s@[i]),
        ensures
            from <= to <= n,
            forall|i: int| to <= i < n ==> is_space(#[trigger] s@[i]),
            to == from || !is_space(s@[to - 1]),
        decreases to,
    {
        to = to - 1;
    }
    proof {
        trim_front_from(s@, from as int);
        let f = s@.subrange(from as int, n as int);
        assert forall|i: int| to - from <= i < f.len() implies is_space(#[trigger] f[i]) by {
            assert(f[i] == s@[from + i]);
        }
        trim_back_to(f, to - from);
        assert(f.subrange(0, to - from) =~= s@.subrange(from as int, to as int));
    }
    s.substring_char(from, to)
}

/// Whether two texts are the same.
pub fn same(a: &str, b: &str) -> (r: bool)
    ensures
        r == (a@ == b@),
{
    let n: usize = a.unicode_len();
    if n != b.unicode_len() {
        return false;
    }
    let mut i: usize = 0;
    while i < n
        invariant
            n == a@.len(),
            n == b@.len(),
            i <= n,
            forall|j: int| 0 <= j < i ==> a@[j] == #[trigger] b@[j],
        decreases n - i,
    {
        if a.get_char(i) != b.get_char(i) {
            return false;
        }
        i = i + 1;
    }
    assert(a@ =~= b@);
    true
}

/// Whether `p` is what `s` starts with.
pub open spec fn starts(s: Seq<char>, p: Seq<char>) -> bool {
    p.len() <= s.len() && s.subrange(0, p.len() as int) == p
}

/// Whether `p` stands in `s` at `at`.
pub open spec fn stands_at(s: Seq<char>, p: Seq<char>, at: int) -> bool {
    0 <= at && at + p.len() <= s.len() && s.subrange(at, at + p.len()) == p
}

/// Whether `p` stands anywhere in `s`.
pub open spec fn holds(s: Seq<char>, p: Seq<char>) -> bool {
    exists|at: int| stands_at(s, p, at)
}

fn stands(s: &str, p: &str, at: usize) -> (r: bool)
    requires
        at + p@.len() <= s@.len(),
    ensures
        r == stands_at(s@, p@, at as int),
{
    let n: usize = p.unicode_len();
    let m: usize = s.unicode_len();
    let mut i: usize = 0;
    while i < n
        invariant
            n == p@.len(),
            m == s@.len(),
            at + n <= m,
            i <= n,
            forall|j: int| 0 <= j < i ==> s@[at + j] == #[trigger] p@[j],
        decreases n - i,
    {
        if s.get_char(at + i) != p.get_char(i) {
            assert(s@.subrange(at as int, at + p@.len())[i as int] != p@[i as int]);
            return false;
        }
        i = i + 1;
    }
    assert(s@.subrange(at as int, at + p@.len()) =~= p@);
    true
}

/// Whether `p` stands anywhere in `s`.
pub fn contains(s: &str, p: &str) -> (r: bool)
    ensures
        r == holds(s@, p@),
{
    let n: usize = s.unicode_len();
    let m: usize = p.unicode_len();
    let mut at: usize = 0;
    while m <= n && at <= n - m
        invariant
            n == s@.len(),
            m == p@.len(),
            m <= n ==> at <= n - m + 1,
            forall|j: int| 0 <= j < at ==> !#[trigger] stands_at(s@, p@, j),
        decreases n + 1 - at,
    {
        if stands(s, p, at) {
            return true;
        }
        if at == n - m {
            assert forall|j: int| !#[trigger] stands_at(s@, p@, j) by {}
            return false;
        }
        at = at + 1;
    }
    false
}

/// Whether `p` is what `s` starts with.
pub fn starts_with(s: &str, p: &str) -> (r: bool)
    ensures
        r == starts(s@, p@),
{
    let n: usize = s.unicode_len();
    let m: usize = p.unicode_len();
    m <= n && stands(s, p, 0)
}

/// The place of the first `c`, if there is one.
pub open spec fn first_of(s: Seq<char>, c: char) -> Option<nat>
    decreases s.len(),
{
    if s.len() == 0 {
        None
    } else if s[0] == c {
        Some(0)
    } else {
        match first_of(s.subrange(1, s.len() as int), c) {
            Some(i) => Some(i + 1),
            None => None,
        }
    }
}

/// The place of the last `c`, if there is one.
pub open spec fn last_of(s: Seq<char>, c: char) -> Option<nat>
    decreases s.len(),
{
    if s.len() == 0 {
        None
    } else if s[s.len() - 1] == c {
        Some((s.len() - 1) as nat)
    } else {
        last_of(s.subrange(0, s.len() - 1), c)
    }
}

proof fn first_of_at(s: Seq<char>, c: char, i: int)
    requires
        0 <= i <= s.len(),
        forall|j: int| 0 <= j < i ==> #[trigger] s[j] != c,
        i == s.len() || s[i] == c,
    ensures
        first_of(s, c) == (if i == s.len() {
            None::<nat>
        } else {
            Some(i as nat)
        }),
    decreases s.len(),
{
    if i > 0 {
        let t = s.subrange(1, s.len() as int);
        assert forall|j: int| 0 <= j < i - 1 implies #[trigger] t[j] != c by {
            assert(t[j] == s[j + 1]);
        }
        first_of_at(t, c, i - 1);
    }
}

proof fn last_of_at(s: Seq<char>, c: char, i: int)
    requires
        0 <= i <= s.len(),
        forall|j: int| i <= j < s.len() ==> #[trigger] s[j] != c,
        i == 0 || s[i - 1] == c,
    ensures
        last_of(s, c) == (if i == 0 {
            None::<nat>
        } else {
            Some((i - 1) as nat)
        }),
    decreases s.len(),
{
    if i < s.len() {
        let t = s.subrange(0, s.len() - 1);
        assert forall|j: int| i <= j < t.len() implies #[trigger] t[j] != c by {
            assert(t[j] == s[j]);
        }
        last_of_at(t, c, i);
    }
}

/// A place that `first_of` gives is in the text.
pub proof fn first_of_inside(s: Seq<char>, c: char)
    ensures
        first_of(s, c) matches Some(i) ==> i < s.len() && s[i as int] == c,
    decreases s.len(),
{
    if s.len() > 0 && s[0] != c {
        first_of_inside(s.subrange(1, s.len() as int), c);
    }
}

/// A place that `last_of` gives is in the text.
pub proof fn last_of_inside(s: Seq<char>, c: char)
    ensures
        last_of(s, c) matches Some(i) ==> i < s.len() && s[i as int] == c,
    decreases s.len(),
{
    if s.len() > 0 && s[s.len() - 1] != c {
        last_of_inside(s.subrange(0, s.len() - 1), c);
    }
}

/// The place of the first `c`, if there is one.
pub fn find(s: &str, c: char) -> (r: Option<usize>)
    ensures
        r is Some <==> first_of(s@, c) is Some,
        r matches Some(i) ==> first_of(s@, c) == Some(i as nat) && i < s@.len() && s@[i as int]
            == c,
{
    let n: usize = s.unicode_len();
    let mut i: usize = 0;
    while i < n
        invariant
            n == s@.len(),
            i <= n,
            forall|j: int| 0 <= j < i ==> #[trigger] s@[j] != c,
        decreases n - i,
    {
        if s.get_char(i) == c {
            proof {
                first_of_at(s@, c, i as int);
            }
            return Some(i);
        }
        i = i + 1;
    }
    proof {
        first_of_at(s@, c, n as int);
    }
    None
}

/// The place of the last `c`, if there is one.
pub fn rfind(s: &str, c: char) -> (r: Option<usize>)
    ensures
        r is Some <==> last_of(s@, c) is Some,
        r matches Some(i) ==> last_of(s@, c) == Some(i as nat) && i < s@.len() && s@[i as int]
            == c,
{
    let n: usize = s.unicode_len();
    let mut i: usize = n;
    while i > 0
        invariant
            n == s@.len(),
            i <= n,
            forall|j: int| i <= j < n ==> #[trigger] s@[j] != c,
        decreases i,
    {
        if s.get_char(i - 1) == c {
            proof {
                last_of_at(s@, c, i as int);
            }
            return Some(i - 1);
        }
        i = i - 1;
    }
    proof {
        last_of_at(s@, c, 0);
    }
    None
}

/// What follows the first `n` characters.
pub fn skip<'a>(s: &'a str, n: usize) -> (r: &'a str)
    requires
        n <= s@.len(),
    ensures
        r@ == s@.subrange(n as int, s@.len() as int),
{
    let m: usize = s.unicode_len();
    s.substring_char(n, m)
}

/// A text cut at the first `c`: what is before it, and what is after it
/// where there is one.
pub open spec fn cut(s: Seq<char>, c: char) -> (Seq<char>, Option<Seq<char>>) {
    match first_of(s, c) {
        Some(i) => (
            s.subrange(0, i as int),
            Some(s.subrange(i as int + 1, s.len() as int)),
        ),
        None => (s, None),
    }
}

pub fn cut_at<'a>(s: &'a str, c: char) -> (r: (&'a str, Option<&'a str>))
    ensures
        r.0@ == cut(s@, c).0,
        r.1 is Some <==> cut(s@, c).1 is Some,
        r.1 matches Some(t) ==> cut(s@, c).1 == Some(t@),
{
    let n: usize = s.unicode_len();
    match find(s, c) {
        Some(i) => (s.substring_char(0, i), Some(s.substring_char(i + 1, n))),
        None => (s, None),
    }
}

/// A decimal digit.
pub open spec fn is_digit(c: char) -> bool {
    '0' <= c && c <= '9'
}

pub fn digit(c: char) -> (r: bool)
    ensures
        r == is_digit(c),
{
    '0' <= c && c <= '9'
}

/// Nothing but decimal digits, and at least one.
pub open spec fn all_digits(s: Seq<char>) -> bool {
    s.len() > 0 && forall|i: int| 0 <= i < s.len() ==> is_digit(#[trigger] s[i])
}

/// The number that decimal digits spell.
pub open spec fn digits_value(s: Seq<char>) -> nat
    decreases s.len(),
{
    if s.len() == 0 {
        0
    } else {
        digits_value(s.subrange(0, s.len() - 1)) * 10 + ((s[s.len() - 1] as int - '0' as int)
            as nat)
    }
}

/// The whole number a text is, with a sign or without: `None` where it is
/// not one. A minus counts only where `signed` allows it.
pub open spec fn whole(s: Seq<char>, signed: bool) -> Option<int> {
    let sign = s.len() > 0 && (s[0] == '+' || (signed && s[0] == '-'));
    let d = if sign {
        s.subrange(1, s.len() as int)
    } else {
        s
    };
    if !all_digits(d) {
        None
    } else if sign && s[0] == '-' {
        Some(-(digits_value(d) as int))
    } else {
        Some(digits_value(d) as int)
    }
}

/// The unsigned number a text is, where it fits a `usize`.
pub open spec fn number(s: Seq<char>) -> Option<usize> {
    match whole(s, false) {
        Some(v) => if v <= usize::MAX {
            Some(v as usize)
        } else {
            None
        },
        None => None,
    }
}

/// The signed number a text is, where it fits an `i64`.
pub open spec fn integer(s: Seq<char>) -> Option<i64> {
    match whole(s, true) {
        Some(v) => if i64::MIN <= v <= i64::MAX {
            Some(v as i64)
        } else {
            None
        },
        None => None,
    }
}

proof fn digits_value_grows(s: Seq<char>, n: int)
    requires
        all_digits(s),
        0 <= n <= s.len(),
    ensures
        digits_value(s.subrange(0, n)) <= digits_value(s),
    decreases s.len(),
{
    if n < s.len() {
        let t = s.subrange(0, s.len() - 1);
        if t.len() > 0 {
            assert forall|i: int| 0 <= i < t.len() implies is_digit(#[trigger] t[i]) by {
                assert(t[i] == s[i]);
            }
            digits_value_grows(t, n);
            assert(t.subrange(0, n) =~= s.subrange(0, n));
        } else {
            assert(s.subrange(0, n) =~= Seq::<char>::empty());
        }
    } else {
        assert(s.subrange(0, n) =~= s);
    }
}

/// The digits from `from` on as a number, where they are digits and the
/// number is at most `limit`.
fn digits_from(s: &str, from: usize, limit: u64) -> (r: Option<u64>)
    requires
        from <= s@.len(),
    ensures
        ({
            let d = s@.subrange(from as int, s@.len() as int);
            r == (if all_digits(d) && digits_value(d) <= limit {
                Some(digits_value(d) as u64)
            } else {
                None
            })
        }),
{
    let n: usize = s.unicode_len();
    let ghost d = s@.subrange(from as int, n as int);
    if from == n {
        return None;
    }
    let mut i: usize = from;
    let mut v: u64 = 0;
    while i < n
        invariant
            n == s@.len(),
            from <= i <= n,
            d == s@.subrange(from as int, n as int),
            forall|j: int| 0 <= j < i - from ==> is_digit(#[trigger] d[j]),
            v == digits_value(d.subrange(0, i - from)),
            v <= limit,
        decreases n - i,
    {
        let c = s.get_char(i);
        assert(d[i - from] == c);
        if !digit(c) {
            return None;
        }
        let w: u64 = c as u64 - '0' as u64;
        assert(d.subrange(0, i + 1 - from).subrange(0, i - from) =~= d.subrange(0, i - from));
        assert(digits_value(d.subrange(0, i + 1 - from)) == v * 10 + w);
        if w > limit || v > limit / 10 || v * 10 > limit - w {
            proof {
                if all_digits(d) {
                    digits_value_grows(d, i + 1 - from);
                }
            }
            return None;
        }
        v = v * 10 + w;
        i = i + 1;
    }
    assert(d.subrange(0, n - from) =~= d);
    Some(v)
}

/// The unsigned number a text is, where it fits a `usize`.
pub fn parse_usize(s: &str) -> (r: Option<usize>)
    ensures
        r == number(s@),
{
    let n: usize = s.unicode_len();
    let from: usize = if n > 0 && s.get_char(0) == '+' {
        1
    } else {
        0
    };
    assert(s@.subrange(0, n as int) =~= s@);
    match digits_from(s, from, usize::MAX as u64) {
        Some(v) => Some(v as usize),
        None => None,
    }
}

/// The signed number a text is, where it fits an `i64`.
pub fn parse_i64(s: &str) -> (r: Option<i64>)
    ensures
        r == integer(s@),
{
    let n: usize = s.unicode_len();
    assert(s@.subrange(0, n as int) =~= s@);
    if n > 0 && s.get_char(0) == '-' {
        match digits_from(s, 1, 0x8000_0000_0000_0000) {
            Some(v) => if v == 0x8000_0000_0000_0000 {
                Some(i64::MIN)
            } else {
                Some(-(v as i64))
            },
            None => None,
        }
    } else {
        let from: usize = if n > 0 && s.get_char(0) == '+' {
            1
        } else {
            0
        };
        match digits_from(s, from, i64::MAX as u64) {
            Some(v) => Some(v as i64),
            None => None,
        }
    }
}

/// How a number is written in decimal.
pub open spec fn decimal(n: nat) -> Seq<char>
    decreases n,
{
    if n < 10 {
        seq![('0' as u32 + n) as char]
    } else {
        decimal(n / 10).push(('0' as u32 + n % 10) as char)
    }
}

/// How a signed number is written in decimal.
pub open spec fn signed_decimal(n: int) -> Seq<char> {
    if n < 0 {
        seq!['-'] + decimal((-n) as nat)
    } else {
        decimal(n as nat)
    }
}

/// Writes a number in decimal at the end of `out`.
pub fn push_number(out: &mut String, n: usize)
    ensures
        final(out)@ == old(out)@ + decimal(n as nat),
    decreases n,
{
    if n >= 10 {
        push_number(out, n / 10);
    }
    let d: u8 = (n % 10) as u8;
    let c: char = (48u8 + d) as char;
    out.push(c);
    assert(out@ =~= old(out)@ + decimal(n as nat));
}

/// Writes a wide number in decimal at the end of `out`.
pub fn push_wide(out: &mut String, n: u64)
    ensures
        final(out)@ == old(out)@ + decimal(n as nat),
    decreases n,
{
    if n >= 10 {
        push_wide(out, n / 10);
    }
    let d: u8 = (n % 10) as u8;
    let c: char = (48u8 + d) as char;
    out.push(c);
    assert(out@ =~= old(out)@ + decimal(n as nat));
}

/// Writes a very wide number in decimal at the end of `out`.
pub fn push_big(out: &mut String, n: u128)
    ensures
        final(out)@ == old(out)@ + decimal(n as nat),
    decreases n,
{
    if n >= 10 {
        push_big(out, n / 10);
    }
    let d: u8 = (n % 10) as u8;
    let c: char = (48u8 + d) as char;
    out.push(c);
    assert(out@ =~= old(out)@ + decimal(n as nat));
}

/// Writes a signed number in decimal at the end of `out`.
pub fn push_signed(out: &mut String, n: i64)
    ensures
        final(out)@ == old(out)@ + signed_decimal(n as int),
{
    if n >= 0 {
        push_wide(out, n as u64);
        return;
    }
    out.push('-');
    if n == i64::MIN {
        push_wide(out, 0x8000_0000_0000_0000);
    } else {
        push_wide(out, (-n) as u64);
    }
    assert(out@ =~= old(out)@ + signed_decimal(n as int));
}

/// How a switch is written.
pub open spec fn truth(on: bool) -> Seq<char> {
    if on {
        "true"@
    } else {
        "false"@
    }
}

/// Writes a switch at the end of `out`.
pub fn push_truth(out: &mut String, on: bool)
    ensures
        final(out)@ == old(out)@ + truth(on),
{
    if on {
        out.append("true");
    } else {
        out.append("false");
    }
}

/// A number in decimal.
pub fn number_text(n: usize) -> (r: String)
    ensures
        r@ == decimal(n as nat),
{
    let mut out = String::new();
    push_number(&mut out, n);
    assert(Seq::<char>::empty() + decimal(n as nat) =~= decimal(n as nat));
    out
}

/// The texts one after another with `sep` between them.
pub open spec fn joined(parts: Seq<Seq<char>>, sep: Seq<char>) -> Seq<char>
    decreases parts.len(),
{
    if parts.len() == 0 {
        Seq::empty()
    } else if parts.len() == 1 {
        parts[0]
    } else {
        joined(parts.subrange(0, parts.len() - 1), sep) + sep + parts[parts.len() - 1]
    }
}

/// The views of texts.
pub open spec fn views(parts: Seq<String>) -> Seq<Seq<char>> {
    parts.map_values(|s: String| s@)
}

/// The texts one after another with `sep` between them.
pub fn join(parts: &Vec<String>, sep: &str) -> (r: String)
    ensures
        r@ == joined(views(parts@), sep@),
{
    let mut out = String::new();
    let mut i: usize = 0;
    while i < parts.len()
        invariant
            i <= parts@.len(),
            out@ == joined(views(parts@).subrange(0, i as int), sep@),
        decreases parts@.len() - i,
    {
        let ghost before = out@;
        let ghost next = views(parts@).subrange(0, i + 1);
        if i > 0 {
            out.append(sep);
        }
        out.append(parts[i].as_str());
        proof {
            assert(next.subrange(0, i as int) =~= views(parts@).subrange(0, i as int));
            assert(next[i as int] == parts@[i as int]@);
            if i == 0 {
                assert(before + next[0] =~= next[0]);
            }
        }
        i = i + 1;
    }
    assert(views(parts@).subrange(0, parts@.len() as int) =~= views(parts@));
    out
}

proof fn a_decimal_is_its_number(n: nat)
    ensures
        all_digits(decimal(n)),
        digits_value(decimal(n)) == n,
    decreases n,
{
    let s = decimal(n);
    if n < 10 {
        let c = ('0' as u32 + n) as char;
        assert(s =~= seq![c]);
        assert(s.subrange(0, 0).len() == 0);
        assert(digits_value(s.subrange(0, s.len() - 1)) == 0);
        assert(c as int - '0' as int == n);
    } else {
        a_decimal_is_its_number(n / 10);
        let c = ('0' as u32 + n % 10) as char;
        assert(c as int - '0' as int == n % 10);
        assert(s.subrange(0, s.len() - 1) =~= decimal(n / 10));
        assert forall|i: int| 0 <= i < s.len() implies is_digit(#[trigger] s[i]) by {
            if i < s.len() - 1 {
                assert(s[i] == decimal(n / 10)[i]);
            }
        }
    }
}

/// What is written as a number reads back as that number, whatever it is.
pub proof fn a_number_reads_back(n: usize)
    ensures
        number(decimal(n as nat)) == Some(n),
{
    a_decimal_is_its_number(n as nat);
    let s = decimal(n as nat);
    assert(is_digit(s[0]));
}

/// What is written with its sign reads back with it.
pub proof fn a_signed_number_reads_back(n: i64)
    ensures
        integer(signed_decimal(n as int)) == Some(n),
{
    let m: nat = if n < 0 {
        (-n) as nat
    } else {
        n as nat
    };
    a_decimal_is_its_number(m);
    let s = signed_decimal(n as int);
    let d = decimal(m);
    if n < 0 {
        assert(s.subrange(1, s.len() as int) =~= d);
        assert(s[0] == '-');
    } else {
        assert(is_digit(s[0]));
    }
}

/// What is trimmed neither begins nor ends with white space, and what has none
/// at its ends is left as it is.
pub proof fn what_is_trimmed_has_no_space_at_its_ends(s: Seq<char>)
    ensures
        trimmed(s).len() > 0 ==> !is_space(trimmed(s)[0]) && !is_space(
            trimmed(s)[trimmed(s).len() - 1],
        ),
        s.len() > 0 && !is_space(s[0]) && !is_space(s[s.len() - 1]) ==> trimmed(s) == s,
{
    front_is_bare(s);
    back_is_bare(trim_front(s));
}

proof fn front_is_bare(s: Seq<char>)
    ensures
        trim_front(s).len() > 0 ==> !is_space(trim_front(s)[0]),
    decreases s.len(),
{
    if s.len() > 0 && is_space(s[0]) {
        front_is_bare(s.subrange(1, s.len() as int));
    }
}

proof fn back_is_bare(s: Seq<char>)
    ensures
        trim_back(s).len() > 0 ==> !is_space(trim_back(s)[trim_back(s).len() - 1]) && s.len() > 0
            && trim_back(s)[0] == s[0],
    decreases s.len(),
{
    if s.len() > 0 && is_space(s[s.len() - 1]) {
        let t = s.subrange(0, s.len() - 1);
        back_is_bare(t);
    }
}

} // verus!
