//! Text primitives over `&str` and `String`, specified on sequences of characters.

use vstd::prelude::*;

verus! {

/// `String::push` appends one character to the end of the string.
pub assume_specification[ String::push ](s: &mut String, c: char)
    ensures
        final(s)@ == old(s)@.push(c),
;

/// The predicate "is the character `c`".
pub open spec fn is_char(c: char) -> spec_fn(char) -> bool {
    |x: char| x == c
}

/// The predicate "is not the character `c`".
pub open spec fn is_other_than(c: char) -> spec_fn(char) -> bool {
    |x: char| x != c
}

/// The Unicode `White_Space` characters.
pub open spec fn is_space(c: char) -> bool {
    let n = c as int;
    ||| 9 <= n <= 13
    ||| n == 0x20
    ||| n == 0x85
    ||| n == 0xA0
    ||| n == 0x1680
    ||| 0x2000 <= n <= 0x200A
    ||| n == 0x2028
    ||| n == 0x2029
    ||| n == 0x202F
    ||| n == 0x205F
    ||| n == 0x3000
}

/// The predicate "is white space".
pub open spec fn any_space() -> spec_fn(char) -> bool {
    |x: char| is_space(x)
}

/// How many characters at the front of `s` satisfy `p` without a gap.
pub open spec fn lead(s: Seq<char>, p: spec_fn(char) -> bool) -> nat
    decreases s.len(),
{
    if s.len() > 0 && p(s[0]) {
        1 + lead(s.drop_first(), p)
    } else {
        0
    }
}

/// How many characters at the back of `s` satisfy `p` without a gap.
pub open spec fn trail(s: Seq<char>, p: spec_fn(char) -> bool) -> nat
    decreases s.len(),
{
    if s.len() > 0 && p(s.last()) {
        1 + trail(s.drop_last(), p)
    } else {
        0
    }
}

/// `s` without the leading characters that satisfy `p`.
pub open spec fn drop_lead(s: Seq<char>, p: spec_fn(char) -> bool) -> Seq<char> {
    s.skip(lead(s, p) as int)
}

/// `s` without the trailing characters that satisfy `p`.
pub open spec fn drop_trail(s: Seq<char>, p: spec_fn(char) -> bool) -> Seq<char> {
    s.take(s.len() - trail(s, p))
}

/// `s` without the leading and trailing characters that satisfy `p`.
pub open spec fn drop_both(s: Seq<char>, p: spec_fn(char) -> bool) -> Seq<char> {
    drop_trail(drop_lead(s, p), p)
}

/// The pieces of `s` between the occurrences of `c`; there is always at least one.
pub open spec fn pieces(s: Seq<char>, c: char) -> Seq<Seq<char>>
    decreases s.len(),
{
    let at = lead(s, is_other_than(c)) as int;
    if at < s.len() {
        seq![s.take(at)] + pieces(s.skip(at + 1), c)
    } else {
        seq![s]
    }
}

/// What stands behind the last `/` of `s`, or all of `s` where it has none.
pub open spec fn last_segment(s: Seq<char>) -> Seq<char> {
    s.skip(s.len() - trail(s, is_other_than('/')))
}

/// Whether `needle` stands in `s` at position `at`.
pub open spec fn occurs_at(s: Seq<char>, needle: Seq<char>, at: int) -> bool {
    0 <= at && at + needle.len() <= s.len() && s.subrange(at, at + needle.len()) == needle
}

/// Whether `needle` stands somewhere in `s`.
pub open spec fn has_text(s: Seq<char>, needle: Seq<char>) -> bool {
    exists|at: int| occurs_at(s, needle, at)
}

/// A text that lacks a character of the needle lacks the needle.
pub proof fn lemma_lacks_char(s: Seq<char>, needle: Seq<char>, i: int)
    requires
        0 <= i < needle.len(),
        forall|k: int| 0 <= k < s.len() ==> #[trigger] s[k] != needle[i],
    ensures
        !has_text(s, needle),
{
    assert forall|at: int| !occurs_at(s, needle, at) by {
        if occurs_at(s, needle, at) {
            assert(s.subrange(at, at + needle.len())[i] == s[at + i]);
        }
    }
}

/// A text in which no character of the needle is followed by the needle's next one lacks the needle.
pub proof fn lemma_lacks_pair(s: Seq<char>, needle: Seq<char>, i: int)
    requires
        0 <= i < needle.len() - 1,
        forall|k: int|
            0 <= k < s.len() - 1 && #[trigger] s[k] == needle[i] ==> s[k + 1] != needle[i + 1],
    ensures
        !has_text(s, needle),
{
    assert forall|at: int| !occurs_at(s, needle, at) by {
        if occurs_at(s, needle, at) {
            assert(s.subrange(at, at + needle.len())[i] == s[at + i]);
            assert(s.subrange(at, at + needle.len())[i + 1] == s[at + i + 1]);
        }
    }
}

/// `c` with an ASCII capital letter made small.
pub open spec fn lower(c: char) -> char {
    if 'A' <= c && c <= 'Z' {
        (c as int + 32) as char
    } else {
        c
    }
}

/// `s` with its ASCII capital letters made small.
pub open spec fn lowered(s: Seq<char>) -> Seq<char> {
    s.map_values(|c: char| lower(c))
}

/// `s` with every `from` written as `to`.
pub open spec fn replaced(s: Seq<char>, from: char, to: char) -> Seq<char> {
    s.map_values(|c: char| if c == from { to } else { c })
}

/// The character of a decimal digit.
pub open spec fn digit(d: nat) -> char {
    (d + 48) as char
}

/// The decimal numeral of `n`.
pub open spec fn decimal(n: nat) -> Seq<char>
    decreases n,
{
    if n < 10 {
        seq![digit(n)]
    } else {
        decimal(n / 10).push(digit(n % 10))
    }
}

/// Numerals of different numbers differ, and none begins with a slash.
pub proof fn lemma_decimal(a: nat, b: nat)
    ensures
        decimal(a).len() > 0,
        decimal(a)[0] != '/',
        decimal(a) == decimal(b) ==> a == b,
    decreases a,
{
    if a >= 10 {
        lemma_decimal(a / 10, b / 10);
        assert(decimal(a).drop_last() =~= decimal(a / 10));
        assert(decimal(a).last() == digit(a % 10));
    }
    if b >= 10 {
        assert(decimal(b).drop_last() =~= decimal(b / 10));
        assert(decimal(b).last() == digit(b % 10));
        assert(decimal(b / 10).len() > 0);
    } else {
        assert(decimal(b).last() == digit(b));
    }
    if a < 10 {
        assert(decimal(a).last() == digit(a));
    }
}

/// A numeral is made of digits.
pub proof fn lemma_decimal_is_digits(n: nat)
    ensures
        decimal(n).len() > 0,
        forall|i: int| 0 <= i < decimal(n).len() ==> '0' <= #[trigger] decimal(n)[i] <= '9',
    decreases n,
{
    if n >= 10 {
        lemma_decimal_is_digits(n / 10);
    }
}

/// A position that ends a gapless run of `p` at the front of `s` is the length of that run.
pub proof fn lemma_lead_is(s: Seq<char>, p: spec_fn(char) -> bool, n: int)
    requires
        0 <= n <= s.len(),
        forall|i: int| 0 <= i < n ==> p(s[i]),
        n < s.len() ==> !p(s[n]),
    ensures
        lead(s, p) == n,
    decreases s.len(),
{
    if n > 0 {
        let t = s.drop_first();
        assert forall|i: int| 0 <= i < n - 1 implies p(t[i]) by {
            assert(t[i] == s[i + 1]);
        }
        lemma_lead_is(t, p, n - 1);
    }
}

/// A position that starts a gapless run of `p` at the back of `s` gives the length of that run.
pub proof fn lemma_trail_is(s: Seq<char>, p: spec_fn(char) -> bool, n: int)
    requires
        0 <= n <= s.len(),
        forall|i: int| s.len() - n <= i < s.len() ==> p(s[i]),
        n < s.len() ==> !p(s[s.len() - n - 1]),
    ensures
        trail(s, p) == n,
    decreases s.len(),
{
    if n > 0 {
        lemma_trail_is(s.drop_last(), p, n - 1);
    }
}

/// The characters of a string, in order.
pub fn to_chars(s: &str) -> (r: Vec<char>)
    ensures
        r@ == s@,
{
    let mut r: Vec<char> = Vec::new();
    for c in it: s.chars()
        invariant
            it.seq() == s@,
            r@ == s@.take(it.index() as int),
    {
        r.push(c);
    }
    r
}

/// The string that spells the characters of `v` from `lo` up to but without `hi`.
pub fn spell(v: &[char], lo: usize, hi: usize) -> (r: String)
    requires
        lo <= hi <= v@.len(),
    ensures
        r@ == v@.subrange(lo as int, hi as int),
{
    let mut r = String::new();
    let mut i: usize = lo;
    while i < hi
        invariant
            lo <= i <= hi <= v@.len(),
            r@ == v@.subrange(lo as int, i as int),
        decreases hi - i,
    {
        r.push(v[i]);
        i = i + 1;
        assert(r@ =~= v@.subrange(lo as int, i as int));
    }
    r
}

/// Whether two strings spell the same characters.
pub fn same_text(a: &str, b: &str) -> (r: bool)
    ensures
        r == (a@ == b@),
{
    a.to_owned() == b.to_owned()
}

/// Whether `c` is white space.
pub fn is_white(c: char) -> (r: bool)
    ensures
        r == is_space(c),
{
    let n: u32 = c as u32;
    (9 <= n && n <= 13) || n == 0x20 || n == 0x85 || n == 0xA0 || n == 0x1680 || (0x2000 <= n && n
        <= 0x200A) || n == 0x2028 || n == 0x2029 || n == 0x202F || n == 0x205F || n == 0x3000
}

/// The position of the first character other than `c`.
fn first_not(v: &[char], c: char) -> (r: usize)
    ensures
        r == lead(v@, is_char(c)),
        r <= v@.len(),
{
    let mut i: usize = 0;
    while i < v.len() && v[i] == c
        invariant
            i <= v@.len(),
            forall|j: int| 0 <= j < i ==> v@[j] == c,
        decreases v@.len() - i,
    {
        i = i + 1;
    }
    proof {
        lemma_lead_is(v@, is_char(c), i as int);
    }
    i
}

/// The position of the first `c`, or the length where there is none.
fn first_of(v: &[char], c: char) -> (r: usize)
    ensures
        r == lead(v@, is_other_than(c)),
        r <= v@.len(),
        r < v@.len() ==> v@[r as int] == c,
{
    let mut i: usize = 0;
    while i < v.len() && v[i] != c
        invariant
            i <= v@.len(),
            forall|j: int| 0 <= j < i ==> v@[j] != c,
        decreases v@.len() - i,
    {
        i = i + 1;
    }
    proof {
        lemma_lead_is(v@, is_other_than(c), i as int);
    }
    i
}

/// `s` without leading `c`s.
pub fn trim_start_matches(s: &str, c: char) -> (r: String)
    ensures
        r@ == drop_lead(s@, is_char(c)),
{
    let v = to_chars(s);
    let lo = first_not(&v, c);
    spell(&v, lo, v.len())
}

/// `s` without trailing `c`s.
pub fn trim_end_matches(s: &str, c: char) -> (r: String)
    ensures
        r@ == drop_trail(s@, is_char(c)),
{
    let v = to_chars(s);
    let mut hi: usize = v.len();
    while hi > 0 && v[hi - 1] == c
        invariant
            hi <= v@.len(),
            forall|j: int| hi <= j < v@.len() ==> v@[j] == c,
        decreases hi,
    {
        hi = hi - 1;
    }
    proof {
        lemma_trail_is(v@, is_char(c), v@.len() - hi);
    }
    spell(&v, 0, hi)
}

/// `s` without leading and trailing `c`s.
pub fn trim_matches(s: &str, c: char) -> (r: String)
    ensures
        r@ == drop_both(s@, is_char(c)),
{
    let front = trim_start_matches(s, c);
    trim_end_matches(front.as_str(), c)
}

/// `s` without leading and trailing white space.
pub fn trim(s: &str) -> (r: String)
    ensures
        r@ == drop_both(s@, any_space()),
{
    let v = to_chars(s);
    let mut lo: usize = 0;
    while lo < v.len() && is_white(v[lo])
        invariant
            lo <= v@.len(),
            forall|j: int| 0 <= j < lo ==> is_space(v@[j]),
        decreases v@.len() - lo,
    {
        lo = lo + 1;
    }
    let mut hi: usize = v.len();
    while hi > lo && is_white(v[hi - 1])
        invariant
            lo <= hi <= v@.len(),
            forall|j: int| hi <= j < v@.len() ==> is_space(v@[j]),
        decreases hi,
    {
        hi = hi - 1;
    }
    proof {
        lemma_lead_is(v@, any_space(), lo as int);
        let t = v@.skip(lo as int);
        assert forall|j: int| hi - lo <= j < t.len() implies is_space(t[j]) by {
            assert(t[j] == v@[j + lo]);
        }
        lemma_trail_is(t, any_space(), v@.len() - hi);
        assert(t.take(hi - lo) =~= v@.subrange(lo as int, hi as int));
    }
    spell(&v, lo, hi)
}

/// Whether `s` starts with `prefix`.
pub fn starts_with(s: &str, prefix: &str) -> (r: bool)
    ensures
        r == prefix@.is_prefix_of(s@),
{
    let v = to_chars(s);
    let p = to_chars(prefix);
    p.len() <= v.len() && matches_at(&v, &p, 0)
}

/// Whether `s` ends with `suffix`.
pub fn ends_with(s: &str, suffix: &str) -> (r: bool)
    ensures
        r == suffix@.is_suffix_of(s@),
{
    let v = to_chars(s);
    let p = to_chars(suffix);
    if p.len() <= v.len() {
        let at: usize = v.len() - p.len();
        assert(v@.subrange(at as int, v@.len() as int) == v@.subrange(at as int, at + p@.len()));
        matches_at(&v, &p, at)
    } else {
        false
    }
}

/// Whether `p` stands in `v` at `at`.
fn matches_at(v: &[char], p: &[char], at: usize) -> (r: bool)
    requires
        at + p@.len() <= v@.len(),
    ensures
        r == (v@.subrange(at as int, at + p@.len()) == p@),
{
    let n: usize = v.len();
    let mut i: usize = 0;
    while i < p.len()
        invariant
            i <= p@.len(),
            at + p@.len() <= v@.len() == n,
            forall|j: int| 0 <= j < i ==> v@[at + j] == p@[j],
        decreases p@.len() - i,
    {
        if v[at + i] != p[i] {
            assert(v@.subrange(at as int, at + p@.len())[i as int] != p@[i as int]);
            return false;
        }
        i = i + 1;
    }
    assert(v@.subrange(at as int, at + p@.len()) =~= p@);
    true
}

/// Whether `needle` stands somewhere in `s`.
pub fn contains(s: &str, needle: &str) -> (r: bool)
    ensures
        r == has_text(s@, needle@),
{
    let v = to_chars(s);
    let p = to_chars(needle);
    if p.len() > v.len() {
        return false;
    }
    let last: usize = v.len() - p.len();
    let mut at: usize = 0;
    while at <= last
        invariant
            v@ == s@,
            p@ == needle@,
            p@.len() <= v@.len(),
            last == v@.len() - p@.len(),
            at <= last + 1,
            forall|k: int| 0 <= k < at ==> !occurs_at(s@, needle@, k),
        decreases last + 1 - at,
    {
        if matches_at(&v, &p, at) {
            assert(occurs_at(s@, needle@, at as int));
            return true;
        }
        if at == last {
            assert forall|k: int| !occurs_at(s@, needle@, k) by {}
            return false;
        }
        at = at + 1;
    }
    false
}

/// The pieces of `s` between the occurrences of `c`.
pub fn split(s: &str, c: char) -> (r: Vec<String>)
    ensures
        r.deep_view() == pieces(s@, c),
{
    let v = to_chars(s);
    let mut r: Vec<String> = Vec::new();
    let mut from: usize = 0;
    assert(v@.skip(0) =~= s@);
    assert(r.deep_view() + pieces(s@, c) =~= pieces(s@, c));
    loop
        invariant
            from <= v@.len(),
            v@ == s@,
            r.deep_view() + pieces(v@.skip(from as int), c) == pieces(s@, c),
        decreases v@.len() - from,
    {
        let ghost rest = v@.skip(from as int);
        let mut i: usize = from;
        while i < v.len() && v[i] != c
            invariant
                from <= i <= v@.len(),
                forall|j: int| from <= j < i ==> v@[j] != c,
            decreases v@.len() - i,
        {
            i = i + 1;
        }
        let piece = spell(&v, from, i);
        let ghost before = r.deep_view();
        proof {
            assert forall|j: int| 0 <= j < i - from implies rest[j] != c by {
                assert(rest[j] == v@[j + from]);
            }
            lemma_lead_is(rest, is_other_than(c), i - from);
            assert(rest.take(i - from) =~= v@.subrange(from as int, i as int));
        }
        r.push(piece);
        assert(r.deep_view() =~= before.push(v@.subrange(from as int, i as int)));
        if i == v.len() {
            assert(rest =~= v@.subrange(from as int, i as int));
            assert(r.deep_view() =~= before + pieces(rest, c));
            return r;
        }
        proof {
            assert(rest.skip(i - from + 1) =~= v@.skip(i + 1));
            assert(r.deep_view() + pieces(v@.skip(i + 1), c) =~= before + pieces(rest, c));
        }
        from = i + 1;
    }
}

/// The text before the first `c` and the text behind it, where there is one.
pub fn split_once(s: &str, c: char) -> (r: Option<(String, String)>)
    ensures
        ({
            let at = lead(s@, is_other_than(c)) as int;
            match r {
                Some((a, b)) => at < s@.len() && a@ == s@.take(at) && b@ == s@.skip(at + 1),
                None => at >= s@.len(),
            }
        }),
{
    let v = to_chars(s);
    let at = first_of(&v, c);
    if at < v.len() {
        Some((spell(&v, 0, at), spell(&v, at + 1, v.len())))
    } else {
        None
    }
}

/// What stands behind the last `/` of `s`.
pub fn basename(s: &str) -> (r: String)
    ensures
        r@ == last_segment(s@),
{
    let v = to_chars(s);
    let mut lo: usize = v.len();
    while lo > 0 && v[lo - 1] != '/'
        invariant
            lo <= v@.len(),
            forall|j: int| lo <= j < v@.len() ==> v@[j] != '/',
        decreases lo,
    {
        lo = lo - 1;
    }
    proof {
        lemma_trail_is(v@, is_other_than('/'), v@.len() - lo);
    }
    spell(&v, lo, v.len())
}

/// `s` with its ASCII capital letters made small.
pub fn to_lower(s: &str) -> (r: String)
    ensures
        r@ == lowered(s@),
{
    let v = to_chars(s);
    let mut r = String::new();
    for i in 0..v.len()
        invariant
            r@ == lowered(v@.take(i as int)),
    {
        let c = v[i];
        let d = if 'A' <= c && c <= 'Z' {
            (c as u8 + 32) as char
        } else {
            c
        };
        r.push(d);
        assert(r@ =~= lowered(v@.take(i + 1)));
    }
    assert(v@.take(v@.len() as int) =~= s@);
    r
}

/// `s` with every `from` written as `to`.
pub fn replace(s: &str, from: char, to: char) -> (r: String)
    ensures
        r@ == replaced(s@, from, to),
{
    let v = to_chars(s);
    let mut r = String::new();
    for i in 0..v.len()
        invariant
            r@ == replaced(v@.take(i as int), from, to),
    {
        let c = v[i];
        r.push(if c == from { to } else { c });
        assert(r@ =~= replaced(v@.take(i + 1), from, to));
    }
    assert(v@.take(v@.len() as int) =~= s@);
    r
}

/// The decimal numeral of `n`.
pub fn number(n: u64) -> (r: String)
    ensures
        r@ == decimal(n as nat),
    decreases n,
{
    let last = ((n % 10) as u8 + 48) as char;
    let mut r = if n < 10 {
        String::new()
    } else {
        number(n / 10)
    };
    r.push(last);
    assert(n < 10 ==> r@ =~= seq![digit(n as nat)]);
    r
}

/// Whether `a` stands before `b` in the order of the characters' code points.
pub open spec fn text_less(a: Seq<char>, b: Seq<char>) -> bool
    decreases a.len(),
{
    if b.len() == 0 {
        false
    } else if a.len() == 0 {
        true
    } else if a[0] != b[0] {
        a[0] < b[0]
    } else {
        text_less(a.drop_first(), b.drop_first())
    }
}

/// The order of texts is transitive.
pub proof fn lemma_text_less_transitive(a: Seq<char>, b: Seq<char>, c: Seq<char>)
    ensures
        text_less(a, b) && text_less(b, c) ==> text_less(a, c),
    decreases a.len(),
{
    if a.len() > 0 && b.len() > 0 && c.len() > 0 && a[0] == b[0] && b[0] == c[0] {
        lemma_text_less_transitive(a.drop_first(), b.drop_first(), c.drop_first());
    }
}

/// Of two texts either one stands before the other, or they are the same.
pub proof fn lemma_text_less_total(a: Seq<char>, b: Seq<char>)
    ensures
        text_less(a, b) ==> !text_less(b, a),
        !text_less(a, b) && !text_less(b, a) ==> a == b,
        !text_less(a, a),
    decreases a.len() + b.len(),
{
    if a.len() > 0 && b.len() > 0 && a[0] == b[0] {
        lemma_text_less_total(a.drop_first(), b.drop_first());
        if a.drop_first() == b.drop_first() {
            assert(a =~= seq![a[0]] + a.drop_first());
            assert(b =~= seq![b[0]] + b.drop_first());
        }
    }
    if a.len() == 0 && b.len() == 0 {
        assert(a =~= b);
    }
    if a.len() > 0 && b.len() == 0 {
        lemma_text_less_total(a.drop_first(), b);
        lemma_text_less_irreflexive(a);
    } else if a.len() > 0 {
        lemma_text_less_irreflexive(a);
    }
}

proof fn lemma_text_less_irreflexive(a: Seq<char>)
    ensures
        !text_less(a, a),
    decreases a.len(),
{
    if a.len() > 0 {
        lemma_text_less_irreflexive(a.drop_first());
    }
}

/// Whether `a` stands before `b` in the order of the characters' code points.
pub fn is_less(a: &str, b: &str) -> (r: bool)
    ensures
        r == text_less(a@, b@),
{
    let v = to_chars(a);
    let w = to_chars(b);
    let mut i: usize = 0;
    assert(v@.skip(0) =~= a@ && w@.skip(0) =~= b@);
    while i < v.len() && i < w.len() && v[i] == w[i]
        invariant
            i <= v@.len(),
            i <= w@.len(),
            text_less(a@, b@) == text_less(v@.skip(i as int), w@.skip(i as int)),
        decreases v@.len() - i,
    {
        assert(v@.skip(i as int).drop_first() =~= v@.skip(i + 1));
        assert(w@.skip(i as int).drop_first() =~= w@.skip(i + 1));
        i = i + 1;
    }
    if i >= w.len() {
        false
    } else if i >= v.len() {
        true
    } else {
        v[i] < w[i]
    }
}

}
