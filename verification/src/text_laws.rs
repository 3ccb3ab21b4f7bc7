//! What holds of texts, their parts and their numerals.

use vstd::prelude::*;

use crate::text;

verus! {

/// A text of `n` equal characters.
pub open spec fn repeated(c: char, n: nat) -> Seq<char> {
    Seq::new(n, |i: int| c)
}

proof fn lemma_lead(s: Seq<char>, p: spec_fn(char) -> bool)
    ensures
        text::lead(s, p) <= s.len(),
        forall|i: int| 0 <= i < text::lead(s, p) ==> p(#[trigger] s[i]),
        text::lead(s, p) < s.len() ==> !p(s[text::lead(s, p) as int]),
    decreases s.len(),
{
    if s.len() > 0 && p(s[0]) {
        let rest = s.drop_first();
        lemma_lead(rest, p);
        assert forall|i: int| 0 <= i < text::lead(s, p) implies p(#[trigger] s[i]) by {
            if i > 0 {
                assert(rest[i - 1] == s[i]);
            }
        }
    }
}

/// The run at the back of a text is as long as it can be.
pub proof fn lemma_trail(s: Seq<char>, p: spec_fn(char) -> bool)
    ensures
        text::trail(s, p) <= s.len(),
        forall|i: int| s.len() - text::trail(s, p) <= i < s.len() ==> p(#[trigger] s[i]),
        text::trail(s, p) < s.len() ==> !p(s[s.len() - text::trail(s, p) - 1]),
    decreases s.len(),
{
    if s.len() > 0 && p(s.last()) {
        let rest = s.drop_last();
        lemma_trail(rest, p);
        assert forall|i: int| s.len() - text::trail(s, p) <= i < s.len() implies p(
            #[trigger] s[i],
        ) by {
            if i < rest.len() {
                assert(rest[i] == s[i]);
            }
        }
    }
}

/// Dropping characters at the front drops all that are to be dropped up to the first other one, and
/// nothing behind it.
pub proof fn law_drop_lead(s: Seq<char>, p: spec_fn(char) -> bool)
    ensures
        ({
            let r = text::drop_lead(s, p);
            let n = s.len() - r.len();
            &&& 0 <= n
            &&& r == s.skip(n)
            &&& forall|i: int| 0 <= i < n ==> p(#[trigger] s[i])
            &&& r.len() > 0 ==> !p(r[0])
        }),
{
    lemma_lead(s, p);
}

/// Dropping characters at the back drops all that are to be dropped down to the last other one, and
/// nothing before it.
pub proof fn law_drop_trail(s: Seq<char>, p: spec_fn(char) -> bool)
    ensures
        ({
            let r = text::drop_trail(s, p);
            &&& r.len() <= s.len()
            &&& r == s.take(r.len() as int)
            &&& forall|i: int| r.len() <= i < s.len() ==> p(#[trigger] s[i])
            &&& r.len() > 0 ==> !p(r.last())
        }),
{
    lemma_trail(s, p);
}

/// What is padded with characters that are dropped at the front comes back.
pub proof fn law_padded_front(s: Seq<char>, c: char, n: nat)
    requires
        s.len() > 0 ==> s[0] != c,
    ensures
        text::drop_lead(repeated(c, n) + s, text::is_char(c)) == s,
{
    let t = repeated(c, n) + s;
    text::lemma_lead_is(t, text::is_char(c), n as int);
    assert(t.skip(n as int) =~= s);
}

/// What is padded with characters that are dropped at the back comes back.
pub proof fn law_padded_back(s: Seq<char>, c: char, n: nat)
    requires
        s.len() > 0 ==> s.last() != c,
    ensures
        text::drop_trail(s + repeated(c, n), text::is_char(c)) == s,
{
    let t = s + repeated(c, n);
    text::lemma_trail_is(t, text::is_char(c), n as int);
    assert(t.take(s.len() as int) =~= s);
}

/// What is padded on both sides with characters that are dropped comes back.
pub proof fn law_padded(s: Seq<char>, c: char, m: nat, n: nat)
    requires
        s.len() > 0 ==> s[0] != c && s.last() != c,
    ensures
        text::drop_both(repeated(c, m) + s + repeated(c, n), text::is_char(c)) == s,
{
    let p = text::is_char(c);
    if s.len() > 0 {
        let t = s + repeated(c, n);
        assert(repeated(c, m) + s + repeated(c, n) =~= repeated(c, m) + t);
        law_padded_front(t, c, m);
        law_padded_back(s, c, n);
    } else {
        let t = repeated(c, m) + s + repeated(c, n);
        assert(t =~= repeated(c, m + n) + s);
        law_padded_front(s, c, m + n);
        law_drop_trail(s, p);
    }
}

/// What is framed by characters that are dropped comes back.
pub proof fn law_framed(a: Seq<char>, s: Seq<char>, b: Seq<char>, p: spec_fn(char) -> bool)
    requires
        forall|i: int| 0 <= i < a.len() ==> p(#[trigger] a[i]),
        forall|i: int| 0 <= i < b.len() ==> p(#[trigger] b[i]),
        s.len() > 0 ==> !p(s[0]) && !p(s.last()),
    ensures
        text::drop_both(a + s + b, p) == s,
{
    let t = a + s + b;
    if s.len() > 0 {
        text::lemma_lead_is(t, p, a.len() as int);
        assert(t.skip(a.len() as int) =~= s + b);
        text::lemma_trail_is(s + b, p, b.len() as int);
        assert((s + b).take(s.len() as int) =~= s);
    } else {
        assert forall|i: int| 0 <= i < t.len() implies p(#[trigger] t[i]) by {}
        text::lemma_lead_is(t, p, t.len() as int);
        assert(t.skip(t.len() as int) =~= s);
        text::lemma_trail_is(s, p, 0);
        assert(s.take(0) =~= s);
    }
}

/// White space is what Unicode calls so: in ASCII the blank and the five controls from the tab to the
/// carriage return, and no letter, digit or sign.
pub proof fn law_white_space(c: char)
    ensures
        c == ' ' || c == '\t' || c == '\n' || c == '\r' ==> text::is_space(c),
        c as int == 11 || c as int == 12 ==> text::is_space(c),
        (c as int) < 128 && text::is_space(c) ==> c == ' ' || 9 <= c as int <= 13,
        128 <= c as int && text::is_space(c) ==> c as int == 0x85 || c as int == 0xA0 || c as int
            == 0x1680 || 0x2000 <= c as int <= 0x200A || 0x2028 <= c as int <= 0x2029 || c as int
            == 0x202F || c as int == 0x205F || c as int == 0x3000,
        c as int == 0x85 || c as int == 0xA0 || c as int == 0x1680 || 0x2000 <= c as int <= 0x200A
            || 0x2028 <= c as int <= 0x2029 || c as int == 0x202F || c as int == 0x205F || c as int
            == 0x3000 ==> text::is_space(c),
{
}

/// The number that a numeral stands for.
pub open spec fn number_of(s: Seq<char>) -> int
    decreases s.len(),
{
    if s.len() == 0 {
        0
    } else {
        number_of(s.drop_last()) * 10 + (s.last() as int - '0' as int)
    }
}

/// A numeral stands for its number, has only digits, and does not begin with a zero unless the number
/// is zero.
pub proof fn law_numeral_reads_back(n: nat)
    ensures
        number_of(text::decimal(n)) == n,
        forall|i: int|
            0 <= i < text::decimal(n).len() ==> '0' <= #[trigger] text::decimal(n)[i] <= '9',
        text::decimal(n).len() > 0,
        n > 0 ==> text::decimal(n)[0] != '0',
    decreases n,
{
    text::lemma_decimal_is_digits(n);
    if n >= 10 {
        law_numeral_reads_back(n / 10);
        assert(text::decimal(n).drop_last() =~= text::decimal(n / 10));
    } else {
        reveal_with_fuel(number_of, 2);
        assert(text::decimal(n).drop_last() =~= Seq::empty());
    }
}

/// Making letters small changes the capital letters of the alphabet and nothing else.
pub proof fn law_lowered(s: Seq<char>)
    ensures
        text::lowered(s).len() == s.len(),
        forall|i: int|
            0 <= i < s.len() ==> if 'A' <= #[trigger] s[i] <= 'Z' {
                text::lowered(s)[i] as int == s[i] as int + 32
            } else {
                text::lowered(s)[i] == s[i]
            },
{
}

/// Replacing a character changes that one and nothing else.
pub proof fn law_replaced(s: Seq<char>, from: char, to: char)
    ensures
        text::replaced(s, from, to).len() == s.len(),
        forall|i: int|
            0 <= i < s.len() ==> text::replaced(s, from, to)[i] == if #[trigger] s[i] == from {
                to
            } else {
                s[i]
            },
{
}

/// A text holds another one where it stands between two others.
pub proof fn law_text_is_found(a: Seq<char>, needle: Seq<char>, b: Seq<char>)
    ensures
        text::has_text(a + needle + b, needle),
{
    let s = a + needle + b;
    assert(s.subrange(a.len() as int, (a.len() + needle.len()) as int) =~= needle);
    assert(text::occurs_at(s, needle, a.len() as int));
}

/// A text that is found in another one stands somewhere between two parts of it.
pub proof fn law_found_text_is_there(s: Seq<char>, needle: Seq<char>)
    requires
        text::has_text(s, needle),
    ensures
        exists|a: Seq<char>, b: Seq<char>| s == #[trigger] (a + needle + b),
{
    let at = choose|at: int| text::occurs_at(s, needle, at);
    let a = s.take(at);
    let b = s.skip(at + needle.len());
    assert(s.subrange(at, at + needle.len()) =~= needle);
    assert(s =~= a + needle + b);
}

/// Some texts, put together with a character between each two.
pub open spec fn put_together(parts: Seq<Seq<char>>, c: char) -> Seq<char>
    decreases parts.len(),
{
    if parts.len() == 0 {
        Seq::empty()
    } else if parts.len() == 1 {
        parts[0]
    } else {
        parts[0] + seq![c] + put_together(parts.drop_first(), c)
    }
}

/// The pieces between the occurrences of a character hold none of it, and put together with it they
/// are the text again.
pub proof fn law_pieces_make_the_text(s: Seq<char>, c: char)
    ensures
        text::pieces(s, c).len() > 0,
        put_together(text::pieces(s, c), c) == s,
        forall|i: int, k: int|
            0 <= i < text::pieces(s, c).len() && 0 <= k < text::pieces(s, c)[i].len()
                ==> #[trigger] text::pieces(s, c)[i][k] != c,
    decreases s.len(),
{
    let p = text::is_other_than(c);
    let n = text::lead(s, p) as int;
    lemma_lead(s, p);
    let all = text::pieces(s, c);
    if n < s.len() {
        let rest = s.skip(n + 1);
        law_pieces_make_the_text(rest, c);
        assert(all.drop_first() =~= text::pieces(rest, c));
        assert(all[0] == s.take(n));
        assert(s =~= s.take(n) + seq![c] + rest);
        assert forall|i: int, k: int| 0 <= i < all.len() && 0 <= k < all[i].len() implies
            #[trigger] all[i][k] != c by {
            if i > 0 {
                assert(all[i] == text::pieces(rest, c)[i - 1]);
                assert(text::pieces(rest, c)[i - 1][k] != c);
            }
        }
    } else {
        assert(all[0] =~= s);
    }
}

/// Of two texts the one goes first whose character is less where they first differ; a text goes
/// before a longer one that it begins.
pub proof fn law_text_order(a: Seq<char>, b: Seq<char>, k: int)
    requires
        0 <= k <= a.len(),
        k <= b.len(),
        a.take(k) == b.take(k),
    ensures
        k < a.len() && k < b.len() && a[k] < b[k] ==> text::text_less(a, b) && !text::text_less(b, a),
        k == a.len() && k < b.len() ==> text::text_less(a, b) && !text::text_less(b, a),
        k == a.len() && k == b.len() ==> !text::text_less(a, b),
    decreases k,
{
    if k > 0 {
        assert(a[0] == a.take(k)[0] && b[0] == b.take(k)[0]);
        let x = a.drop_first();
        let y = b.drop_first();
        assert(x.take(k - 1) =~= a.take(k).skip(1));
        assert(y.take(k - 1) =~= b.take(k).skip(1));
        law_text_order(x, y, k - 1);
    }
}

}
