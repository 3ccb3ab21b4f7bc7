//! What the lines of a tokens file set.

use vstd::prelude::*;

use crate::text;
use crate::text_laws;
use crate::tokens;
use crate::tokens::TokenState;

verus! {

/// Whether a text is white space.
pub open spec fn is_blank(s: Seq<char>) -> bool {
    forall|i: int| 0 <= i < s.len() ==> text::is_space(#[trigger] s[i])
}

/// Whether a text neither begins nor ends with white space.
pub open spec fn is_trim(s: Seq<char>) -> bool {
    s.len() > 0 ==> !text::is_space(s[0]) && !text::is_space(s.last())
}

/// The name of a key: the section, a dot and the key, or the key alone outside any section.
pub open spec fn full_name(section: Seq<char>, key: Seq<char>) -> Seq<char> {
    if section.len() == 0 {
        key
    } else {
        section + seq!['.'] + key
    }
}

proof fn lemma_trimmed(a: Seq<char>, s: Seq<char>, b: Seq<char>)
    requires
        is_blank(a),
        is_blank(b),
        is_trim(s),
    ensures
        text::drop_both(a + s + b, text::any_space()) == s,
{
    text_laws::law_framed(a, s, b, text::any_space());
}

/// A line with a key, `=` and a value sets the value under the name of the key, and nothing else. White
/// space around the key, the value and the quotes does not count, and neither do the quotes.
pub proof fn law_value_is_set(
    st: TokenState,
    key: Seq<char>,
    value: Seq<char>,
    blanks: (Seq<char>, Seq<char>, Seq<char>, Seq<char>),
    quotes: (nat, nat),
)
    requires
        is_blank(blanks.0),
        is_blank(blanks.1),
        is_blank(blanks.2),
        is_blank(blanks.3),
        key.len() > 0,
        is_trim(key),
        forall|i: int| 0 <= i < key.len() ==> #[trigger] key[i] != '=',
        key[0] != '#',
        key[0] != '[',
        is_trim(value),
        value.len() > 0 ==> value[0] != '"' && value.last() != '"',
    ensures
        ({
            let quoted = text_laws::repeated('"', quotes.0) + value + text_laws::repeated(
                '"',
                quotes.1,
            );
            let line = blanks.0 + key + blanks.1 + seq!['='] + blanks.2 + quoted + blanks.3;
            let now = tokens::after_line(st, line);
            &&& now.section == st.section
            &&& now.values == st.values.insert(full_name(st.section, key), value)
        }),
{
    reveal_strlit(".");
    let (a, b, c, d) = blanks;
    let quoted = text_laws::repeated('"', quotes.0) + value + text_laws::repeated('"', quotes.1);
    let line = a + key + b + seq!['='] + c + quoted + d;
    assert(is_trim(quoted));
    let front = key + b + seq!['='];
    assert(front.last() == '=');
    let (core, rest) = if quoted.len() == 0 {
        (front, c + d)
    } else {
        (front + c + quoted, d)
    };
    assert(line =~= a + core + rest);
    assert(core[0] == key[0]);
    assert(is_blank(rest)) by {
        assert forall|i: int| 0 <= i < rest.len() implies text::is_space(#[trigger] rest[i]) by {
            if quoted.len() == 0 {
                if i < c.len() {
                    assert(rest[i] == c[i]);
                } else {
                    assert(rest[i] == d[i - c.len()]);
                }
            }
        }
    }
    assert(quoted.len() > 0 ==> core.last() == quoted.last());
    lemma_trimmed(a, core, rest);
    let at = (key + b).len() as int;
    assert(core[at] == '=');
    assert forall|i: int| 0 <= i < at implies core[i] != '=' by {
        if i < key.len() {
            assert(core[i] == key[i]);
        } else {
            assert(core[i] == b[i - key.len()]);
        }
    }
    text::lemma_lead_is(core, text::is_other_than('='), at);
    assert(core.take(at) =~= Seq::empty() + key + b);
    lemma_trimmed(Seq::empty(), key, b);
    let tail = core.skip(at + 1);
    if quoted.len() == 0 {
        assert(tail =~= quoted);
        lemma_trimmed(Seq::empty(), quoted, Seq::empty());
        assert(tail =~= Seq::empty() + quoted + Seq::empty());
    } else {
        assert(tail =~= c + quoted + Seq::empty());
        lemma_trimmed(c, quoted, Seq::empty());
    }
    assert(text::drop_both(tail, text::any_space()) == quoted);
    text_laws::law_padded(value, '"', quotes.0, quotes.1);
    lemma_trimmed(Seq::empty(), value, Seq::empty());
    assert(value =~= Seq::empty() + value + Seq::empty());
    assert(tokens::token_value(tail) == value);
    assert("."@ =~= seq!['.']);
}

/// A line with a name in brackets begins a section and sets nothing.
pub proof fn law_section_begins(
    st: TokenState,
    name: Seq<char>,
    blanks: (Seq<char>, Seq<char>, Seq<char>, Seq<char>),
)
    requires
        is_blank(blanks.0),
        is_blank(blanks.1),
        is_blank(blanks.2),
        is_blank(blanks.3),
        is_trim(name),
    ensures
        ({
            let line = blanks.0 + seq!['['] + blanks.1 + name + blanks.2 + seq![']'] + blanks.3;
            let now = tokens::after_line(st, line);
            now.section == name && now.values == st.values
        }),
{
    let (a, b, c, d) = blanks;
    let line = a + seq!['['] + b + name + c + seq![']'] + d;
    let core = seq!['['] + b + name + c + seq![']'];
    assert(line =~= a + core + d);
    assert(core[0] == '[' && core.last() == ']');
    lemma_trimmed(a, core, d);
    assert(core.subrange(1, core.len() - 1) =~= b + name + c);
    lemma_trimmed(b, name, c);
}

/// A blank line, a comment, and a line without `=` that begins no section change nothing.
pub proof fn law_other_lines_are_skipped(
    st: TokenState,
    before: Seq<char>,
    core: Seq<char>,
    behind: Seq<char>,
)
    requires
        is_blank(before),
        is_blank(behind),
        is_trim(core),
        core.len() == 0 || core[0] == '#' || (core[0] != '[' && forall|i: int|
            0 <= i < core.len() ==> #[trigger] core[i] != '='),
    ensures
        tokens::after_line(st, before + core + behind) == st,
{
    lemma_trimmed(before, core, behind);
    if core.len() > 0 && core[0] != '#' {
        text::lemma_lead_is(core, text::is_other_than('='), core.len() as int);
    }
}

/// Nothing is set at first, and each line adds to what the lines before it have set.
pub proof fn law_lines_are_read_in_order(lines: Seq<Seq<char>>, line: Seq<char>)
    ensures
        tokens::after_lines(Seq::empty()).section.len() == 0,
        tokens::after_lines(Seq::empty()).values == Map::<Seq<char>, Seq<char>>::empty(),
        tokens::after_lines(lines.push(line)) == tokens::after_line(
            tokens::after_lines(lines),
            line,
        ),
{
    assert(lines.push(line).drop_last() =~= lines);
}

/// The values of a file without a line break are those of its one line.
pub proof fn law_single_line_file(line: Seq<char>)
    requires
        forall|i: int| 0 <= i < line.len() ==> #[trigger] line[i] != '\n',
    ensures
        tokens::tokens_in(line) == tokens::after_line(tokens::after_lines(Seq::empty()), line).values,
{
    text::lemma_lead_is(line, text::is_other_than('\n'), line.len() as int);
    assert(text::pieces(line, '\n') =~= Seq::<Seq<char>>::empty().push(line));
    law_lines_are_read_in_order(Seq::empty(), line);
}

/// The values of a file are those of what stands before its first line break, and then of the lines
/// behind it.
pub proof fn law_lines_end_at_breaks(first: Seq<char>, rest: Seq<char>)
    requires
        forall|i: int| 0 <= i < first.len() ==> #[trigger] first[i] != '\n',
    ensures
        tokens::tokens_in(first + seq!['\n'] + rest) == tokens::after_lines(
            seq![first] + text::pieces(rest, '\n'),
        ).values,
{
    let file = first + seq!['\n'] + rest;
    let at = first.len() as int;
    assert(file[at] == '\n');
    text::lemma_lead_is(file, text::is_other_than('\n'), at);
    assert(file.take(at) =~= first);
    assert(file.skip(at + 1) =~= rest);
}

}
