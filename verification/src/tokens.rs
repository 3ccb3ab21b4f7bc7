//! The tokens file (`~/.config/kuro/tokens.toml`).
//!
//! It holds `[section]` headers and `key = "value"` lines; blank lines and lines that start with
//! `#` are skipped. A value is found under `section.key`, or under `key` before any header.

use vstd::hash_map::StringHashMap;
use vstd::prelude::*;

use crate::text;

verus! {

/// What the lines read so far have set.
pub struct TokenState {
    pub section: Seq<char>,
    pub values: Map<Seq<char>, Seq<char>>,
}

/// What a value reads as: white space goes, then quotes, then white space inside the quotes.
pub open spec fn token_value(raw: Seq<char>) -> Seq<char> {
    text::drop_both(text::drop_both(text::drop_both(raw, text::any_space()), text::is_char('"')), text::any_space())
}

/// The name under which a key of a section is found.
pub open spec fn token_key(section: Seq<char>, raw: Seq<char>) -> Seq<char> {
    let key = text::drop_both(raw, text::any_space());
    if section.len() == 0 {
        key
    } else {
        section + "."@ + key
    }
}

/// The effect of one line.
pub open spec fn after_line(st: TokenState, raw: Seq<char>) -> TokenState {
    let line = text::drop_both(raw, text::any_space());
    let eq = text::lead(line, text::is_other_than('=')) as int;
    if line.len() == 0 || line[0] == '#' {
        st
    } else if line[0] == '[' && line.last() == ']' {
        TokenState {
            section: text::drop_both(line.subrange(1, line.len() - 1), text::any_space()),
            values: st.values,
        }
    } else if eq < line.len() {
        TokenState {
            section: st.section,
            values: st.values.insert(
                token_key(st.section, line.take(eq)),
                token_value(line.skip(eq + 1)),
            ),
        }
    } else {
        st
    }
}

/// The effect of all lines, in order.
pub open spec fn after_lines(lines: Seq<Seq<char>>) -> TokenState
    decreases lines.len(),
{
    if lines.len() == 0 {
        TokenState { section: Seq::empty(), values: Map::empty() }
    } else {
        after_line(after_lines(lines.drop_last()), lines.last())
    }
}

/// The values that the text of a tokens file sets.
pub open spec fn tokens_in(file: Seq<char>) -> Map<Seq<char>, Seq<char>> {
    after_lines(text::pieces(file, '\n')).values
}

/// The values of a tokens file.
pub struct Tokens {
    map: StringHashMap<String>,
}

impl View for Tokens {
    type V = Map<Seq<char>, Seq<char>>;

    closed spec fn view(&self) -> Map<Seq<char>, Seq<char>> {
        self.map@.map_values(|v: String| v@)
    }
}

impl Tokens {
    /// The value under a name.
    pub fn get(&self, key: &str) -> (r: Option<String>)
        ensures
            match r {
                Some(v) => self@.contains_key(key@) && v@ == self@[key@],
                None => !self@.contains_key(key@),
            },
    {
        match self.map.get(key) {
            Some(v) => Some(v.clone()),
            None => None,
        }
    }
}

/// The values that the text of a tokens file sets; of two lines for one name the later counts.
pub fn read_tokens_file(file: &str) -> (r: Tokens)
    ensures
        r@ == tokens_in(file@),
{
    let lines = text::split(file, '\n');
    let mut section = String::new();
    let mut r = Tokens { map: StringHashMap::new() };
    let ghost all = text::pieces(file@, '\n');
    assert(r@ =~= Map::empty());
    let mut i: usize = 0;
    while i < lines.len()
        invariant
            i <= lines@.len(),
            lines.deep_view() == all,
            section@ == after_lines(all.take(i as int)).section,
            r@ == after_lines(all.take(i as int)).values,
        decreases lines@.len() - i,
    {
        let ghost st = after_lines(all.take(i as int));
        proof {
            assert(all.take(i + 1).drop_last() =~= all.take(i as int));
            assert(all.take(i + 1).last() == lines@[i as int]@);
        }
        let line = text::trim(lines[i].as_str());
        let v = text::to_chars(line.as_str());
        i = i + 1;
        if v.len() == 0 || v[0] == '#' {
            continue;
        }
        if v[0] == '[' && v[v.len() - 1] == ']' {
            let inner = text::spell(&v, 1, v.len() - 1);
            section = text::trim(inner.as_str());
            continue;
        }
        if let Some((k, val)) = text::split_once(line.as_str(), '=') {
            let t = text::trim(val.as_str());
            let q = text::trim_matches(t.as_str(), '"');
            let value = text::trim(q.as_str());
            let k = text::trim(k.as_str());
            let key = if section.as_str().is_empty() {
                k
            } else {
                section.clone().concat(".").concat(k.as_str())
            };
            let ghost before = r@;
            let ghost kv = key@;
            let ghost vv = value@;
            r.map.insert(key, value);
            assert(r@ =~= before.insert(kv, vv));
        }
    }
    assert(all.take(all.len() as int) =~= all);
    r
}

}
