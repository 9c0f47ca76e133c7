//! Choosing a sigil's language: the declared language, or for a script
//! file on Windows the interpreter named by its shebang line, or the shell.

use vstd::prelude::*;
use crate::text::to_chars;

verus! {

/// Unicode white space (the `White_Space` property).
pub open spec fn is_white(c: char) -> bool {
    ||| '\u{9}' <= c <= '\u{d}'
    ||| c == ' '
    ||| c == '\u{85}'
    ||| c == '\u{a0}'
    ||| c == '\u{1680}'
    ||| '\u{2000}' <= c <= '\u{200a}'
    ||| c == '\u{2028}'
    ||| c == '\u{2029}'
    ||| c == '\u{202f}'
    ||| c == '\u{205f}'
    ||| c == '\u{3000}'
}

/// Whether `c` is Unicode white space.
pub fn is_white_char(c: char) -> (r: bool)
    ensures
        r == is_white(c),
{
    ('\u{9}' <= c && c <= '\u{d}') || c == ' ' || c == '\u{85}' || c == '\u{a0}' || c == '\u{1680}'
        || ('\u{2000}' <= c && c <= '\u{200a}') || c == '\u{2028}' || c == '\u{2029}' || c
        == '\u{202f}' || c == '\u{205f}' || c == '\u{3000}'
}

/// `s` without its trailing white space.
pub open spec fn trim_end_white(s: Seq<char>) -> Seq<char>
    decreases s.len(),
{
    if s.len() > 0 && is_white(s.last()) {
        trim_end_white(s.drop_last())
    } else {
        s
    }
}

/// The longest suffix of `s` with neither white space nor `/`.
pub open spec fn name_tail(s: Seq<char>) -> Seq<char>
    decreases s.len(),
{
    if s.len() > 0 && !is_white(s.last()) && s.last() != '/' {
        name_tail(s.drop_last()).push(s.last())
    } else {
        seq![]
    }
}

/// The interpreter a first line `#!... /path/to/interp` names: the last
/// path component of the last word after `#!`, when it is not empty.
pub open spec fn shebang_language_spec(line: Seq<char>) -> Option<Seq<char>> {
    if line.len() >= 2 && line[0] == '#' && line[1] == '!' {
        let t = name_tail(trim_end_white(line.skip(2)));
        if t.len() > 0 {
            Some(t)
        } else {
            None
        }
    } else {
        None
    }
}

/// The interpreter named by the shebang of a script's first line.
pub fn detect_language_from_line(line: &str) -> (lang: Option<String>)
    ensures
        match lang {
            Some(l) => shebang_language_spec(line@) == Some(l@),
            None => shebang_language_spec(line@) is None,
        },
{
    let n = line.unicode_len();
    if n < 2 || line.get_char(0) != '#' || line.get_char(1) != '!' {
        return None;
    }
    let rest = line.substring_char(2, n);
    let r = to_chars(rest);
    let ghost rs = rest@;
    assert(rs =~= line@.skip(2));
    let mut e: usize = r.len();
    assert(rs.take(e as int) =~= rs);
    while e > 0 && is_white_char(r[e - 1])
        invariant
            e <= r@.len(),
            r@ == rs,
            trim_end_white(rs) == trim_end_white(rs.take(e as int)),
        decreases e,
    {
        assert(rs.take(e as int).drop_last() =~= rs.take(e - 1));
        e = e - 1;
    }
    assert(trim_end_white(rs.take(e as int)) == rs.take(e as int));
    let mut b: usize = e;
    assert(rs.subrange(b as int, e as int) =~= Seq::<char>::empty());
    assert(rs.take(e as int) == rs.take(b as int) + rs.subrange(b as int, e as int));
    while b > 0 && !is_white_char(r[b - 1]) && r[b - 1] != '/'
        invariant
            b <= e <= r@.len(),
            r@ == rs,
            name_tail(rs.take(e as int)) == name_tail(rs.take(b as int)) + rs.subrange(
                b as int,
                e as int,
            ),
        decreases b,
    {
        assert(rs.take(b as int).drop_last() =~= rs.take(b - 1));
        assert(rs.take(b as int).last() == rs[b - 1]);
        assert(rs.subrange(b - 1, e as int) =~= seq![rs[b - 1]] + rs.subrange(b as int, e as int));
        b = b - 1;
    }
    assert(name_tail(rs.take(b as int)) =~= Seq::<char>::empty());
    if b == e {
        assert(rs.subrange(b as int, e as int) =~= Seq::<char>::empty());
        None
    } else {
        let name = rest.substring_char(b, e);
        Some(String::from_str(name))
    }
}

/// Whether the language of a sigil comes from its script's shebang: only
/// for an existing script file, with no declared language, on Windows.
pub fn needs_shebang_detection(declared: &Option<String>, is_file: bool, windows: bool) -> (r: bool)
    ensures
        r == (is_file && declared is None && windows),
{
    is_file && declared.is_none() && windows
}

/// The language a sigil runs in: the declared one, else the detected one,
/// else `shell`.
pub fn resolve_language(declared: &Option<String>, detected: Option<String>) -> (lang: String)
    ensures
        lang@ == match declared {
            Some(d) => d@,
            None => match detected {
                Some(x) => x@,
                None => "shell"@,
            },
        },
{
    match declared {
        Some(d) => d.clone(),
        None => match detected {
            Some(x) => x,
            None => String::from_str("shell"),
        },
    }
}

} // verus!
