//! Canonical text of documents: newlines normalised, common indentation removed, trimmed.
use vstd::prelude::*;

use crate::order::strs_view;
use crate::text::{blank, is_blank, join, join_spec, lemma_trim_facts, replace, replace_spec, trim, trim_spec};

verus! {

broadcast use vstd::std_specs::vec::group_vec_axioms;

/// A canonical SDL that is not empty is not blank either: it starts with a character that is
/// not whitespace.
pub proof fn lemma_canonical_sdl_not_blank(input: Seq<char>)
    ensures
        canonicalize_sdl_spec(input).len() > 0 ==> trim_spec(canonicalize_sdl_spec(input)).len() > 0,
{
    let lines = split_on(normalize_newlines_spec(input), '\n');
    let indent: nat = match min_indent(lines) {
        Some(x) => x,
        None => 0,
    };
    let joined = join_spec(Seq::new(lines.len(), |i: int| dedented_line(lines[i], indent)), "\n"@);
    lemma_trim_facts(joined);
    let d = dedent_and_trim_spec(input);
    assert(d == trim_spec(joined));
    if d.len() > 0 {
        let c = d + "\n"@;
        lemma_trim_facts(c);
        assert(c[0] == d[0]);
    }
}

/// `\r\n` and lone `\r` written as `\n`.
pub open spec fn normalize_newlines_spec(s: Seq<char>) -> Seq<char> {
    replace_spec(replace_spec(s, "\r\n"@, "\n"@), "\r"@, "\n"@)
}

/// `s.split(sep)`: the pieces between separators, empty ones included.
pub open spec fn split_on(s: Seq<char>, sep: char) -> Seq<Seq<char>>
    decreases s.len(),
{
    if s.len() == 0 {
        seq![Seq::empty()]
    } else {
        let rest = split_on(s.drop_last(), sep);
        if s.last() == sep {
            rest.push(Seq::empty())
        } else {
            rest.update(rest.len() - 1, rest.last().push(s.last()))
        }
    }
}

pub proof fn lemma_split_on_nonempty(s: Seq<char>, sep: char)
    ensures
        split_on(s, sep).len() > 0,
    decreases s.len(),
{
    if s.len() > 0 {
        lemma_split_on_nonempty(s.drop_last(), sep);
    }
}

/// The number of spaces and tabs a line starts with.
pub open spec fn leading_ws(line: Seq<char>) -> nat
    decreases line.len(),
{
    if line.len() > 0 && (line[0] == ' ' || line[0] == '\t') {
        1 + leading_ws(line.drop_first())
    } else {
        0
    }
}

/// The least indentation among the lines that are not blank.
pub open spec fn min_indent(lines: Seq<Seq<char>>) -> Option<nat>
    decreases lines.len(),
{
    if lines.len() == 0 {
        None
    } else {
        let m = min_indent(lines.drop_last());
        let l = lines.last();
        if blank(l) {
            m
        } else {
            Some(
                match m {
                    None => leading_ws(l),
                    Some(x) => if x <= leading_ws(l) { x } else { leading_ws(l) },
                },
            )
        }
    }
}

/// A line without its first `indent` spaces and tabs (fewer when it has fewer).
pub open spec fn strip_indent_spec(line: Seq<char>, indent: nat) -> Seq<char> {
    let k = if indent <= leading_ws(line) { indent } else { leading_ws(line) };
    line.subrange(k as int, line.len() as int)
}

/// A line as it is kept: empty when blank, else without the common indentation.
pub open spec fn dedented_line(line: Seq<char>, indent: nat) -> Seq<char> {
    if blank(line) {
        Seq::empty()
    } else {
        strip_indent_spec(line, indent)
    }
}

/// The text with normalised newlines, the common indentation of its non-blank lines removed,
/// blank lines emptied, and surrounding whitespace trimmed.
pub open spec fn dedent_and_trim_spec(input: Seq<char>) -> Seq<char> {
    let lines = split_on(normalize_newlines_spec(input), '\n');
    let indent: nat = match min_indent(lines) {
        Some(x) => x,
        None => 0,
    };
    trim_spec(join_spec(Seq::new(lines.len(), |i: int| dedented_line(lines[i], indent)), "\n"@))
}

/// The canonical text of a schema: dedented and trimmed, with one final newline; empty when
/// nothing is left.
pub open spec fn canonicalize_sdl_spec(input: Seq<char>) -> Seq<char> {
    let d = dedent_and_trim_spec(input);
    if d.len() == 0 {
        Seq::empty()
    } else {
        d + "\n"@
    }
}

/// `\r\n` and lone `\r` written as `\n`.
pub fn normalize_newlines(input: &str) -> (r: String)
    ensures
        r@ == normalize_newlines_spec(input@),
{
    proof {
        reveal_strlit("\r\n");
        reveal_strlit("\r");
    }
    let first = replace(input, "\r\n", "\n");
    replace(first.as_str(), "\r", "\n")
}

/// `s.split(sep)` (see `split_on`).
pub fn split_on_char(s: &str, sep: char) -> (r: Vec<String>)
    ensures
        strs_view(r@) == split_on(s@, sep),
{
    let n = s.unicode_len();
    let mut lines: Vec<String> = Vec::new();
    let mut current = String::new();
    let mut i: usize = 0;
    proof {
        assert(s@.subrange(0, 0) =~= Seq::<char>::empty());
        assert(strs_view(lines@).push(current@) =~= seq![Seq::<char>::empty()]);
    }
    while i < n
        invariant
            n == s@.len(),
            i <= n,
            strs_view(lines@).push(current@) == split_on(s@.subrange(0, i as int), sep),
        decreases n - i,
    {
        let c = s.get_char(i);
        let ghost before_lines = strs_view(lines@);
        let ghost before_current = current@;
        proof {
            let pre = s@.subrange(0, i + 1);
            assert(pre.drop_last() =~= s@.subrange(0, i as int));
            assert(pre.last() == c);
        }
        if c == sep {
            lines.push(current);
            current = String::new();
            proof {
                assert(strs_view(lines@) =~= before_lines.push(before_current));
                assert(strs_view(lines@).push(current@) =~= before_lines.push(before_current).push(Seq::<char>::empty()));
            }
        } else {
            let piece = s.substring_char(i, i + 1);
            current.append(piece);
            proof {
                assert(piece@ =~= seq![c]);
                assert(current@ =~= before_current.push(c));
                let rest = before_lines.push(before_current);
                assert(strs_view(lines@).push(current@) =~= rest.update(rest.len() - 1, rest.last().push(c)));
            }
        }
        i += 1;
    }
    lines.push(current);
    proof {
        assert(s@.subrange(0, n as int) =~= s@);
    }
    lines
}

/// The number of spaces and tabs a line starts with.
fn leading_ws_count(line: &str) -> (r: usize)
    ensures
        r == leading_ws(line@),
        r <= line@.len(),
{
    let n = line.unicode_len();
    let mut i: usize = 0;
    assert(line@.subrange(0, n as int) =~= line@);
    while i < n && (line.get_char(i) == ' ' || line.get_char(i) == '\t')
        invariant
            n == line@.len(),
            i <= n,
            leading_ws(line@) == i + leading_ws(line@.subrange(i as int, n as int)),
        decreases n - i,
    {
        proof {
            let rest = line@.subrange(i as int, n as int);
            assert(rest.drop_first() =~= line@.subrange(i + 1, n as int));
        }
        i += 1;
    }
    proof {
        let rest = line@.subrange(i as int, n as int);
        if i < n {
            assert(rest[0] == line@[i as int]);
        }
    }
    i
}

/// A line without its first `indent` spaces and tabs.
pub fn strip_indent(line: &str, indent: usize) -> (r: String)
    ensures
        r@ == strip_indent_spec(line@, indent as nat),
{
    let lead = leading_ws_count(line);
    let k = if indent <= lead { indent } else { lead };
    line.substring_char(k, line.unicode_len()).to_owned()
}

/// The text with newlines normalised, common indentation removed and trimmed (see
/// `dedent_and_trim_spec`).
pub fn dedent_and_trim(input: &str) -> (r: String)
    ensures
        r@ == dedent_and_trim_spec(input@),
{
    let normalized = normalize_newlines(input);
    let lines = split_on_char(normalized.as_str(), '\n');
    let ghost lv = strs_view(lines@);
    let mut found = false;
    let mut least: usize = 0;
    let mut i: usize = 0;
    assert(lv.subrange(0, 0) =~= Seq::<Seq<char>>::empty());
    while i < lines.len()
        invariant
            i <= lines@.len(),
            lv == strs_view(lines@),
            found ==> min_indent(lv.subrange(0, i as int)) == Some(least as nat),
            !found ==> min_indent(lv.subrange(0, i as int)) is None,
        decreases lines.len() - i,
    {
        proof {
            let pre = lv.subrange(0, i + 1);
            assert(pre.drop_last() =~= lv.subrange(0, i as int));
            assert(pre.last() == lines@[i as int]@);
        }
        if !is_blank(lines[i].as_str()) {
            let lead = leading_ws_count(lines[i].as_str());
            if !found || lead < least {
                least = lead;
            }
            found = true;
        }
        i += 1;
    }
    proof {
        assert(lv.subrange(0, lines@.len() as int) =~= lv);
    }
    let indent: usize = if found { least } else { 0 };
    let ghost dl = Seq::new(lv.len(), |k: int| dedented_line(lv[k], indent as nat));
    let mut kept: Vec<String> = Vec::new();
    let mut j: usize = 0;
    while j < lines.len()
        invariant
            j <= lines@.len(),
            lv == strs_view(lines@),
            dl == Seq::new(lv.len(), |k: int| dedented_line(lv[k], indent as nat)),
            strs_view(kept@) == dl.subrange(0, j as int),
        decreases lines.len() - j,
    {
        let line = lines[j].as_str();
        let piece = if is_blank(line) {
            String::new()
        } else {
            strip_indent(line, indent)
        };
        let ghost before = strs_view(kept@);
        kept.push(piece);
        proof {
            assert(lv[j as int] == line@);
            assert(strs_view(kept@) =~= before.push(dl[j as int]));
            assert(dl.subrange(0, j + 1) =~= dl.subrange(0, j as int).push(dl[j as int]));
        }
        j += 1;
    }
    proof {
        assert(dl.subrange(0, lines@.len() as int) =~= dl);
        assert(kept@.map_values(|s: String| s@) =~= strs_view(kept@));
    }
    let joined = join(&kept, "\n");
    trim(joined.as_str())
}

/// The canonical text of a schema (see `canonicalize_sdl_spec`).
pub fn canonicalize_sdl(input: &str) -> (r: String)
    ensures
        r@ == canonicalize_sdl_spec(input@),
{
    let dedented = dedent_and_trim(input);
    if dedented.unicode_len() == 0 {
        String::new()
    } else {
        crate::text::cat2(dedented.as_str(), "\n")
    }
}

} // verus!
