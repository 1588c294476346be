//! The line-oriented `key=value` exchange format.
use vstd::prelude::*;

use crate::params::{insert_all, Pair, ParamParserError, Params};
use crate::text::{chars_of, index_of, is_ws, lemma_index_of, string_from, trim, trim_end, trim_start, trim_range};

verus! {

/// An entry with an empty key or an empty value is not written out.
pub open spec fn is_written(e: Pair) -> bool {
    e.0.len() > 0 && e.1.len() > 0
}

/// `key=value` and a line break.
pub open spec fn entry_line(e: Pair) -> Seq<char> {
    e.0 + seq!['='] + e.1 + seq!['\n']
}

/// The block that `pairs` is written as: a line for each entry that is
/// written, in order, then one blank line.
pub open spec fn serialized(pairs: Seq<Pair>) -> Seq<char>
    decreases pairs.len(),
{
    if pairs.len() == 0 {
        seq!['\n']
    } else {
        (if is_written(pairs[0]) { entry_line(pairs[0]) } else { Seq::empty() })
            + serialized(pairs.drop_first())
    }
}

/// The entry that one non-blank line stands for: split on its first `=`,
/// both sides trimmed; `None` where the line holds no `=`.
pub open spec fn line_entry(line: Seq<char>) -> Option<Pair> {
    let i = index_of(line, '=');
    if i < 0 {
        None
    } else {
        Some((trim(line.take(i)), trim(line.skip(i + 1))))
    }
}

/// Reads the lines of `s` into `acc` up to the first blank line or the end
/// of `s`; `Err` holds the first line that is not `key=value`.
pub open spec fn parse_text(s: Seq<char>, acc: Map<Seq<char>, Seq<char>>) -> Result<
    Map<Seq<char>, Seq<char>>,
    Seq<char>,
>
    decreases s.len(),
{
    let i = index_of(s, '\n');
    let line = if i < 0 { s } else { s.take(i) };
    if trim(line).len() == 0 {
        Ok(acc)
    } else {
        match line_entry(line) {
            None => Err(line),
            Some(e) => if 0 <= i < s.len() {
                parse_text(s.skip(i + 1), acc.insert(e.0, e.1))
            } else {
                Ok(acc.insert(e.0, e.1))
            },
        }
    }
}

/// What a whole block of text parses to.
pub open spec fn parsed(s: Seq<char>) -> Result<Map<Seq<char>, Seq<char>>, Seq<char>> {
    parse_text(s, Map::empty())
}


/// Whether `line` ends a block: it is empty or all whitespace.
pub fn is_blank_line(line: &str) -> (r: bool)
    ensures
        r == (trim(line@).len() == 0),
{
    let v = chars_of(line);
    assert(v@.subrange(0, v@.len() as int) == line@);
    let (a, b) = trim_range(&v, 0, v.len());
    a == b
}

/// Appends to `out` the block that `params` is written as.
pub fn write_to(params: &Params, out: &mut String)
    ensures
        final(out)@ == old(out)@ + serialized(params.pairs()),
{
    let ghost s = params.pairs();
    let n = params.len();
    let mut i: usize = 0;
    assert(s.skip(0) == s);
    while i < n
        invariant
            n == s.len(),
            s == params.pairs(),
            i <= n,
            out@ + serialized(s.skip(i as int)) == old(out)@ + serialized(s),
        decreases n - i,
    {
        let (key, value) = params.entry(i);
        assert(s.skip(i as int).drop_first() == s.skip(i + 1));
        assert(s.skip(i as int)[0] == s[i as int]);
        let ghost before = out@;
        if !key.as_str().is_empty() && !value.as_str().is_empty() {
            out.append(key.as_str());
            out.append("=");
            out.append(value.as_str());
            out.append("\n");
            proof {
                reveal_strlit("=");
                reveal_strlit("\n");
                assert(out@ == before + entry_line(s[i as int]));
            }
        } else {
            assert(out@ == before + Seq::<char>::empty());
        }
        i = i + 1;
    }
    assert(s.skip(n as int) == Seq::<Pair>::empty());
    out.append("\n");
    proof {
        reveal_strlit("\n");
    }
}

/// Reads a block from `text`: lines up to the first blank one (or the end),
/// each `key=value`.
pub fn parse_from(text: &str) -> (r: Result<Params, ParamParserError>)
    ensures
        match parsed(text@) {
            Ok(m) => r matches Ok(p) && p.wf() && p@ == m,
            Err(line) => r matches Err(e) && e@ == line,
        },
{
    let v = chars_of(text);
    let mut params = Params::new();
    let mut pos: usize = 0;
    assert(v@.skip(0) == v@);
    loop
        invariant
            pos <= v@.len(),
            v@ == text@,
            params.wf(),
            parse_text(v@.skip(pos as int), params@) == parsed(text@),
        decreases v@.len() - pos,
    {
        let ghost s = v@.skip(pos as int);
        let mut j = pos;
        while j < v.len() && v[j] != '\n'
            invariant
                pos <= j <= v@.len(),
                forall|q: int| pos <= q < j ==> v@[q] != '\n',
            decreases v@.len() - j,
        {
            j = j + 1;
        }
        proof {
            assert forall|q: int| 0 <= q < j - pos implies #[trigger] s[q] != '\n' by {
                assert(s[q] == v@[pos + q]);
            }
            lemma_index_of(s, '\n', j - pos);
        }
        let ghost line = v@.subrange(pos as int, j as int);
        assert(j == v@.len() ==> s == line);
        assert(j < v@.len() ==> s.take(j - pos) == line);
        let (a, b) = trim_range(&v, pos, j);
        if a == b {
            return Ok(params);
        }
        if !params.add_line(&v, pos, j) {
            return Err(ParamParserError::new(string_from(&v, pos, j)));
        }
        if j == v.len() {
            return Ok(params);
        }
        assert(s.skip(j - pos + 1) == v@.skip(j + 1));
        pos = j + 1;
    }
}


/// `s` is not empty, has no whitespace at either end and holds no `c`.
pub open spec fn is_plain(s: Seq<char>, c: char) -> bool {
    &&& s.len() > 0
    &&& !is_ws(s[0])
    &&& !is_ws(s.last())
    &&& forall|q: int| 0 <= q < s.len() ==> #[trigger] s[q] != c && s[q] != '\n'
}

/// A key and value that survive being written and read back.
pub open spec fn survives_exchange(k: Seq<char>, v: Seq<char>) -> bool {
    is_plain(k, '=') && is_plain(v, '\n')
}

proof fn lemma_trim_plain(s: Seq<char>, c: char)
    requires
        is_plain(s, c),
    ensures
        trim(s) == s,
{
    assert(trim_start(s) == s);
    assert(trim_end(s) == s);
}

proof fn lemma_parse_serialized(s: Seq<Pair>, acc: Map<Seq<char>, Seq<char>>)
    requires
        forall|i: int| 0 <= i < s.len() ==> survives_exchange((#[trigger] s[i]).0, s[i].1),
    ensures
        parse_text(serialized(s), acc) == Ok::<Map<Seq<char>, Seq<char>>, Seq<char>>(insert_all(acc, s)),
    decreases s.len(),
{
    let text = serialized(s);
    if s.len() == 0 {
        assert(text == seq!['\n']);
        lemma_index_of(text, '\n', 0);
        assert(text.take(0) == Seq::<char>::empty());
        assert(trim(Seq::<char>::empty()) == Seq::<char>::empty());
    } else {
        let e = s[0];
        let rest = s.drop_first();
        assert(survives_exchange(e.0, e.1));
        let line = e.0 + seq!['='] + e.1;
        let n = line.len() as int;
        assert(is_written(e));
        assert(text == entry_line(e) + serialized(rest));
        assert(text == line + seq!['\n'] + serialized(rest));
        assert forall|q: int| 0 <= q < n implies #[trigger] text[q] != '\n' by {
            assert(text[q] == line[q]);
            if q < e.0.len() {
                assert(line[q] == e.0[q]);
            } else if q > e.0.len() {
                assert(line[q] == e.1[q - e.0.len() - 1]);
            }
        }
        assert(text[n] == '\n');
        lemma_index_of(text, '\n', n);
        assert(text.take(n) == line);
        assert(trim_start(line) == line);
        assert(line.last() == e.1.last());
        assert(trim_end(line) == line);
        assert forall|q: int| 0 <= q < e.0.len() implies #[trigger] line[q] != '=' by {
            assert(line[q] == e.0[q]);
        }
        lemma_index_of(line, '=', e.0.len() as int);
        assert(line.take(e.0.len() as int) == e.0);
        assert(line.skip(e.0.len() as int + 1) == e.1);
        lemma_trim_plain(e.0, '=');
        lemma_trim_plain(e.1, '\n');
        assert(line_entry(line) == Some(e));
        assert(text.skip(n + 1) == serialized(rest));
        assert forall|i: int| 0 <= i < rest.len() implies survives_exchange((#[trigger] rest[i]).0, rest[i].1) by {
            assert(rest[i] == s[i + 1]);
        }
        lemma_parse_serialized(rest, acc.insert(e.0, e.1));
    }
}

/// Writing a parameter set and reading the block back gives the same set,
/// where every key and every value is non-empty, free of line breaks and
/// without whitespace at its ends, and no key holds `=`.
pub proof fn lemma_round_trip(ps: Params)
    requires
        ps.wf(),
        forall|k: Seq<char>| #[trigger] ps@.contains_key(k) ==> survives_exchange(k, ps@[k]),
    ensures
        parsed(serialized(ps.pairs())) == Ok::<Map<Seq<char>, Seq<char>>, Seq<char>>(ps@),
{
    let s = ps.pairs();
    assert forall|i: int| 0 <= i < s.len() implies survives_exchange((#[trigger] s[i]).0, s[i].1) by {
        ps.lemma_entry_in_view(i);
    }
    lemma_parse_serialized(s, Map::empty());
}

} // verus!
