//! The parameter set exchanged with git and with the backing helper.
use vstd::prelude::*;

use crate::paramparsing::{line_entry, serialized};
use crate::text::{chars_of, lemma_index_of, string_from, trim_range};




verus! {

/// One key and its value, as character sequences.
pub type Pair = (Seq<char>, Seq<char>);

/// Inserts the pairs of `s` into `acc` in order: a later pair overrides an
/// earlier one with the same key.
pub open spec fn insert_all(acc: Map<Seq<char>, Seq<char>>, s: Seq<Pair>) -> Map<Seq<char>, Seq<char>>
    decreases s.len(),
{
    if s.len() == 0 {
        acc
    } else {
        insert_all(acc.insert(s[0].0, s[0].1), s.drop_first())
    }
}

pub open spec fn key_absent(s: Seq<Pair>, k: Seq<char>) -> bool {
    forall|i: int| 0 <= i < s.len() ==> (#[trigger] s[i]).0 != k
}

pub open spec fn unique_keys(s: Seq<Pair>) -> bool {
    forall|i: int, j: int| 0 <= i < j < s.len() ==> (#[trigger] s[i]).0 != (#[trigger] s[j]).0
}

pub proof fn lemma_insert_all_absent(acc: Map<Seq<char>, Seq<char>>, s: Seq<Pair>, k: Seq<char>)
    requires
        key_absent(s, k),
    ensures
        insert_all(acc, s).contains_key(k) == acc.contains_key(k),
        acc.contains_key(k) ==> insert_all(acc, s)[k] == acc[k],
    decreases s.len(),
{
    if s.len() > 0 {
        assert(s[0].0 != k);
        assert forall|i: int| 0 <= i < s.drop_first().len() implies (#[trigger] s.drop_first()[i]).0 != k by {
            assert(s.drop_first()[i] == s[i + 1]);
        }
        lemma_insert_all_absent(acc.insert(s[0].0, s[0].1), s.drop_first(), k);
    }
}

pub proof fn lemma_insert_all_lookup(acc: Map<Seq<char>, Seq<char>>, s: Seq<Pair>, i: int)
    requires
        unique_keys(s),
        0 <= i < s.len(),
    ensures
        insert_all(acc, s).contains_key(s[i].0),
        insert_all(acc, s)[s[i].0] == s[i].1,
    decreases s.len(),
{
    let rest = s.drop_first();
    assert(unique_keys(rest)) by {
        assert forall|a: int, b: int| 0 <= a < b < rest.len() implies (#[trigger] rest[a]).0 != (#[trigger] rest[b]).0 by {
            assert(rest[a] == s[a + 1] && rest[b] == s[b + 1]);
        }
    }
    if i == 0 {
        assert forall|j: int| 0 <= j < rest.len() implies (#[trigger] rest[j]).0 != s[0].0 by {
            assert(rest[j] == s[j + 1]);
        }
        lemma_insert_all_absent(acc.insert(s[0].0, s[0].1), rest, s[0].0);
    } else {
        assert(rest[i - 1] == s[i]);
        lemma_insert_all_lookup(acc.insert(s[0].0, s[0].1), rest, i - 1);
    }
}

pub proof fn lemma_insert_all_push(acc: Map<Seq<char>, Seq<char>>, s: Seq<Pair>, e: Pair)
    ensures
        insert_all(acc, s.push(e)) == insert_all(acc, s).insert(e.0, e.1),
    decreases s.len(),
{
    if s.len() == 0 {
        assert(s.push(e).drop_first() == Seq::<Pair>::empty());
        assert(s.push(e)[0] == e);
        assert(insert_all(acc.insert(e.0, e.1), Seq::<Pair>::empty()) == acc.insert(e.0, e.1));
    } else {
        assert(s.push(e).drop_first() == s.drop_first().push(e));
        assert(s.push(e)[0] == s[0]);
        lemma_insert_all_push(acc.insert(s[0].0, s[0].1), s.drop_first(), e);
    }
}

proof fn lemma_insert_all_commute(m: Map<Seq<char>, Seq<char>>, s: Seq<Pair>, k: Seq<char>, x: Seq<char>)
    requires
        key_absent(s, k),
    ensures
        insert_all(m.insert(k, x), s) == insert_all(m, s).insert(k, x),
    decreases s.len(),
{
    if s.len() > 0 {
        assert(s[0].0 != k);
        assert(m.insert(k, x).insert(s[0].0, s[0].1) == m.insert(s[0].0, s[0].1).insert(k, x));
        assert forall|i: int| 0 <= i < s.drop_first().len() implies (#[trigger] s.drop_first()[i]).0 != k by {
            assert(s.drop_first()[i] == s[i + 1]);
        }
        lemma_insert_all_commute(m.insert(s[0].0, s[0].1), s.drop_first(), k, x);
    }
}

pub proof fn lemma_insert_all_update(acc: Map<Seq<char>, Seq<char>>, s: Seq<Pair>, j: int, v: Seq<char>)
    requires
        unique_keys(s),
        0 <= j < s.len(),
    ensures
        insert_all(acc, s.update(j, (s[j].0, v))) == insert_all(acc, s).insert(s[j].0, v),
    decreases s.len(),
{
    let k = s[j].0;
    let t = s.update(j, (k, v));
    let rest = s.drop_first();
    assert(unique_keys(rest)) by {
        assert forall|a: int, b: int| 0 <= a < b < rest.len() implies (#[trigger] rest[a]).0 != (#[trigger] rest[b]).0 by {
            assert(rest[a] == s[a + 1] && rest[b] == s[b + 1]);
        }
    }
    if j == 0 {
        assert(t.drop_first() == rest);
        assert forall|i: int| 0 <= i < rest.len() implies (#[trigger] rest[i]).0 != k by {
            assert(rest[i] == s[i + 1]);
        }
        lemma_insert_all_commute(acc, rest, k, v);
        lemma_insert_all_commute(acc, rest, k, s[0].1);
        assert(acc.insert(k, s[0].1).insert(k, v) == acc.insert(k, v));
        assert(insert_all(acc, rest).insert(k, s[0].1).insert(k, v) == insert_all(acc, rest).insert(k, v));
    } else {
        assert(t.drop_first() == rest.update(j - 1, (k, v)));
        assert(rest[j - 1] == s[j]);
        lemma_insert_all_update(acc.insert(s[0].0, s[0].1), rest, j - 1, v);
    }
}

pub proof fn lemma_insert_all_size(s: Seq<Pair>)
    requires
        unique_keys(s),
    ensures
        insert_all(Map::empty(), s).dom().finite(),
        insert_all(Map::empty(), s).dom().len() == s.len(),
    decreases s.len(),
{
    if s.len() > 0 {
        let init = s.drop_last();
        let e = s.last();
        assert(s == init.push(e));
        assert(unique_keys(init)) by {
            assert forall|a: int, b: int| 0 <= a < b < init.len() implies (#[trigger] init[a]).0 != (#[trigger] init[b]).0 by {
                assert(init[a] == s[a] && init[b] == s[b]);
            }
        }
        assert forall|i: int| 0 <= i < init.len() implies (#[trigger] init[i]).0 != e.0 by {
            assert(init[i] == s[i]);
        }
        lemma_insert_all_size(init);
        lemma_insert_all_absent(Map::empty(), init, e.0);
        lemma_insert_all_push(Map::empty(), init, e);
    } else {
        assert(insert_all(Map::empty(), s).dom() =~= Set::empty());
    }
}

/// A line of the exchange format that could not be read as `key=value`.
#[derive(Debug, Clone, PartialEq, Eq)]
pub struct ParamParserError {
    data: String,
}

impl ParamParserError {
    pub fn new(data: String) -> (r: ParamParserError)
        ensures
            r@ == data@,
    {
        ParamParserError { data }
    }

    /// The message shown for the error.
    pub fn message(&self) -> (r: String)
        ensures
            r@ == "Failed to parse parameter. Data "@ + self@,
    {
        let mut r = "Failed to parse parameter. Data ".to_owned();
        r.append(self.data.as_str());
        r
    }

    /// The offending line.
    pub fn data(&self) -> (r: &String)
        ensures
            r@ == self@,
    {
        &self.data
    }
}

impl View for ParamParserError {
    type V = Seq<char>;

    closed spec fn view(&self) -> Seq<char> {
        self.data@
    }
}

/// A set of named values: each key stands once.
pub struct Params {
    entries: Vec<(String, String)>,
}

impl Params {
    /// The pairs in the order they were first added.
    pub closed spec fn pairs(&self) -> Seq<Pair> {
        self.entries@.map_values(|e: (String, String)| (e.0@, e.1@))
    }

    /// Each key stands in one entry only.
    pub closed spec fn wf(&self) -> bool {
        unique_keys(self.pairs())
    }

    /// Each entry of a well-formed set is what the set maps its key to.
    pub proof fn lemma_entry_in_view(&self, i: int)
        requires
            self.wf(),
            0 <= i < self.pairs().len(),
        ensures
            self@.contains_key(self.pairs()[i].0),
            self@[self.pairs()[i].0] == self.pairs()[i].1,
    {
        lemma_insert_all_lookup(Map::empty(), self.pairs(), i);
    }

    pub fn new() -> (r: Params)
        ensures
            r.wf(),
            r@ == Map::<Seq<char>, Seq<char>>::empty(),
            r.pairs().len() == 0,
    {
        let r = Params { entries: Vec::new() };
        assert(r.pairs().len() == 0);
        r
    }

    /// Position of `key` among the entries, if it stands there.
    fn find(&self, key: &String) -> (r: Option<usize>)
        ensures
            match r {
                Some(i) => i < self.pairs().len() && self.pairs()[i as int].0 == key@,
                None => key_absent(self.pairs(), key@),
            },
    {
        let mut i: usize = 0;
        while i < self.entries.len()
            invariant
                i <= self.entries@.len(),
                self.pairs().len() == self.entries@.len(),
                forall|j: int| 0 <= j < i ==> (#[trigger] self.pairs()[j]).0 != key@,
            decreases self.entries@.len() - i,
        {
            if self.entries[i].0 == *key {
                return Some(i);
            }
            i = i + 1;
        }
        None
    }

    /// The value stored under `key`.
    pub fn get(&self, key: String) -> (r: Option<&String>)
        requires
            self.wf(),
        ensures
            r.is_some() == self@.contains_key(key@),
            r matches Some(v) ==> v@ == self@[key@],
    {
        match self.find(&key) {
            Some(i) => {
                proof {
                    lemma_insert_all_lookup(Map::empty(), self.pairs(), i as int);
                }
                Some(&self.entries[i].1)
            },
            None => {
                proof {
                    lemma_insert_all_absent(Map::empty(), self.pairs(), key@);
                }
                None
            },
        }
    }

    /// Stores `value` under `name`, replacing what stood there.
    pub fn add(&mut self, name: String, value: String)
        requires
            old(self).wf(),
        ensures
            final(self).wf(),
            final(self)@ == old(self)@.insert(name@, value@),
    {
        match self.find(&name) {
            Some(i) => {
                let ghost s = self.pairs();
                proof {
                    lemma_insert_all_update(Map::empty(), s, i as int, value@);
                }
                self.entries.set(i, (name, value));
                assert(self.pairs() == s.update(i as int, (s[i as int].0, value@)));
                assert(unique_keys(self.pairs())) by {
                    assert forall|a: int, b: int| 0 <= a < b < self.pairs().len() implies
                        (#[trigger] self.pairs()[a]).0 != (#[trigger] self.pairs()[b]).0 by {
                        assert(self.pairs()[a].0 == s[a].0 && self.pairs()[b].0 == s[b].0);
                    }
                }
            },
            None => {
                let ghost s = self.pairs();
                proof {
                    lemma_insert_all_push(Map::empty(), s, (name@, value@));
                }
                self.entries.push((name, value));
                assert(self.pairs() == s.push((name@, value@)));
                assert(unique_keys(self.pairs())) by {
                    assert forall|a: int, b: int| 0 <= a < b < self.pairs().len() implies
                        (#[trigger] self.pairs()[a]).0 != (#[trigger] self.pairs()[b]).0 by {
                        if b == s.len() {
                            assert(self.pairs()[a] == s[a]);
                        } else {
                            assert(self.pairs()[a] == s[a] && self.pairs()[b] == s[b]);
                        }
                    }
                }
            },
        }
    }

    /// Number of entries: the number of keys.
    pub fn len(&self) -> (r: usize)
        ensures
            r == self.pairs().len(),
            self.wf() ==> self@.dom().finite() && r == self@.dom().len(),
    {
        proof {
            if self.wf() {
                lemma_insert_all_size(self.pairs());
            }
        }
        self.entries.len()
    }

    /// The key and value of entry `i`.
    pub fn entry(&self, i: usize) -> (r: (&String, &String))
        requires
            i < self.pairs().len(),
        ensures
            (r.0@, r.1@) == self.pairs()[i as int],
    {
        (&self.entries[i].0, &self.entries[i].1)
    }

    /// Reads `v[lo..hi]` as one line `key=value` and stores it; `false`,
    /// with nothing stored, where the line holds no `=`.
    pub(crate) fn add_line(&mut self, v: &Vec<char>, lo: usize, hi: usize) -> (r: bool)
        requires
            old(self).wf(),
            lo <= hi <= v@.len(),
        ensures
            final(self).wf(),
            match line_entry(v@.subrange(lo as int, hi as int)) {
                Some(e) => r && final(self)@ == old(self)@.insert(e.0, e.1),
                None => !r && final(self)@ == old(self)@,
            },
    {
        let ghost line = v@.subrange(lo as int, hi as int);
        let mut k = lo;
        while k < hi && v[k] != '='
            invariant
                lo <= k <= hi <= v@.len(),
                forall|j: int| lo <= j < k ==> v@[j] != '=',
            decreases hi - k,
        {
            k = k + 1;
        }
        proof {
            assert forall|j: int| 0 <= j < k - lo implies #[trigger] line[j] != '=' by {
                assert(line[j] == v@[lo + j]);
            }
            lemma_index_of(line, '=', k - lo);
        }
        if k == hi {
            return false;
        }
        assert(line.take(k - lo) == v@.subrange(lo as int, k as int));
        assert(line.skip(k - lo + 1) == v@.subrange(k + 1, hi as int));
        let (a, b) = trim_range(v, lo, k);
        let (c, d) = trim_range(v, k + 1, hi);
        let name = string_from(v, a, b);
        let value = string_from(v, c, d);
        self.add(name, value);
        true
    }

    /// Reads `s` as one line `key=value` (split on the first `=`, both sides
    /// trimmed) and stores it.
    pub fn add_from_string(&mut self, s: &String) -> (r: Result<(), ParamParserError>)
        requires
            old(self).wf(),
        ensures
            final(self).wf(),
            match line_entry(s@) {
                Some(e) => r is Ok && final(self)@ == old(self)@.insert(e.0, e.1),
                None => r matches Err(err) && err@ == s@ && final(self)@ == old(self)@,
            },
    {
        let v = chars_of(s.as_str());
        assert(v@.subrange(0, v@.len() as int) == s@);
        if self.add_line(&v, 0, v.len()) {
            Ok(())
        } else {
            Err(ParamParserError::new(s.clone()))
        }
    }

    /// Appends to `out` the block that this set is written as.
    pub fn write_to(&self, out: &mut String)
        ensures
            final(out)@ == old(out)@ + serialized(self.pairs()),
    {
        crate::paramparsing::write_to(self, out)
    }

    /// Whether a value is stored under `name`.
    pub fn contains(&self, name: String) -> (r: bool)
        requires
            self.wf(),
        ensures
            r == self@.contains_key(name@),
    {
        self.get(name).is_some()
    }
}

impl View for Params {
    type V = Map<Seq<char>, Seq<char>>;

    open spec fn view(&self) -> Map<Seq<char>, Seq<char>> {
        insert_all(Map::empty(), self.pairs())
    }
}

} // verus!
