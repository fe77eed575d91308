//! `---`-fenced front matter at the head of a Markdown source.

use vstd::prelude::*;
use vstd::string::StrSliceExecFns;

use crate::text::{
    chars_of, find_char, find_char_in, lemma_find_char, lemma_find_char_bounds,
    lemma_seq_less_order, lemma_trim_keeps_chars, lemma_trim_shape, occurs_at, seq_less, trim,
    trim_range, chars_less,
};

verus! {

/// Map from key to value made by inserting the pairs in order: a later pair
/// replaces an earlier one with the same key.
pub open spec fn pairs_map(p: Seq<(Seq<char>, Seq<char>)>) -> Map<Seq<char>, Seq<char>>
    decreases p.len(),
{
    if p.len() == 0 {
        Map::empty()
    } else {
        pairs_map(p.drop_last()).insert(p.last().0, p.last().1)
    }
}

/// No key occurs twice among the pairs.
pub open spec fn keys_distinct(p: Seq<(Seq<char>, Seq<char>)>) -> bool {
    forall|i: int, j: int| 0 <= i < j < p.len() ==> p[i].0 != p[j].0
}

proof fn lemma_pairs_map_lookup(p: Seq<(Seq<char>, Seq<char>)>, k: Seq<char>)
    requires
        keys_distinct(p),
    ensures
        pairs_map(p).dom().contains(k) <==> exists|i: int| 0 <= i < p.len() && p[i].0 == k,
        forall|i: int| 0 <= i < p.len() && p[i].0 == k ==> pairs_map(p)[k] == p[i].1,
    decreases p.len(),
{
    if p.len() > 0 {
        let q = p.drop_last();
        assert(keys_distinct(q));
        lemma_pairs_map_lookup(q, k);
        if exists|i: int| 0 <= i < p.len() && p[i].0 == k {
            let i = choose|i: int| 0 <= i < p.len() && p[i].0 == k;
            if i < p.len() - 1 {
                assert(q[i].0 == k);
            }
        }
        if exists|i: int| 0 <= i < q.len() && q[i].0 == k {
            let i = choose|i: int| 0 <= i < q.len() && q[i].0 == k;
            assert(p[i].0 == k);
        }
    }
}

proof fn lemma_pairs_map_update(p: Seq<(Seq<char>, Seq<char>)>, i: int, v: Seq<char>)
    requires
        keys_distinct(p),
        0 <= i < p.len(),
    ensures
        pairs_map(p.update(i, (p[i].0, v))) == pairs_map(p).insert(p[i].0, v),
        keys_distinct(p.update(i, (p[i].0, v))),
    decreases p.len(),
{
    let k = p[i].0;
    let u = p.update(i, (k, v));
    if i == p.len() - 1 {
        assert(u.drop_last() =~= p.drop_last());
        assert(pairs_map(u) =~= pairs_map(p).insert(k, v));
    } else {
        let q = p.drop_last();
        assert(keys_distinct(q));
        lemma_pairs_map_update(q, i, v);
        assert(u.drop_last() =~= q.update(i, (k, v)));
        assert(p.last().0 != k);
        assert(pairs_map(u) =~= pairs_map(p).insert(k, v));
    }
}

/// Front-matter header: `key: value` pairs with distinct keys.
pub struct FrontMatter {
    entries: Vec<(String, String)>,
}

impl FrontMatter {
    /// The entries as plain values, in the order their keys first appeared.
    pub closed spec fn pairs(&self) -> Seq<(Seq<char>, Seq<char>)> {
        self.entries@.map_values(|e: (String, String)| (e.0@, e.1@))
    }

    /// Well-formedness: no key occurs twice.
    #[verifier::type_invariant]
    closed spec fn wf(&self) -> bool {
        keys_distinct(self.pairs())
    }

    /// An empty header.
    pub fn new() -> (m: Self)
        ensures
            m@ == Map::<Seq<char>, Seq<char>>::empty(),
    {
        let m = FrontMatter { entries: Vec::new() };
        assert(m.pairs() =~= Seq::<(Seq<char>, Seq<char>)>::empty());
        m
    }

    /// Sets `key` to `value`, replacing an earlier value of `key`.
    pub fn insert(&mut self, key: String, value: String)
        ensures
            final(self)@ == old(self)@.insert(key@, value@),
    {
        proof {
            use_type_invariant(&*self);
        }
        let ghost p = self.pairs();
        let ghost kv = key@;
        let ghost vv = value@;
        proof {
            lemma_pairs_map_lookup(p, kv);
        }
        let mut entries: Vec<(String, String)> = Vec::new();
        std::mem::swap(&mut entries, &mut self.entries);
        assert(entries@.map_values(|e: (String, String)| (e.0@, e.1@)) == p);
        let mut i: usize = 0;
        let mut found = false;
        while i < entries.len()
            invariant_except_break
                !found,
            invariant
                entries@.map_values(|e: (String, String)| (e.0@, e.1@)) == p,
                kv == key@,
                keys_distinct(p),
                i <= entries.len(),
                forall|j: int| 0 <= j < i ==> p[j].0 != kv,
            ensures
                i <= entries.len(),
                entries@.map_values(|e: (String, String)| (e.0@, e.1@)) == p,
                found ==> i < entries.len() && p[i as int].0 == kv,
                !found ==> forall|j: int| 0 <= j < entries.len() ==> p[j].0 != kv,
            decreases entries.len() - i,
        {
            assert(p[i as int] == (entries@[i as int].0@, entries@[i as int].1@));
            if entries[i].0 == key {
                found = true;
                break;
            }
            i += 1;
        }
        if found {
            entries.set(i, (key, value));
            proof {
                lemma_pairs_map_update(p, i as int, vv);
                assert(entries@.map_values(|e: (String, String)| (e.0@, e.1@)) =~= p.update(
                    i as int,
                    (kv, vv),
                ));
            }
        } else {
            entries.push((key, value));
            proof {
                let q = entries@.map_values(|e: (String, String)| (e.0@, e.1@));
                assert(q =~= p.push((kv, vv)));
                assert(q.drop_last() =~= p);
            }
        }
        self.entries = entries;
    }

    /// Value of `key`, if the header holds it.
    pub fn get(&self, key: &str) -> (r: Option<&String>)
        ensures
            r.is_some() == self@.dom().contains(key@),
            r matches Some(v) ==> v@ == self@[key@],
    {
        proof {
            use_type_invariant(self);
        }
        let k = key.to_owned();
        proof {
            lemma_pairs_map_lookup(self.pairs(), key@);
        }
        let mut i: usize = 0;
        while i < self.entries.len()
            invariant
                k@ == key@,
                self.wf(),
                i <= self.entries.len(),
                forall|j: int| 0 <= j < i ==> self.pairs()[j].0 != key@,
            decreases self.entries.len() - i,
        {
            assert(self.pairs()[i as int] == (self.entries@[i as int].0@, self.entries@[i as int].1@));
            if self.entries[i].0 == k {
                proof {
                    lemma_pairs_map_lookup(self.pairs(), key@);
                }
                return Some(&self.entries[i].1);
            }
            i += 1;
        }
        None
    }

    /// Number of keys.
    pub fn len(&self) -> (n: usize)
        ensures
            n == self@.len(),
    {
        proof {
            use_type_invariant(self);
        }
        proof {
            self.lemma_len();
        }
        self.entries.len()
    }

    /// Whether the header holds no key.
    pub fn is_empty(&self) -> (b: bool)
        ensures
            b == (self@.len() == 0),
            b == (self@ == Map::<Seq<char>, Seq<char>>::empty()),
    {
        proof {
            use_type_invariant(self);
            self.lemma_len();
            if self@.len() == 0 {
                assert(self@.dom() =~= Set::<Seq<char>>::empty()) by {
                    assert(self@.dom().finite());
                    if self@.dom() != Set::<Seq<char>>::empty() {
                        let x = self@.dom().choose();
                        assert(self@.dom().contains(x));
                    }
                }
                assert(self@ =~= Map::<Seq<char>, Seq<char>>::empty());
            }
        }
        self.entries.len() == 0
    }

    proof fn lemma_len(&self)
        requires
            self.wf(),
        ensures
            self@.dom().finite(),
            self@.len() == self.entries@.len(),
    {
        lemma_pairs_map_len(self.pairs());
    }
}

proof fn lemma_pairs_map_len(p: Seq<(Seq<char>, Seq<char>)>)
    requires
        keys_distinct(p),
    ensures
        pairs_map(p).dom().finite(),
        pairs_map(p).len() == p.len(),
    decreases p.len(),
{
    if p.len() > 0 {
        let q = p.drop_last();
        assert(keys_distinct(q));
        lemma_pairs_map_len(q);
        lemma_pairs_map_lookup(q, p.last().0);
        if pairs_map(q).dom().contains(p.last().0) {
            let i = choose|i: int| 0 <= i < q.len() && q[i].0 == p.last().0;
            assert(p[i].0 == p[p.len() - 1].0);
        }
    }
}

/// The pairs are in strictly increasing order of key.
pub open spec fn sorted_by_key(p: Seq<(Seq<char>, Seq<char>)>) -> bool {
    forall|i: int, j: int| 0 <= i < j < p.len() ==> seq_less(#[trigger] p[i].0, #[trigger] p[j].0)
}

/// The pairs of a vector of owned strings, as plain values.
pub open spec fn owned_pairs(v: Seq<(String, String)>) -> Seq<(Seq<char>, Seq<char>)> {
    v.map_values(|e: (String, String)| (e.0@, e.1@))
}

proof fn lemma_pairs_map_insert(q: Seq<(Seq<char>, Seq<char>)>, pos: int, x: (Seq<char>, Seq<char>))
    requires
        0 <= pos <= q.len(),
        forall|j: int| 0 <= j < q.len() ==> q[j].0 != x.0,
    ensures
        pairs_map(q.insert(pos, x)) == pairs_map(q).insert(x.0, x.1),
    decreases q.len(),
{
    let r = q.insert(pos, x);
    if pos == q.len() {
        assert(r =~= q.push(x));
        assert(r.drop_last() =~= q);
    } else {
        let d = q.drop_last();
        lemma_pairs_map_insert(d, pos, x);
        assert(r.drop_last() =~= d.insert(pos, x));
        assert(r.last() == q.last());
        assert(q.last().0 != x.0);
        assert(pairs_map(r) =~= pairs_map(q).insert(x.0, x.1));
    }
}

proof fn lemma_sorted_distinct(q: Seq<(Seq<char>, Seq<char>)>)
    requires
        sorted_by_key(q),
    ensures
        keys_distinct(q),
{
    assert forall|i: int, j: int| 0 <= i < j < q.len() implies q[i].0 != q[j].0 by {
        assert(seq_less(q[i].0, q[j].0));
        lemma_seq_less_order(q[i].0, q[j].0, q[j].0);
    }
}

/// The key of `q[j]` is the key of a pair before `i` in `p`.
spec fn from_earlier(q: Seq<(Seq<char>, Seq<char>)>, p: Seq<(Seq<char>, Seq<char>)>, i: int, j: int) -> bool {
    exists|k: int| 0 <= k < i && q[j].0 == p[k].0
}

impl FrontMatter {
    /// The pairs in increasing order of key, as a `BTreeMap` lists them.
    pub fn sorted_entries(&self) -> (r: Vec<(String, String)>)
        ensures
            sorted_by_key(owned_pairs(r@)),
            pairs_map(owned_pairs(r@)) == self@,
            r@.len() == self@.len(),
    {
        proof {
            use_type_invariant(self);
        }
        let ghost p = self.pairs();
        let mut out: Vec<(String, String)> = Vec::new();
        let mut i: usize = 0;
        assert(owned_pairs(out@) =~= Seq::<(Seq<char>, Seq<char>)>::empty());
        assert(p.take(0) =~= Seq::<(Seq<char>, Seq<char>)>::empty());
        while i < self.entries.len()
            invariant
                p == self.pairs(),
                keys_distinct(p),
                i <= self.entries.len(),
                out@.len() == i,
                sorted_by_key(owned_pairs(out@)),
                pairs_map(owned_pairs(out@)) == pairs_map(p.take(i as int)),
                forall|j: int|
                    0 <= j < out@.len() ==> exists|k: int|
                        0 <= k < i && #[trigger] owned_pairs(out@)[j].0 == p[k].0,
            decreases self.entries.len() - i,
        {
            let ghost q = owned_pairs(out@);
            let key = &self.entries[i].0;
            let kc = chars_of(key.as_str());
            assert(p[i as int] == (self.entries@[i as int].0@, self.entries@[i as int].1@));
            let mut pos: usize = 0;
            while pos < out.len() && chars_less(&chars_of(out[pos].0.as_str()), &kc)
                invariant
                    q == owned_pairs(out@),
                    kc@ == key@,
                    pos <= out@.len(),
                    forall|j: int| 0 <= j < pos ==> seq_less(#[trigger] q[j].0, key@),
                decreases out@.len() - pos,
            {
                assert(q[pos as int] == (out@[pos as int].0@, out@[pos as int].1@));
                pos += 1;
            }
            proof {
                assert forall|j: int| 0 <= j < q.len() implies from_earlier(q, p, i as int, j) by {
                    assert(q[j].0 == owned_pairs(out@)[j].0);
                }
                assert forall|j: int| 0 <= j < q.len() implies q[j].0 != key@ by {
                    let k = choose|k: int| 0 <= k < i && #[trigger] owned_pairs(out@)[j].0 == p[k].0;
                    assert(p[k].0 != p[i as int].0);
                }
                if pos < out@.len() {
                    assert(q[pos as int] == (out@[pos as int].0@, out@[pos as int].1@));
                    assert(!seq_less(q[pos as int].0, key@));
                    lemma_seq_less_order(q[pos as int].0, key@, key@);
                    assert(seq_less(key@, q[pos as int].0));
                }
            }
            let entry = (self.entries[i].0.clone(), self.entries[i].1.clone());
            let ghost x = (entry.0@, entry.1@);
            out.insert(pos, entry);
            proof {
                let r = owned_pairs(out@);
                assert(r =~= q.insert(pos as int, x));
                assert(x == p[i as int]);
                assert forall|a: int, b: int| 0 <= a < b < r.len() implies seq_less(#[trigger] r[a].0, #[trigger] r[b].0) by {
                    if b < pos {
                        assert(r[a] == q[a] && r[b] == q[b]);
                    } else if b == pos {
                        assert(r[a] == q[a]);
                    } else if a == pos {
                        assert(r[b] == q[b - 1]);
                        if b - 1 > pos {
                            assert(seq_less(q[pos as int].0, q[b - 1].0));
                            lemma_seq_less_order(key@, q[pos as int].0, q[b - 1].0);
                        }
                    } else if a < pos {
                        assert(r[a] == q[a] && r[b] == q[b - 1]);
                    } else {
                        assert(r[a] == q[a - 1] && r[b] == q[b - 1]);
                    }
                }
                lemma_pairs_map_insert(q, pos as int, x);
                assert(p.take(i + 1) =~= p.take(i as int).push(p[i as int]));
                assert(p.take(i + 1).drop_last() =~= p.take(i as int));
                assert forall|j: int| 0 <= j < r.len() implies exists|k: int|
                    0 <= k < i + 1 && #[trigger] r[j].0 == p[k].0 by {
                    if j < pos {
                        assert(r[j] == q[j]);
                        assert(from_earlier(q, p, i as int, j));
                    } else if j > pos {
                        assert(r[j] == q[j - 1]);
                        assert(from_earlier(q, p, i as int, j - 1));
                    } else {
                        assert(r[j].0 == p[i as int].0);
                    }
                }
            }
            i += 1;
        }
        proof {
            assert(p.take(i as int) =~= p);
            lemma_sorted_distinct(owned_pairs(out@));
            lemma_pairs_map_len(owned_pairs(out@));
            lemma_pairs_map_len(p);
        }
        out
    }
}

impl View for FrontMatter {
    type V = Map<Seq<char>, Seq<char>>;

    closed spec fn view(&self) -> Map<Seq<char>, Seq<char>> {
        pairs_map(self.pairs())
    }
}

/// `line` without one trailing carriage return.
pub open spec fn strip_cr(line: Seq<char>) -> Seq<char> {
    if line.len() > 0 && line.last() == '\r' {
        line.drop_last()
    } else {
        line
    }
}

/// The lines of `s` as `str::lines` yields them: split at each `\n`, a `\r`
/// before the `\n` dropped, and no empty line after a final `\n`.
pub open spec fn lines_of(s: Seq<char>) -> Seq<Seq<char>>
    decreases s.len(),
{
    if s.len() == 0 {
        seq![]
    } else {
        let i = find_char(s, '\n');
        if i >= s.len() {
            seq![s]
        } else {
            proof {
                lemma_find_char_bounds(s, '\n');
            }
            seq![strip_cr(s.take(i))] + lines_of(s.skip(i + 1))
        }
    }
}

/// `m` after a header line: a line with a `:` sets the trimmed text before the
/// first `:` to the trimmed text after it; other lines leave `m` as it is.
pub open spec fn with_header_line(m: Map<Seq<char>, Seq<char>>, line: Seq<char>) -> Map<
    Seq<char>,
    Seq<char>,
> {
    let i = find_char(line, ':');
    if i < line.len() {
        m.insert(trim(line.take(i)), trim(line.skip(i + 1)))
    } else {
        m
    }
}

/// `m` after the header lines, in order.
pub open spec fn with_header_lines(m: Map<Seq<char>, Seq<char>>, lines: Seq<Seq<char>>) -> Map<
    Seq<char>,
    Seq<char>,
>
    decreases lines.len(),
{
    if lines.len() == 0 {
        m
    } else {
        with_header_lines(with_header_line(m, lines[0]), lines.drop_first())
    }
}

/// `s` without its leading `\n` characters.
pub open spec fn skip_newlines(s: Seq<char>) -> Seq<char>
    decreases s.len(),
{
    if s.len() > 0 && s[0] == '\n' {
        skip_newlines(s.drop_first())
    } else {
        s
    }
}

/// Index of the first occurrence of `p` in `s`.
pub open spec fn find_seq(s: Seq<char>, p: Seq<char>) -> Option<int>
    decreases s.len(),
{
    if s.len() < p.len() {
        None
    } else if s.take(p.len() as int) == p {
        Some(0)
    } else if s.len() == 0 {
        None
    } else {
        match find_seq(s.drop_first(), p) {
            Some(i) => Some(i + 1),
            None => None,
        }
    }
}

proof fn lemma_find_seq(s: Seq<char>, p: Seq<char>, k: Option<int>)
    requires
        p.len() > 0,
        k matches Some(i) ==> occurs_at(s, p, i),
        forall|j: int| #![trigger occurs_at(s, p, j)] (k matches Some(i) ==> j < i) ==> !occurs_at(s, p, j),
    ensures
        find_seq(s, p) == k,
    decreases s.len(),
{
    if s.len() < p.len() {
        if let Some(i) = k {
            assert(occurs_at(s, p, i));
        }
    } else if s.take(p.len() as int) == p {
        assert(s.subrange(0, p.len() as int) == s.take(p.len() as int));
        assert(occurs_at(s, p, 0));
    } else {
        assert(!occurs_at(s, p, 0)) by {
            assert(s.subrange(0, p.len() as int) == s.take(p.len() as int));
        }
        let t = s.drop_first();
        let k2: Option<int> = match k {
            Some(i) => Some(i - 1),
            None => None,
        };
        if let Some(i) = k {
            assert(i != 0);
            assert(t.subrange(i - 1, i - 1 + p.len()) =~= s.subrange(i, i + p.len()));
        }
        assert forall|j: int| #![trigger occurs_at(t, p, j)] (k2 matches Some(i) ==> j < i) implies !occurs_at(t, p, j) by {
            if occurs_at(t, p, j) {
                assert(t.subrange(j, j + p.len()) =~= s.subrange(j + 1, j + 1 + p.len()));
                assert(occurs_at(s, p, j + 1));
            }
        }
        lemma_find_seq(t, p, k2);
    }
}

proof fn lemma_skip_newlines_step(s: Seq<char>, b: int)
    requires
        0 <= b < s.len(),
        s[b] == '\n',
    ensures
        skip_newlines(s.skip(b)) == skip_newlines(s.skip(b + 1)),
{
    assert(s.skip(b).drop_first() =~= s.skip(b + 1));
}

proof fn lemma_lines_step(s: Seq<char>, ls: int, i: int, j: int, m: Map<Seq<char>, Seq<char>>)
    requires
        0 <= ls <= i < j <= s.len(),
        s[i] == '\n',
        forall|x: int| ls <= x < i ==> s[x] != '\n',
    ensures
        with_header_lines(m, lines_of(s.subrange(ls, j))) == with_header_lines(
            with_header_line(m, strip_cr(s.subrange(ls, i))),
            lines_of(s.subrange(i + 1, j)),
        ),
{
    let sub = s.subrange(ls, j);
    lemma_find_char(sub, '\n', i - ls);
    assert(sub.take(i - ls) =~= s.subrange(ls, i));
    assert(sub.skip(i - ls + 1) =~= s.subrange(i + 1, j));
    let l = lines_of(sub);
    assert(l == seq![strip_cr(s.subrange(ls, i))] + lines_of(s.subrange(i + 1, j)));
    assert(l[0] == strip_cr(s.subrange(ls, i)));
    assert(l.drop_first() =~= lines_of(s.subrange(i + 1, j)));
}

proof fn lemma_lines_last(s: Seq<char>, ls: int, j: int, m: Map<Seq<char>, Seq<char>>)
    requires
        0 <= ls <= j <= s.len(),
        forall|x: int| ls <= x < j ==> s[x] != '\n',
    ensures
        with_header_lines(m, lines_of(s.subrange(ls, j))) == if ls < j {
            with_header_line(m, s.subrange(ls, j))
        } else {
            m
        },
{
    let sub = s.subrange(ls, j);
    if ls < j {
        lemma_find_char(sub, '\n', j - ls);
        let l = lines_of(sub);
        assert(l == seq![sub]);
        assert(l.drop_first() =~= Seq::<Seq<char>>::empty());
        assert(with_header_lines(with_header_line(m, sub), l.drop_first()) == with_header_line(m, sub));
    } else {
        assert(sub.len() == 0);
    }
}

/// The `---` that opens a front-matter header.
pub open spec fn opening_fence() -> Seq<char> {
    seq!['-', '-', '-']
}

/// The newline and `---` that close a front-matter header.
pub open spec fn closing_fence() -> Seq<char> {
    seq!['\n', '-', '-', '-']
}

/// Header pairs and body of a Markdown source: when `source` starts with
/// `---` and a later `\n---` closes the header, the header's `key: value`
/// lines and the text after the closing fence without its leading newlines;
/// otherwise no pairs and the whole source.
pub open spec fn front_matter_parts(source: Seq<char>) -> (Map<Seq<char>, Seq<char>>, Seq<char>) {
    if source.len() >= 3 && source.take(3) == opening_fence() {
        let rest = source.skip(3);
        match find_seq(rest, closing_fence()) {
            Some(k) => (
                with_header_lines(Map::empty(), lines_of(rest.take(k))),
                skip_newlines(rest.skip(k + 4)),
            ),
            None => (Map::empty(), source),
        }
    } else {
        (Map::empty(), source)
    }
}

/// Adds the header line `cs[from..to]` of `source` to `meta`.
fn add_header_line(meta: &mut FrontMatter, source: &str, cs: &Vec<char>, from: usize, to: usize)
    requires
        cs@ == source@,
        from <= to <= cs.len(),
    ensures
        final(meta)@ == with_header_line(old(meta)@, source@.subrange(from as int, to as int)),
{
    let ghost line = source@.subrange(from as int, to as int);
    let colon = find_char_in(cs, from, to, ':');
    if colon < to {
        let (ka, kb) = trim_range(cs, from, colon);
        let (va, vb) = trim_range(cs, colon + 1, to);
        let key = source.substring_char(ka, kb).to_owned();
        let value = source.substring_char(va, vb).to_owned();
        proof {
            assert(line.take(colon - from) =~= cs@.subrange(from as int, colon as int));
            assert(line.skip(colon - from + 1) =~= cs@.subrange(colon + 1, to as int));
        }
        meta.insert(key, value);
    }
}

/// Split an optional `---`-fenced front-matter header off a Markdown source.
///
/// Returns the `key: value` pairs from the header (empty when there is no
/// front matter) and the remaining Markdown body.
pub fn split_front_matter<'a>(source: &'a str) -> (r: (FrontMatter, &'a str))
    ensures
        r.0@ == front_matter_parts(source@).0,
        r.1@ == front_matter_parts(source@).1,
{
    let cs = chars_of(source);
    let n = cs.len();
    let mut meta = FrontMatter::new();
    if !(n >= 3 && cs[0] == '-' && cs[1] == '-' && cs[2] == '-') {
        proof {
            if source@.len() >= 3 {
                assert(source@.take(3) != opening_fence()) by {
                    if source@.take(3) == opening_fence() {
                        assert(source@.take(3)[1] == source@[1]);
                        assert(source@.take(3)[2] == source@[2]);
                        assert(source@.take(3)[0] == source@[0]);
                    }
                }
            }
        }
        return (meta, source);
    }
    assert(source@.take(3) =~= opening_fence());
    let ghost rest = source@.skip(3);
    // The closing fence: first `\n---` after the opening one.
    let mut j: usize = 3;
    let mut found = false;
    while n - j >= 4
        invariant_except_break
            !found,
        invariant
            cs@ == source@,
            n == cs.len(),
            rest == source@.skip(3),
            3 <= j <= n,
            forall|x: int| #![trigger occurs_at(rest, closing_fence(), x)] 0 <= x < j - 3 ==> !occurs_at(rest, closing_fence(), x),
        ensures
            3 <= j <= n,
            forall|x: int| #![trigger occurs_at(rest, closing_fence(), x)] 0 <= x < j - 3 ==> !occurs_at(rest, closing_fence(), x),
            found ==> occurs_at(rest, closing_fence(), j - 3),
            !found ==> j + 4 > n,
        decreases n - j,
    {
        proof {
            assert(rest.subrange(j - 3, j + 1) =~= cs@.subrange(j as int, j + 4));
        }
        if cs[j] == '\n' && cs[j + 1] == '-' && cs[j + 2] == '-' && cs[j + 3] == '-' {
            assert(rest.subrange(j - 3, j + 1) =~= closing_fence());
            found = true;
            break;
        }
        proof {
            if occurs_at(rest, closing_fence(), j - 3) {
                assert(rest.subrange(j - 3, j + 1)[0] == cs@[j as int]);
                assert(rest.subrange(j - 3, j + 1)[1] == cs@[j + 1]);
                assert(rest.subrange(j - 3, j + 1)[2] == cs@[j + 2]);
                assert(rest.subrange(j - 3, j + 1)[3] == cs@[j + 3]);
            }
        }
        j += 1;
    }
    if !found {
        proof {
            lemma_find_seq(rest, closing_fence(), None);
        }
        return (FrontMatter::new(), source);
    }
    proof {
        lemma_find_seq(rest, closing_fence(), Some(j - 3));
    }
    // Header lines: the text between the fences.
    let ghost header = rest.take(j - 3);
    assert(header =~= source@.subrange(3, j as int));
    let mut ls: usize = 3;
    let mut i: usize = 3;
    while i < j
        invariant
            cs@ == source@,
            n == cs.len(),
            3 <= ls <= i <= j,
            j + 4 <= n,
            header == source@.subrange(3, j as int),
            forall|x: int| ls <= x < i ==> source@[x] != '\n',
            with_header_lines(Map::empty(), lines_of(header)) == with_header_lines(
                meta@,
                lines_of(source@.subrange(ls as int, j as int)),
            ),
        decreases j - i,
    {
        if cs[i] == '\n' {
            let end = if i > ls && cs[i - 1] == '\r' {
                i - 1
            } else {
                i
            };
            proof {
                lemma_lines_step(source@, ls as int, i as int, j as int, meta@);
                let l = source@.subrange(ls as int, i as int);
                assert(strip_cr(l) =~= source@.subrange(ls as int, end as int));
            }
            add_header_line(&mut meta, source, &cs, ls, end);
            ls = i + 1;
        }
        i += 1;
    }
    proof {
        lemma_lines_last(source@, ls as int, j as int, meta@);
    }
    if ls < j {
        add_header_line(&mut meta, source, &cs, ls, j);
    }
    // Body: after the closing fence, without leading newlines.
    let mut b = j + 4;
    proof {
        assert(rest.skip(j - 3 + 4) =~= source@.skip(b as int));
    }
    while b < n && cs[b] == '\n'
        invariant
            cs@ == source@,
            n == cs.len(),
            j + 4 <= b <= n,
            skip_newlines(rest.skip(j - 3 + 4)) == skip_newlines(source@.skip(b as int)),
        decreases n - b,
    {
        proof {
            lemma_skip_newlines_step(source@, b as int);
        }
        b += 1;
    }
    proof {
        if b < n {
            assert(source@.skip(b as int)[0] == cs@[b as int]);
        }
        assert(source@.skip(b as int) =~= source@.subrange(b as int, n as int));
    }
    let body = source.substring_char(b, n);
    (meta, body)
}

proof fn lemma_skip_newlines_suffix(s: Seq<char>)
    ensures
        exists|k: int| 0 <= k <= s.len() && skip_newlines(s) == s.skip(k),
    decreases s.len(),
{
    if s.len() > 0 && s[0] == '\n' {
        lemma_skip_newlines_suffix(s.drop_first());
        let k = choose|k: int| 0 <= k <= s.drop_first().len() && skip_newlines(s.drop_first()) == s.drop_first().skip(k);
        assert(s.drop_first().skip(k) =~= s.skip(k + 1));
    } else {
        assert(s.skip(0) =~= s);
    }
}

/// The body that splitting gives back is the tail of the source: splitting
/// only removes a prefix and never rewrites the Markdown.
pub proof fn lemma_body_is_suffix(source: Seq<char>)
    ensures
        exists|k: int|
            0 <= k <= source.len() && front_matter_parts(source).1 == source.skip(k),
{
    if source.len() >= 3 && source.take(3) == opening_fence() {
        let rest = source.skip(3);
        match find_seq(rest, closing_fence()) {
            Some(k) => {
                lemma_find_seq_bounds(rest, closing_fence());
                let t = rest.skip(k + 4);
                lemma_skip_newlines_suffix(t);
                let j = choose|j: int| 0 <= j <= t.len() && skip_newlines(t) == t.skip(j);
                assert(t.skip(j) =~= source.skip(3 + k + 4 + j));
            },
            None => {
                assert(source.skip(0) =~= source);
            },
        }
    } else {
        assert(source.skip(0) =~= source);
    }
}

proof fn lemma_find_seq_bounds(s: Seq<char>, p: Seq<char>)
    ensures
        find_seq(s, p) matches Some(i) ==> occurs_at(s, p, i),
    decreases s.len(),
{
    if s.len() >= p.len() && s.take(p.len() as int) == p {
        assert(s.subrange(0, p.len() as int) == s.take(p.len() as int));
    } else if s.len() >= p.len() && s.len() > 0 {
        lemma_find_seq_bounds(s.drop_first(), p);
        if let Some(i) = find_seq(s.drop_first(), p) {
            assert(s.drop_first().subrange(i, i + p.len()) =~= s.subrange(i + 1, i + 1 + p.len()));
        }
    }
}

/// A source that does not start with `---`, or whose header is never closed
/// by a `\n---`, passes through whole with no pairs.
pub proof fn lemma_without_fence_passes_through(source: Seq<char>)
    requires
        !(source.len() >= 3 && source.take(3) == opening_fence()) || find_seq(
            source.skip(3),
            closing_fence(),
        ) is None,
    ensures
        front_matter_parts(source) == (Map::<Seq<char>, Seq<char>>::empty(), source),
{
}

/// Keys and values are trimmed, keys hold no `:` and neither holds a newline.
pub open spec fn clean_pairs(m: Map<Seq<char>, Seq<char>>) -> bool {
    forall|k: Seq<char>|
        #![trigger m.dom().contains(k)]
        m.dom().contains(k) ==> {
            &&& trim(k) == k
            &&& !k.contains(':')
            &&& !k.contains('\n')
            &&& trim(m[k]) == m[k]
            &&& !m[k].contains('\n')
        }
}

proof fn lemma_lines_have_no_newline(s: Seq<char>)
    ensures
        forall|i: int| 0 <= i < lines_of(s).len() ==> !(#[trigger] lines_of(s)[i]).contains('\n'),
    decreases s.len(),
{
    if s.len() > 0 {
        lemma_find_char_bounds(s, '\n');
        let i = find_char(s, '\n');
        if i < s.len() {
            lemma_lines_have_no_newline(s.skip(i + 1));
            let first = s.take(i);
            assert(!first.contains('\n')) by {
                if first.contains('\n') {
                    let j = choose|j: int| 0 <= j < first.len() && first[j] == '\n';
                    assert(s[j] == '\n');
                }
            }
            assert(!strip_cr(first).contains('\n')) by {
                if strip_cr(first).contains('\n') {
                    let j = choose|j: int| 0 <= j < strip_cr(first).len() && strip_cr(first)[j] == '\n';
                    assert(first[j] == '\n');
                }
            }
            let l = lines_of(s);
            assert forall|k: int| 0 <= k < l.len() implies !(#[trigger] l[k]).contains('\n') by {
                if k > 0 {
                    assert(l[k] == lines_of(s.skip(i + 1))[k - 1]);
                }
            }
        } else {
            assert(!s.contains('\n')) by {
                if s.contains('\n') {
                    let j = choose|j: int| 0 <= j < s.len() && s[j] == '\n';
                }
            }
        }
    }
}

proof fn lemma_header_line_clean(m: Map<Seq<char>, Seq<char>>, line: Seq<char>)
    requires
        clean_pairs(m),
        !line.contains('\n'),
    ensures
        clean_pairs(with_header_line(m, line)),
{
    lemma_find_char_bounds(line, ':');
    let i = find_char(line, ':');
    if i < line.len() {
        let before = line.take(i);
        let after = line.skip(i + 1);
        assert(!before.contains(':')) by {
            if before.contains(':') {
                let j = choose|j: int| 0 <= j < before.len() && before[j] == ':';
                assert(line[j] == ':');
            }
        }
        assert(!before.contains('\n')) by {
            if before.contains('\n') {
                let j = choose|j: int| 0 <= j < before.len() && before[j] == '\n';
                assert(line[j] == '\n');
            }
        }
        assert(!after.contains('\n')) by {
            if after.contains('\n') {
                let j = choose|j: int| 0 <= j < after.len() && after[j] == '\n';
                assert(line[i + 1 + j] == '\n');
            }
        }
        lemma_trim_keeps_chars(before, ':');
        lemma_trim_keeps_chars(before, '\n');
        lemma_trim_keeps_chars(after, '\n');
        lemma_trim_shape(before);
        lemma_trim_shape(after);
        let n = with_header_line(m, line);
        assert forall|k: Seq<char>| #![trigger n.dom().contains(k)] n.dom().contains(k) implies {
            &&& trim(k) == k
            &&& !k.contains(':')
            &&& !k.contains('\n')
            &&& trim(n[k]) == n[k]
            &&& !n[k].contains('\n')
        } by {
            if k != trim(before) {
                assert(m.dom().contains(k));
            }
        }
    }
}

proof fn lemma_header_lines_clean(m: Map<Seq<char>, Seq<char>>, lines: Seq<Seq<char>>)
    requires
        clean_pairs(m),
        forall|i: int| 0 <= i < lines.len() ==> !(#[trigger] lines[i]).contains('\n'),
    ensures
        clean_pairs(with_header_lines(m, lines)),
    decreases lines.len(),
{
    if lines.len() > 0 {
        lemma_header_line_clean(m, lines[0]);
        let rest = lines.drop_first();
        assert forall|i: int| 0 <= i < rest.len() implies !(#[trigger] rest[i]).contains('\n') by {
            assert(rest[i] == lines[i + 1]);
        }
        lemma_header_lines_clean(with_header_line(m, lines[0]), rest);
    }
}

/// Every key and value of a split header is already trimmed, keys hold no
/// `:`, and neither keys nor values hold a newline.
pub proof fn lemma_header_pairs_trimmed(source: Seq<char>)
    ensures
        clean_pairs(front_matter_parts(source).0),
{
    let e = Map::<Seq<char>, Seq<char>>::empty();
    assert(clean_pairs(e));
    if source.len() >= 3 && source.take(3) == opening_fence() {
        let rest = source.skip(3);
        if let Some(k) = find_seq(rest, closing_fence()) {
            lemma_lines_have_no_newline(rest.take(k));
            lemma_header_lines_clean(e, lines_of(rest.take(k)));
        }
    }
}

} // verus!
