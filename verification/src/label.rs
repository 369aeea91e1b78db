//! Operator-attached labels with Kubernetes-style keys, and `k=v,k=v`
//! selectors over them.

use vstd::prelude::*;
use crate::error::Error;
use crate::text::{
    lemma_split_concat, lead_ws, trail_ws, chars_eq, chars_lt, chars_of, find, find_char, lemma_seq_lt_irrefl, lemma_seq_lt_total,
    lemma_seq_lt_trans, seq_lt, split, split_ranges, trim, trim_bounds,
};

verus! {

/// Characters accepted in a label key: `[A-Za-z0-9-_./]`.
pub open spec fn is_key_char(c: char) -> bool {
    ||| 'a' <= c <= 'z'
    ||| 'A' <= c <= 'Z'
    ||| '0' <= c <= '9'
    ||| c == '-'
    ||| c == '_'
    ||| c == '.'
    ||| c == '/'
}

/// A key whose UTF-8 length is in `1..=253` and made only of key characters.
pub open spec fn valid_key(k: Seq<char>) -> bool {
    &&& k.len() > 0
    &&& vstd::utf8::encode_utf8(k).len() <= 253
    &&& forall|i: int| 0 <= i < k.len() ==> is_key_char(#[trigger] k[i])
}

/// The error `validate_key` gives for `k`, if any.
pub open spec fn key_error(k: Seq<char>) -> Option<&'static str> {
    if k.len() == 0 || vstd::utf8::encode_utf8(k).len() > 253 {
        Some("must be 1..=253 chars")
    } else if !(forall|i: int| 0 <= i < k.len() ==> is_key_char(#[trigger] k[i])) {
        Some("only [A-Za-z0-9-_./] allowed")
    } else {
        None
    }
}

/// The character views of string pairs.
pub open spec fn pairs_view(s: Seq<(String, String)>) -> Seq<(Seq<char>, Seq<char>)> {
    s.map_values(|x: (String, String)| (x.0@, x.1@))
}

/// Keys in strictly increasing code-point order (so also pairwise distinct).
pub open spec fn keys_sorted(e: Seq<(Seq<char>, Seq<char>)>) -> bool {
    forall|i: int, j: int| 0 <= i < j < e.len() ==> seq_lt(#[trigger] e[i].0, #[trigger] e[j].0)
}

/// The map that a list of `(key, value)` pairs with distinct keys denotes.
pub open spec fn pairs_to_map(e: Seq<(Seq<char>, Seq<char>)>) -> Map<Seq<char>, Seq<char>> {
    Map::new(
        |k: Seq<char>| exists|i: int| 0 <= i < e.len() && e[i].0 == k,
        |k: Seq<char>| e[key_index(e, k)].1,
    )
}

/// The position of key `k` among the pairs `e`.
pub open spec fn key_index(e: Seq<(Seq<char>, Seq<char>)>, k: Seq<char>) -> int {
    choose|i: int| 0 <= i < e.len() && e[i].0 == k
}

/// What a selector evaluates to over `m`, given its comma-separated pieces:
/// `Some(b)` for a well-formed answer, `None` for a malformed clause met
/// before any clause failed.
pub open spec fn selector_result(m: Map<Seq<char>, Seq<char>>, pieces: Seq<Seq<char>>) -> Option<
    bool,
>
    decreases pieces.len(),
{
    if pieces.len() == 0 {
        Some(true)
    } else {
        let p = trim(pieces[0]);
        if p.len() == 0 {
            selector_result(m, pieces.drop_first())
        } else {
            match find(p, '=') {
                None => None,
                Some(i) => {
                    let k = p.take(i);
                    let v = p.skip(i + 1);
                    if !(m.contains_key(k) && m[k] == v) {
                        Some(false)
                    } else {
                        selector_result(m, pieces.drop_first())
                    }
                },
            }
        }
    }
}

/// What `Labels::matches_selector` answers for `selector` over `m`.
pub open spec fn selects(m: Map<Seq<char>, Seq<char>>, selector: Seq<char>) -> Option<bool> {
    selector_result(m, split(selector, ','))
}

proof fn lemma_sorted_distinct(e: Seq<(Seq<char>, Seq<char>)>, i: int, j: int)
    requires
        keys_sorted(e),
        0 <= i < e.len(),
        0 <= j < e.len(),
        e[i].0 == e[j].0,
    ensures
        i == j,
{
    if i < j {
        lemma_seq_lt_irrefl(e[i].0);
    } else if j < i {
        lemma_seq_lt_irrefl(e[i].0);
    }
}

proof fn lemma_map_at(e: Seq<(Seq<char>, Seq<char>)>, i: int)
    requires
        keys_sorted(e),
        0 <= i < e.len(),
    ensures
        pairs_to_map(e).contains_key(e[i].0),
        pairs_to_map(e)[e[i].0] == e[i].1,
{
    let k = e[i].0;
    assert(exists|j: int| 0 <= j < e.len() && e[j].0 == k);
    let c = key_index(e, k);
    lemma_sorted_distinct(e, i, c);
    assert(pairs_to_map(e).dom().contains(k));
    assert(pairs_to_map(e)[k] == e[c].1);
}

/// Labels: a map from keys to values, kept ordered by key.
#[derive(Debug)]
pub struct Labels {
    entries: Vec<(String, String)>,
}

impl Labels {
    /// The entries in key order.
    pub closed spec fn pairs(self) -> Seq<(Seq<char>, Seq<char>)> {
        pairs_view(self.entries@)
    }

    #[verifier::type_invariant]
    closed spec fn inv(self) -> bool {
        keys_sorted(self.pairs())
    }
}

impl View for Labels {
    type V = Map<Seq<char>, Seq<char>>;

    open spec fn view(&self) -> Map<Seq<char>, Seq<char>> {
        pairs_to_map(self.pairs())
    }
}

/// Checks a label key: 1 to 253 bytes, only `[A-Za-z0-9-_./]`.
pub fn validate_key(k: &str) -> (r: Result<(), Error>)
    ensures
        match key_error(k@) {
            None => r is Ok,
            Some(reason) => r matches Err(Error::InvalidLabelKey { key, reason: rr }) && key@
                == k@ && rr == reason,
        },
        r is Ok <==> valid_key(k@),
{
    let nbytes = k.as_bytes().len();
    if k.is_empty() || nbytes > 253 {
        return Err(Error::InvalidLabelKey { key: k.to_owned(), reason: "must be 1..=253 chars" });
    }
    let cs = chars_of(k);
    let mut i: usize = 0;
    while i < cs.len()
        invariant
            cs@ == k@,
            i <= cs@.len(),
            !(k@.len() == 0 || vstd::utf8::encode_utf8(k@).len() > 253),
            forall|j: int| 0 <= j < i ==> is_key_char(#[trigger] cs@[j]),
        decreases cs@.len() - i,
    {
        let c = cs[i];
        let ok = ('a' <= c && c <= 'z') || ('A' <= c && c <= 'Z') || ('0' <= c && c <= '9') || c
            == '-' || c == '_' || c == '.' || c == '/';
        if !ok {
            assert(!is_key_char(k@[i as int]));
            assert(!(k@.len() == 0 || vstd::utf8::encode_utf8(k@).len() > 253));
            assert(key_error(k@) == Some("only [A-Za-z0-9-_./] allowed"));
            return Err(
                Error::InvalidLabelKey { key: k.to_owned(), reason: "only [A-Za-z0-9-_./] allowed" },
            );
        }
        i += 1;
    }
    assert(!(k@.len() == 0 || vstd::utf8::encode_utf8(k@).len() > 253));
    assert(forall|j: int| 0 <= j < k@.len() ==> is_key_char(#[trigger] k@[j]));
    Ok(())
}

} // verus!

verus! {

proof fn lemma_map_len(e: Seq<(Seq<char>, Seq<char>)>)
    requires
        keys_sorted(e),
    ensures
        pairs_to_map(e).dom().finite(),
        pairs_to_map(e).len() == e.len(),
    decreases e.len(),
{
    if e.len() == 0 {
        assert(pairs_to_map(e) =~= Map::<Seq<char>, Seq<char>>::empty());
    } else {
        let f = e.drop_last();
        assert(keys_sorted(f));
        lemma_map_len(f);
        assert forall|j: int| 0 <= j < f.len() implies seq_lt(#[trigger] f[j].0, e.last().0) by {
            assert(f[j] == e[j]);
        }
        lemma_insert_at(f, f.len() as int, e.last().0, e.last().1);
        assert(f.insert(f.len() as int, (e.last().0, e.last().1)) =~= e);
        assert(!pairs_to_map(f).contains_key(e.last().0)) by {
            if pairs_to_map(f).contains_key(e.last().0) {
                let i = choose|i: int| 0 <= i < f.len() && f[i].0 == e.last().0;
                lemma_sorted_distinct(e, i, e.len() - 1);
            }
        }
    }
}

proof fn lemma_map_has(e: Seq<(Seq<char>, Seq<char>)>, k: Seq<char>)
    requires
        keys_sorted(e),
    ensures
        pairs_to_map(e).contains_key(k) <==> exists|i: int| 0 <= i < e.len() && e[i].0 == k,
{
}

/// After inserting `(k, v)` at position `p` of sorted pairs, the pairs denote
/// the old map updated at `k`.
proof fn lemma_insert_at(e: Seq<(Seq<char>, Seq<char>)>, p: int, k: Seq<char>, v: Seq<char>)
    requires
        keys_sorted(e),
        0 <= p <= e.len(),
        forall|j: int| 0 <= j < p ==> seq_lt(#[trigger] e[j].0, k),
        p < e.len() ==> seq_lt(k, e[p].0),
    ensures
        keys_sorted(e.insert(p, (k, v))),
        pairs_to_map(e.insert(p, (k, v))) == pairs_to_map(e).insert(k, v),
{
    let f = e.insert(p, (k, v));
    assert forall|i: int, j: int| 0 <= i < j < f.len() implies seq_lt(
        #[trigger] f[i].0,
        #[trigger] f[j].0,
    ) by {
        if j < p {
        } else if j == p {
        } else if i == p {
            if j - 1 > p {
                lemma_seq_lt_trans(k, e[p].0, e[j - 1].0);
            }
        } else if i < p {
            if j - 1 > i {
            }
        } else {
        }
    }
    let m1 = pairs_to_map(f);
    let m2 = pairs_to_map(e).insert(k, v);
    assert forall|x: Seq<char>| m1.contains_key(x) <==> m2.contains_key(x) by {
        lemma_map_has(f, x);
        lemma_map_has(e, x);
        if m2.contains_key(x) && x != k {
            let i = choose|i: int| 0 <= i < e.len() && e[i].0 == x;
            if i < p {
                assert(f[i].0 == x);
            } else {
                assert(f[i + 1].0 == x);
            }
        }
        if x == k {
            assert(f[p].0 == x);
        }
        if m1.contains_key(x) {
            let i = choose|i: int| 0 <= i < f.len() && f[i].0 == x;
            if i < p {
                assert(e[i].0 == x);
            } else if i > p {
                assert(e[i - 1].0 == x);
            }
        }
    }
    assert forall|x: Seq<char>| #[trigger] m1.contains_key(x) implies m1[x] == m2[x] by {
        let i = choose|i: int| 0 <= i < f.len() && f[i].0 == x;
        lemma_map_at(f, i);
        if i < p {
            lemma_map_at(e, i);
            lemma_seq_lt_irrefl(k);
        } else if i > p {
            lemma_map_at(e, i - 1);
            lemma_seq_lt_total(k, x);
            if p < e.len() && i - 1 > p {
                lemma_seq_lt_trans(k, e[p].0, e[i - 1].0);
            }
        }
    }
    assert(m1 =~= m2);
}

/// Replacing the value at position `p`, whose key is `k`, updates the map at `k`.
proof fn lemma_replace_at(e: Seq<(Seq<char>, Seq<char>)>, p: int, k: Seq<char>, v: Seq<char>)
    requires
        keys_sorted(e),
        0 <= p < e.len(),
        e[p].0 == k,
    ensures
        keys_sorted(e.update(p, (k, v))),
        pairs_to_map(e.update(p, (k, v))) == pairs_to_map(e).insert(k, v),
{
    let f = e.update(p, (k, v));
    assert forall|i: int, j: int| 0 <= i < j < f.len() implies seq_lt(
        #[trigger] f[i].0,
        #[trigger] f[j].0,
    ) by {
        assert(f[i].0 == e[i].0);
        assert(f[j].0 == e[j].0);
    }
    let m1 = pairs_to_map(f);
    let m2 = pairs_to_map(e).insert(k, v);
    assert forall|x: Seq<char>| m1.contains_key(x) <==> m2.contains_key(x) by {
        lemma_map_has(f, x);
        lemma_map_has(e, x);
        if m2.contains_key(x) && x != k {
            let i = choose|i: int| 0 <= i < e.len() && e[i].0 == x;
            assert(f[i].0 == x);
        }
        if m2.contains_key(x) && x == k {
            assert(f[p].0 == x);
        }
        if m1.contains_key(x) {
            let i = choose|i: int| 0 <= i < f.len() && f[i].0 == x;
            assert(e[i].0 == x);
        }
    }
    assert forall|x: Seq<char>| #[trigger] m1.contains_key(x) implies m1[x] == m2[x] by {
        let i = choose|i: int| 0 <= i < f.len() && f[i].0 == x;
        lemma_map_at(f, i);
        if i != p {
            lemma_map_at(e, i);
            if x == k {
                lemma_sorted_distinct(e, i, p);
            }
        }
    }
    assert(m1 =~= m2);
}

/// Whether the key at position `i` comes before `kc`.
fn key_before(e: &Vec<(String, String)>, i: usize, kc: &Vec<char>) -> (r: bool)
    requires
        i < e@.len(),
    ensures
        r == seq_lt(e@[i as int].0@, kc@),
{
    let c = chars_of(e[i].0.as_str());
    chars_lt(&c, kc)
}

impl Labels {
    /// An empty label set.
    pub fn new() -> (r: Labels)
        ensures
            r@ == Map::<Seq<char>, Seq<char>>::empty(),
            r.pairs().len() == 0,
    {
        let r = Labels { entries: Vec::new() };
        assert(r@ =~= Map::<Seq<char>, Seq<char>>::empty());
        r
    }

    /// Position of the entry whose key is `key`, if any.
    fn find_key(&self, key: &[char]) -> (r: Option<usize>)
        ensures
            match r {
                Some(i) => i < self.pairs().len() && self.pairs()[i as int].0 == key@
                    && self@.contains_key(key@) && self@[key@] == self.pairs()[i as int].1,
                None => !self@.contains_key(key@),
            },
    {
        proof {
            use_type_invariant(self);
        }
        let mut i: usize = 0;
        while i < self.entries.len()
            invariant
                i <= self.entries@.len(),
                keys_sorted(self.pairs()),
                forall|j: int| 0 <= j < i ==> (#[trigger] self.pairs()[j]).0 != key@,
            decreases self.entries@.len() - i,
        {
            let k = chars_of(self.entries[i].0.as_str());
            if chars_eq(&k, key) {
                proof {
                    lemma_map_at(self.pairs(), i as int);
                }
                return Some(i);
            }
            i += 1;
        }
        proof {
            lemma_map_has(self.pairs(), key@);
        }
        None
    }

    /// The value under `key`, if any.
    pub fn get(&self, key: &str) -> (r: Option<&str>)
        ensures
            match r {
                Some(v) => self@.contains_key(key@) && v@ == self@[key@],
                None => !self@.contains_key(key@),
            },
    {
        let kc = chars_of(key);
        match self.find_key(&kc) {
            Some(i) => Some(self.entries[i].1.as_str()),
            None => None,
        }
    }

    /// Sets `key` to `value` without checking the key.
    fn insert_entry(&mut self, key: String, value: String)
        ensures
            final(self)@ == old(self)@.insert(key@, value@),
    {
        proof {
            use_type_invariant(&*self);
        }
        let ghost old_pairs = self.pairs();
        let kc = chars_of(key.as_str());
        let mut e: Vec<(String, String)> = Vec::new();
        std::mem::swap(&mut e, &mut self.entries);
        assert(pairs_view(e@) == old_pairs);
        let mut i: usize = 0;
        while i < e.len() && key_before(&e, i, &kc)
            invariant
                i <= e@.len(),
                pairs_view(e@) == old_pairs,
                kc@ == key@,
                forall|j: int| 0 <= j < i ==> seq_lt(#[trigger] old_pairs[j].0, key@),
            decreases e@.len() - i,
        {
            i += 1;
        }
        let found = i < e.len() && chars_eq(&chars_of(e[i].0.as_str()), &kc);
        proof {
            if i < e@.len() && !found {
                lemma_seq_lt_total(old_pairs[i as int].0, key@);
            }
        }
        let ghost ins = (key@, value@);
        if found {
            proof {
                lemma_replace_at(old_pairs, i as int, key@, value@);
            }
            e.set(i, (key, value));
            assert(pairs_view(e@) =~= old_pairs.update(
                i as int,
                ins,
            ));
        } else {
            proof {
                lemma_insert_at(old_pairs, i as int, key@, value@);
            }
            e.insert(i, (key, value));
            assert(pairs_view(e@) =~= old_pairs.insert(
                i as int,
                ins,
            ));
        }
        self.entries = e;
    }

    /// Sets `key` to `value` once the key passes [`validate_key`]; on a
    /// rejected key the labels stay as they were.
    pub fn insert(&mut self, key: &str, value: &str) -> (r: Result<(), Error>)
        ensures
            match key_error(key@) {
                None => r is Ok && final(self)@ == old(self)@.insert(key@, value@),
                Some(reason) => r matches Err(Error::InvalidLabelKey { key: kk, reason: rr })
                    && kk@ == key@ && rr == reason && final(self)@ == old(self)@,
            },
    {
        match validate_key(key) {
            Ok(()) => {},
            Err(e) => return Err(e),
        }
        self.insert_entry(key.to_owned(), value.to_owned());
        Ok(())
    }

    /// Builds labels from `(key, value)` pairs as they come, keys unchecked;
    /// a later pair overrides an earlier one with the same key.
    pub fn from_pairs(pairs: &Vec<(String, String)>) -> (r: Labels)
        ensures
            r@ == fold_pairs(pairs_view(pairs@)),
    {
        let ghost src = pairs_view(pairs@);
        let mut r = Labels::new();
        let mut i: usize = 0;
        assert(src.take(0) =~= Seq::<(Seq<char>, Seq<char>)>::empty());
        while i < pairs.len()
            invariant
                i <= pairs@.len(),
                src == pairs_view(pairs@),
                r@ == fold_pairs(src.take(i as int)),
            decreases pairs@.len() - i,
        {
            let k = pairs[i].0.clone();
            let v = pairs[i].1.clone();
            r.insert_entry(k, v);
            assert(src.take(i + 1).drop_last() =~= src.take(i as int));
            i += 1;
        }
        assert(src.take(pairs@.len() as int) =~= src);
        r
    }

    /// The entries in key order, each key once.
    pub fn iter(&self) -> (r: Vec<(String, String)>)
        ensures
            pairs_view(r@) == self.pairs(),
            keys_sorted(self.pairs()),
            pairs_to_map(self.pairs()) == self@,
    {
        proof {
            use_type_invariant(self);
        }
        let mut r: Vec<(String, String)> = Vec::new();
        let mut i: usize = 0;
        while i < self.entries.len()
            invariant
                i <= self.entries@.len(),
                pairs_view(r@) == self.pairs().take(i as int),
            decreases self.entries@.len() - i,
        {
            let k = self.entries[i].0.clone();
            let v = self.entries[i].1.clone();
            let ghost old_r = r@;
            assert(pairs_view(old_r).len() == old_r.len());
            assert(self.pairs().take(i as int).len() == i);
            assert(old_r.len() == i);
            r.push((k, v));
            assert(self.pairs()[i as int] == (self.entries@[i as int].0@, self.entries@[i as int].1@));
            assert forall|j: int| 0 <= j < i implies (#[trigger] r@[j]).0@ == self.pairs()[j].0
                && r@[j].1@ == self.pairs()[j].1 by {
                assert(r@[j] == old_r[j]);
                assert(pairs_view(old_r)[j] == self.pairs().take(i as int)[j]);
            }
            assert(pairs_view(r@) =~= self.pairs().take(
                i + 1,
            ));
            i += 1;
        }
        assert(self.pairs().take(i as int) =~= self.pairs());
        r
    }

    /// Whether the labels satisfy every `key=value` clause of the
    /// comma-separated `selector` (clauses are trimmed; empty ones are
    /// skipped). A clause without `=` is an error unless an earlier clause
    /// already failed.
    pub fn matches_selector(&self, selector: &str) -> (r: Result<bool, Error>)
        ensures
            match selects(self@, selector@) {
                Some(b) => r == Ok::<bool, Error>(b),
                None => r matches Err(Error::InvalidLabelSelector { selector: s, reason })
                    && s@ == selector@ && reason == "expected key=value",
            },
    {
        let cs = chars_of(selector);
        let ranges = split_ranges(cs.as_slice(), ',');
        let ghost pieces = split(cs@, ',');
        let ghost m = self@;
        let mut k: usize = 0;
        assert(pieces.skip(0) =~= pieces);
        while k < ranges.len()
            invariant
                k <= ranges@.len(),
                cs@ == selector@,
                pieces == split(cs@, ','),
                m == self@,
                ranges@.len() == pieces.len(),
                forall|q: int|
                    0 <= q < ranges@.len() ==> {
                        &&& (#[trigger] ranges@[q]).0 <= ranges@[q].1 <= cs@.len()
                        &&& cs@.subrange(ranges@[q].0 as int, ranges@[q].1 as int) == pieces[q]
                    },
                selector_result(m, pieces) == selector_result(m, pieces.skip(k as int)),
            decreases ranges@.len() - k,
        {
            let (a, b) = ranges[k];
            let piece = vstd::slice::slice_subrange(cs.as_slice(), a, b);
            let ghost rest = pieces.skip(k as int);
            assert(rest[0] == pieces[k as int]);
            assert(rest.drop_first() =~= pieces.skip(k + 1));
            let (ta, tb) = trim_bounds(piece);
            if ta < tb {
                let p = vstd::slice::slice_subrange(piece, ta, tb);
                match find_char(p, '=') {
                    None => {
                        return Err(
                            Error::InvalidLabelSelector {
                                selector: selector.to_owned(),
                                reason: "expected key=value",
                            },
                        );
                    },
                    Some(i) => {
                        let key = vstd::slice::slice_subrange(p, 0, i);
                        let val = vstd::slice::slice_subrange(p, i + 1, p.len());
                        assert(key@ =~= p@.take(i as int));
                        assert(val@ =~= p@.skip(i + 1));
                        match self.find_key(key) {
                            None => {
                                return Ok(false);
                            },
                            Some(j) => {
                                let vc = chars_of(self.entries[j].1.as_str());
                                if !chars_eq(vc.as_slice(), val) {
                                    return Ok(false);
                                }
                            },
                        }
                    },
                }
            } else {
                assert(trim(pieces[k as int]).len() == 0);
            }
            k += 1;
        }
        assert(pieces.skip(k as int).len() == 0);
        Ok(true)
    }

    /// A copy of the labels.
    pub fn duplicate(&self) -> (r: Labels)
        ensures
            r@ == self@,
            r.pairs() == self.pairs(),
    {
        let entries = self.iter();
        Labels { entries }
    }

    /// Number of labels.
    pub fn len(&self) -> (r: usize)
        ensures
            r == self.pairs().len(),
            r == self@.len(),
    {
        proof {
            use_type_invariant(self);
            lemma_map_len(self.pairs());
        }
        self.entries.len()
    }
}

impl Default for Labels {
    /// No labels.
    fn default() -> (r: Labels)
        ensures
            r@ == Map::<Seq<char>, Seq<char>>::empty(),
            r.pairs().len() == 0,
    {
        Labels::new()
    }
}

impl Clone for Labels {
    fn clone(&self) -> (r: Labels)
        ensures
            r@ == self@,
    {
        self.duplicate()
    }
}

/// The map that inserting `e`'s pairs one after another gives.
pub open spec fn fold_pairs(e: Seq<(Seq<char>, Seq<char>)>) -> Map<Seq<char>, Seq<char>>
    decreases e.len(),
{
    if e.len() == 0 {
        Map::empty()
    } else {
        fold_pairs(e.drop_last()).insert(e.last().0, e.last().1)
    }
}

} // verus!

verus! {

/// The answer of a selector made of clauses `a` then `b`: the first failing
/// or malformed clause decides; otherwise both hold.
pub open spec fn and_then(first: Option<bool>, second: Option<bool>) -> Option<bool> {
    match first {
        Some(true) => second,
        other => other,
    }
}

proof fn lemma_selector_result_concat(
    m: Map<Seq<char>, Seq<char>>,
    p: Seq<Seq<char>>,
    q: Seq<Seq<char>>,
)
    ensures
        selector_result(m, p + q) == and_then(selector_result(m, p), selector_result(m, q)),
    decreases p.len(),
{
    if p.len() == 0 {
        assert(p + q =~= q);
    } else {
        assert((p + q).drop_first() =~= p.drop_first() + q);
        assert((p + q)[0] == p[0]);
        lemma_selector_result_concat(m, p.drop_first(), q);
    }
}

/// Comma-separated clauses are a conjunction: the selector `a,b` answers
/// as `a` does, unless `a` holds, in which case it answers as `b` does.
pub proof fn law_selector_conjunction(m: Map<Seq<char>, Seq<char>>, a: Seq<char>, b: Seq<char>)
    ensures
        selects(m, a + seq![','] + b) == and_then(selects(m, a), selects(m, b)),
{
    lemma_split_concat(a, b, ',');
    lemma_selector_result_concat(m, split(a, ','), split(b, ','));
}

/// The empty selector accepts every label set.
pub proof fn law_empty_selector_matches(m: Map<Seq<char>, Seq<char>>)
    ensures
        selects(m, Seq::<char>::empty()) == Some(true),
{
    let p = split(Seq::<char>::empty(), ',');
    assert(p =~= seq![Seq::<char>::empty()]);
    assert(lead_ws(p[0]) == 0);
    assert(trail_ws(p[0].skip(0)) == 0);
    assert(trim(p[0]) =~= Seq::<char>::empty());
    assert(p.drop_first() =~= Seq::<Seq<char>>::empty());
    assert(selector_result(m, p.drop_first()) == Some(true));
}

/// Inserting a pair and reading it back: the key now maps to the value and
/// every other key is untouched.
pub proof fn law_insert_then_get(
    before: Map<Seq<char>, Seq<char>>,
    after: Map<Seq<char>, Seq<char>>,
    k: Seq<char>,
    v: Seq<char>,
    other: Seq<char>,
)
    requires
        after == before.insert(k, v),
    ensures
        after.contains_key(k),
        after[k] == v,
        other != k ==> (after.contains_key(other) == before.contains_key(other)),
        other != k && before.contains_key(other) ==> after[other] == before[other],
{
}

/// The label keys that are accepted are exactly those of 1 to 253 UTF-8
/// bytes made only of ASCII letters, digits, `-`, `_`, `.` and `/`; any
/// other character is refused with its reason.
pub proof fn law_key_characters(k: Seq<char>)
    ensures
        key_error(k) is None <==> {
            &&& 0 < k.len()
            &&& vstd::utf8::encode_utf8(k).len() <= 253
            &&& forall|i: int|
                0 <= i < k.len() ==> {
                    let c = #[trigger] k[i];
                    ||| ('a' <= c && c <= 'z')
                    ||| ('A' <= c && c <= 'Z')
                    ||| ('0' <= c && c <= '9')
                    ||| c == '-'
                    ||| c == '_'
                    ||| c == '.'
                    ||| c == '/'
                }
        },
        0 < k.len() && vstd::utf8::encode_utf8(k).len() <= 253 && (exists|i: int|
            0 <= i < k.len() && !({
                let c = #[trigger] k[i];
                ||| ('a' <= c && c <= 'z')
                ||| ('A' <= c && c <= 'Z')
                ||| ('0' <= c && c <= '9')
                ||| c == '-'
                ||| c == '_'
                ||| c == '.'
                ||| c == '/'
            })) ==> key_error(k) == Some("only [A-Za-z0-9-_./] allowed"),
        (k.len() == 0 || vstd::utf8::encode_utf8(k).len() > 253) ==> key_error(k) == Some(
            "must be 1..=253 chars",
        ),
{
}

} // verus!
