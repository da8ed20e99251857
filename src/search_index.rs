//! A packed in-memory index of normalized paths, searched by substring.
//!
//! The normalized bytes of every path live in one shared buffer; a parallel
//! offset table records where each entry starts. Entries are appended,
//! excised or spliced in place, shifting the offsets that follow.

use crate::text::{
    chars_of, is_white_space, is_white_space_char, norm_bytes, normalize_path, text_equals, text_of,
};
use aho_corasick::{AhoCorasick, BuildError};
use vstd::prelude::*;
use vstd::slice::slice_subrange;

verus! {

/// aho_corasick's automaton, carried opaquely between the calls below.
#[verifier::external_type_specification]
#[verifier::external_body]
pub struct ExAhoCorasick(AhoCorasick);

/// aho_corasick's error for an automaton that could not be built.
#[verifier::external_type_specification]
#[verifier::external_body]
pub struct ExBuildError(BuildError);

/// The patterns a multi-pattern automaton was built over, indexed by pattern id.
pub uninterp spec fn ac_patterns(a: AhoCorasick) -> Seq<Seq<u8>>;

/// The automaton supports unanchored overlapping searches (it was built with
/// standard match semantics and an unanchored start).
pub uninterp spec fn ac_overlapping(a: AhoCorasick) -> bool;

/// Whether an automaton can be built over the given patterns, by pattern id;
/// this depends on the patterns alone.
pub uninterp spec fn ac_builds(patterns: Seq<Seq<u8>>) -> bool;

/// `needle` occurs in `hay` starting at byte `k`.
pub open spec fn occurs_at(hay: Seq<u8>, needle: Seq<u8>, k: int) -> bool {
    0 <= k && k + needle.len() <= hay.len() && hay.subrange(k, k + needle.len()) == needle
}

/// `needle` occurs somewhere in `hay`.
pub open spec fn contains(hay: Seq<u8>, needle: Seq<u8>) -> bool {
    exists|k: int| occurs_at(hay, needle, k)
}

/// Every term occurs somewhere in `text`.
pub open spec fn matches_all(text: Seq<u8>, terms: Seq<Seq<u8>>) -> bool {
    forall|t: int| 0 <= t < terms.len() ==> #[trigger] contains(text, terms[t])
}

/// The ids, in index order, of the entries whose normalized path holds every term.
pub open spec fn matching_ids(entries: Seq<(i64, Seq<char>)>, terms: Seq<Seq<u8>>) -> Seq<i64>
    decreases entries.len(),
{
    if entries.len() == 0 {
        Seq::empty()
    } else {
        let init = matching_ids(entries.drop_last(), terms);
        if matches_all(norm_bytes(entries.last().1), terms) {
            init.push(entries.last().0)
        } else {
            init
        }
    }
}

/// The maximal runs of chars of `s` that are not white space, in order.
pub open spec fn whitespace_tokens(s: Seq<char>) -> Seq<Seq<char>>
    decreases s.len(),
{
    if s.len() == 0 {
        Seq::empty()
    } else {
        let init = whitespace_tokens(s.drop_last());
        let c = s.last();
        if is_white_space(c) {
            init
        } else if s.len() >= 2 && !is_white_space(s[s.len() - 2]) {
            init.update(init.len() - 1, init.last().push(c))
        } else {
            init.push(seq![c])
        }
    }
}

/// The normalized bytes of each query token, leaving out those that normalize
/// to nothing.
pub open spec fn search_terms(tokens: Seq<Seq<char>>) -> Seq<Seq<u8>>
    decreases tokens.len(),
{
    if tokens.len() == 0 {
        Seq::empty()
    } else {
        let init = search_terms(tokens.drop_last());
        let b = norm_bytes(tokens.last());
        if b.len() == 0 {
            init
        } else {
            init.push(b)
        }
    }
}

/// What a query returns over the given entries: nothing when it holds no
/// term, else the ids of the entries that contain every term.
pub open spec fn search_results(entries: Seq<(i64, Seq<char>)>, query: Seq<char>) -> Seq<i64> {
    let terms = search_terms(whitespace_tokens(query));
    if terms.len() == 0 {
        Seq::empty()
    } else {
        matching_ids(entries, terms)
    }
}

/// What `search` returns: the results of the query, except for a query of
/// several tokens whose terms no multi-pattern matcher can be built over,
/// which finds nothing.
pub open spec fn search_outcome(entries: Seq<(i64, Seq<char>)>, query: Seq<char>) -> Seq<i64> {
    let tokens = whitespace_tokens(query);
    let terms = search_terms(tokens);
    if tokens.len() >= 2 && terms.len() > 0 && !ac_builds(terms) {
        Seq::empty()
    } else {
        search_results(entries, query)
    }
}

/// Some entry has path `p`.
pub open spec fn has_path(entries: Seq<(i64, Seq<char>)>, p: Seq<char>) -> bool {
    exists|i: int| 0 <= i < entries.len() && #[trigger] entries[i].1 == p
}

/// Entry `i` is the first one with path `p`.
pub open spec fn first_with_path(entries: Seq<(i64, Seq<char>)>, p: Seq<char>, i: int) -> bool {
    &&& 0 <= i < entries.len()
    &&& entries[i].1 == p
    &&& forall|j: int| 0 <= j < i ==> #[trigger] entries[j].1 != p
}

/// An id is among the matching ids exactly when some entry with that id
/// matches every term.
proof fn lemma_matching_ids_members(entries: Seq<(i64, Seq<char>)>, terms: Seq<Seq<u8>>, x: i64)
    ensures
        matching_ids(entries, terms).contains(x) <==> exists|i: int|
            0 <= i < entries.len() && #[trigger] entries[i].0 == x && matches_all(
                norm_bytes(entries[i].1),
                terms,
            ),
    decreases entries.len(),
{
    if entries.len() > 0 {
        let init = entries.drop_last();
        lemma_matching_ids_members(init, terms, x);
        let r = matching_ids(entries, terms);
        let ri = matching_ids(init, terms);
        let last = entries.last();
        let last_m = matches_all(norm_bytes(last.1), terms);
        let rhs = exists|i: int|
            0 <= i < entries.len() && #[trigger] entries[i].0 == x && matches_all(
                norm_bytes(entries[i].1),
                terms,
            );
        let rhs_init = exists|i: int|
            0 <= i < init.len() && #[trigger] init[i].0 == x && matches_all(
                norm_bytes(init[i].1),
                terms,
            );
        if rhs_init {
            let i = choose|i: int|
                0 <= i < init.len() && #[trigger] init[i].0 == x && matches_all(
                    norm_bytes(init[i].1),
                    terms,
                );
            assert(entries[i] == init[i]);
            assert(rhs);
        }
        if last_m && last.0 == x {
            assert(entries[entries.len() - 1].0 == x);
            assert(rhs);
        }
        if rhs {
            let i = choose|i: int|
                0 <= i < entries.len() && #[trigger] entries[i].0 == x && matches_all(
                    norm_bytes(entries[i].1),
                    terms,
                );
            if i < entries.len() - 1 {
                assert(init[i] == entries[i]);
                assert(rhs_init);
            }
        }
        if last_m {
            assert(r == ri.push(last.0));
            if ri.contains(x) {
                let k = choose|k: int| 0 <= k < ri.len() && ri[k] == x;
                assert(r[k] == x);
            }
            if last.0 == x {
                assert(r[r.len() - 1] == x);
            }
            if r.contains(x) {
                let k = choose|k: int| 0 <= k < r.len() && r[k] == x;
                if k < r.len() - 1 {
                    assert(ri[k] == x);
                }
            }
        } else {
            assert(r == ri);
        }
    }
}

/// Incremental upkeep agrees with a rebuild: two indexes holding the same
/// set of (id, path) entries, in whatever order adds, renames and removals
/// left them, return the same ids for every query.
pub proof fn lemma_search_depends_on_entry_set(
    a: Seq<(i64, Seq<char>)>,
    b: Seq<(i64, Seq<char>)>,
    query: Seq<char>,
)
    requires
        a.to_set() == b.to_set(),
    ensures
        search_results(a, query).to_set() == search_results(b, query).to_set(),
        search_outcome(a, query).to_set() == search_outcome(b, query).to_set(),
{
    let terms = search_terms(whitespace_tokens(query));
    if terms.len() > 0 {
        assert forall|x: i64| #[trigger]
            search_results(a, query).to_set().contains(x) implies search_results(
            b,
            query,
        ).to_set().contains(x) by {
            lemma_matching_ids_members(a, terms, x);
            lemma_matching_ids_members(b, terms, x);
            let i = choose|i: int|
                0 <= i < a.len() && #[trigger] a[i].0 == x && matches_all(norm_bytes(a[i].1), terms);
            assert(a.to_set().contains(a[i]));
            assert(b.to_set().contains(a[i]));
            let j = choose|j: int| 0 <= j < b.len() && b[j] == a[i];
            assert(b[j].0 == x);
        }
        assert forall|x: i64| #[trigger]
            search_results(b, query).to_set().contains(x) implies search_results(
            a,
            query,
        ).to_set().contains(x) by {
            lemma_matching_ids_members(a, terms, x);
            lemma_matching_ids_members(b, terms, x);
            let i = choose|i: int|
                0 <= i < b.len() && #[trigger] b[i].0 == x && matches_all(norm_bytes(b[i].1), terms);
            assert(b.to_set().contains(b[i]));
            assert(a.to_set().contains(b[i]));
            let j = choose|j: int| 0 <= j < a.len() && a[j] == b[i];
            assert(a[j].0 == x);
        }
    }
    assert(search_results(a, query).to_set() =~= search_results(b, query).to_set());
}

/// Whether an entry matches depends on which terms a query holds, not on
/// their order or on repeats.
pub proof fn lemma_term_order_irrelevant(
    entries: Seq<(i64, Seq<char>)>,
    t1: Seq<Seq<u8>>,
    t2: Seq<Seq<u8>>,
)
    requires
        t1.to_set() == t2.to_set(),
    ensures
        matching_ids(entries, t1) == matching_ids(entries, t2),
    decreases entries.len(),
{
    if entries.len() > 0 {
        lemma_term_order_irrelevant(entries.drop_last(), t1, t2);
        let text = norm_bytes(entries.last().1);
        if matches_all(text, t1) {
            assert forall|j: int| 0 <= j < t2.len() implies #[trigger] contains(text, t2[j]) by {
                assert(t2.to_set().contains(t2[j]));
                let i = choose|i: int| 0 <= i < t1.len() && t1[i] == t2[j];
                assert(contains(text, t1[i]));
            }
        }
        if matches_all(text, t2) {
            assert forall|j: int| 0 <= j < t1.len() implies #[trigger] contains(text, t1[j]) by {
                assert(t1.to_set().contains(t1[j]));
                let i = choose|i: int| 0 <= i < t2.len() && t2[i] == t1[j];
                assert(contains(text, t2[i]));
            }
        }
    }
}

/// Where ids are distinct, the entries found by two terms together are
/// those found by each term on its own.
pub proof fn lemma_two_terms_intersect(entries: Seq<(i64, Seq<char>)>, a: Seq<u8>, b: Seq<u8>)
    requires
        forall|i: int, j: int|
            0 <= i < entries.len() && 0 <= j < entries.len() && i != j ==> #[trigger] entries[i].0
                != #[trigger] entries[j].0,
    ensures
        matching_ids(entries, seq![a, b]).to_set() == matching_ids(entries, seq![a]).to_set().intersect(
            matching_ids(entries, seq![b]).to_set(),
        ),
{
    let both = seq![a, b];
    let sa = seq![a];
    let sb = seq![b];
    assert forall|x: i64|
        #[trigger] matching_ids(entries, both).to_set().contains(x) == matching_ids(
            entries,
            sa,
        ).to_set().intersect(matching_ids(entries, sb).to_set()).contains(x) by {
        lemma_matching_ids_members(entries, both, x);
        lemma_matching_ids_members(entries, sa, x);
        lemma_matching_ids_members(entries, sb, x);
        assert forall|text: Seq<u8>| #[trigger] matches_all(text, both) == (matches_all(text, sa)
            && matches_all(text, sb)) by {
            if matches_all(text, sa) && matches_all(text, sb) {
                assert(contains(text, sa[0]));
                assert(contains(text, sb[0]));
                assert forall|t: int| 0 <= t < both.len() implies #[trigger] contains(
                    text,
                    both[t],
                ) by {
                    if t == 0 {
                        assert(both[t] == sa[0]);
                    } else {
                        assert(both[t] == sb[0]);
                    }
                }
            }
            if matches_all(text, both) {
                assert(contains(text, both[0]));
                assert(contains(text, both[1]));
                assert(both[0] == sa[0]);
                assert(both[1] == sb[0]);
            }
        }
        if matching_ids(entries, sa).to_set().contains(x) && matching_ids(entries, sb).to_set().contains(x) {
            let i = choose|i: int|
                0 <= i < entries.len() && #[trigger] entries[i].0 == x && matches_all(
                    norm_bytes(entries[i].1),
                    sa,
                );
            let j = choose|j: int|
                0 <= j < entries.len() && #[trigger] entries[j].0 == x && matches_all(
                    norm_bytes(entries[j].1),
                    sb,
                );
            assert(i == j);
            assert(matches_all(norm_bytes(entries[i].1), both));
        }
    }
    assert(matching_ids(entries, both).to_set() =~= matching_ids(entries, sa).to_set().intersect(
        matching_ids(entries, sb).to_set(),
    ));
}

/// Relies on memchr's `memmem::find`: the position of the first occurrence
/// of `needle` in `haystack`, if any.
pub assume_specification[ memchr::memmem::find ](haystack: &[u8], needle: &[u8]) -> (r: Option<
    usize,
>)
    ensures
        r is Some <==> contains(haystack@, needle@),
        r matches Some(k) ==> occurs_at(haystack@, needle@, k as int) && forall|j: int|
            0 <= j < k ==> !occurs_at(haystack@, needle@, j),
;

/// Relies on `AhoCorasick::new`: with the default builder (standard match
/// semantics, unanchored start), an automaton over the given patterns,
/// pattern `i` being `patterns[i]`; an error where one cannot be built.
#[verifier::external_body]
fn build_matcher(patterns: &Vec<Vec<u8>>) -> (r: Result<AhoCorasick, BuildError>)
    ensures
        r is Ok <==> ac_builds(patterns@.map_values(|p: Vec<u8>| p@)),
        r matches Ok(a) ==> ac_patterns(a) == patterns@.map_values(|p: Vec<u8>| p@),
        r matches Ok(a) ==> ac_overlapping(a),
{
    AhoCorasick::new(patterns)
}

/// Relies on `AhoCorasick::find_overlapping_iter`: every match of every
/// pattern at every position of `hay`, reported by pattern id. It panics
/// only on automata without standard semantics or an unanchored start,
/// which `requires` leaves out.
#[verifier::external_body]
fn patterns_found(a: &AhoCorasick, hay: &[u8]) -> (r: Vec<usize>)
    requires
        ac_overlapping(*a),
    ensures
        forall|k: int|
            0 <= k < r@.len() ==> #[trigger] r@[k] < ac_patterns(*a).len() && contains(
                hay@,
                ac_patterns(*a)[r@[k] as int],
            ),
        forall|p: int|
            0 <= p < ac_patterns(*a).len() && contains(hay@, #[trigger] ac_patterns(*a)[p])
                ==> exists|k: int| 0 <= k < r@.len() && r@[k] == p,
{
    a.find_overlapping_iter(hay).map(|m| m.pattern().as_usize()).collect()
}

/// The chars of a sequence of char vectors.
pub open spec fn char_texts(v: Seq<Vec<char>>) -> Seq<Seq<char>> {
    v.map_values(|t: Vec<char>| t@)
}

/// Splits a query into its maximal runs of chars that are not white space.
fn split_terms(query: &str) -> (r: Vec<String>)
    ensures
        r@.map_values(|t: String| t@) == whitespace_tokens(query@),
{
    let cs = chars_of(query);
    let mut done: Vec<Vec<char>> = Vec::new();
    let mut cur: Vec<char> = Vec::new();
    let mut in_token = false;
    let mut i: usize = 0;
    while i < cs.len()
        invariant
            0 <= i <= cs@.len(),
            cs@ == query@,
            in_token == (i > 0 && !is_white_space(cs@[i - 1])),
            whitespace_tokens(cs@.subrange(0, i as int)) == if in_token {
                char_texts(done@).push(cur@)
            } else {
                char_texts(done@)
            },
        decreases cs@.len() - i,
    {
        let c = cs[i];
        let ghost pre = cs@.subrange(0, i + 1);
        let ghost d0 = done@;
        let ghost c0 = cur@;
        proof {
            assert(pre.drop_last() =~= cs@.subrange(0, i as int));
            assert(pre.last() == c);
            if i > 0 {
                assert(pre[pre.len() - 2] == cs@[i - 1]);
            }
        }
        if is_white_space_char(c) {
            if in_token {
                done.push(cur);
                cur = Vec::new();
                assert(char_texts(done@) =~= char_texts(d0).push(c0));
            }
            in_token = false;
        } else if in_token {
            cur.push(c);
            assert(char_texts(d0).push(c0).update(char_texts(d0).push(c0).len() - 1, c0.push(c))
                =~= char_texts(d0).push(cur@));
        } else {
            cur = Vec::new();
            cur.push(c);
            assert(cur@ =~= seq![c]);
            in_token = true;
        }
        i += 1;
    }
    if in_token {
        done.push(cur);
    }
    assert(cs@.subrange(0, cs@.len() as int) =~= cs@);
    let mut out: Vec<String> = Vec::new();
    let mut k: usize = 0;
    while k < done.len()
        invariant
            0 <= k <= done@.len(),
            out@.map_values(|t: String| t@) == char_texts(done@).subrange(0, k as int),
        decreases done@.len() - k,
    {
        let t = text_of(done[k].as_slice());
        let ghost o0 = out@;
        out.push(t);
        assert(out@.map_values(|t: String| t@) =~= o0.map_values(|t: String| t@).push(done@[k as int]@));
        assert(char_texts(done@).subrange(0, k + 1) =~= char_texts(done@).subrange(0, k as int).push(done@[k as int]@));
        k += 1;
    }
    assert(char_texts(done@).subrange(0, done@.len() as int) =~= char_texts(done@));
    out
}

/// Pattern `p` is among the reported ids `found`.
pub open spec fn reported(found: Seq<usize>, p: int) -> bool {
    exists|k: int| 0 <= k < found.len() && found[k] == p
}

/// Whether every pattern id below `n` is among `found`.
fn all_patterns_found(found: &Vec<usize>, n: usize) -> (r: bool)
    ensures
        r == forall|p: int| 0 <= p < n ==> #[trigger] reported(found@, p),
{
    let mut seen: Vec<bool> = vec![false; n];
    let mut k: usize = 0;
    while k < found.len()
        invariant
            0 <= k <= found@.len(),
            seen@.len() == n,
            forall|p: int| 0 <= p < n ==> (#[trigger] seen@[p] <==> reported(found@.subrange(0, k as int), p)),
        decreases found@.len() - k,
    {
        let f = found[k];
        if f < n {
            seen[f] = true;
        }
        assert forall|p: int| 0 <= p < n implies (#[trigger] seen@[p] <==> reported(found@.subrange(0, k + 1), p)) by {
            let pre = found@.subrange(0, k as int);
            let post = found@.subrange(0, k + 1);
            if reported(pre, p) {
                let j = choose|j: int| 0 <= j < pre.len() && pre[j] == p;
                assert(post[j] == p);
            }
            if p == f {
                assert(post[k as int] == p);
            }
            if reported(post, p) {
                let j = choose|j: int| 0 <= j < post.len() && post[j] == p;
                if j < k {
                    assert(pre[j] == p);
                }
            }
        }
        k += 1;
    }
    assert(found@.subrange(0, found@.len() as int) =~= found@);
    let mut p: usize = 0;
    while p < n
        invariant
            0 <= p <= n,
            seen@.len() == n,
            found@.subrange(0, found@.len() as int) == found@,
            forall|q: int| 0 <= q < n ==> (#[trigger] seen@[q] <==> reported(found@, q)),
            forall|q: int| 0 <= q < p ==> #[trigger] reported(found@, q),
        decreases n - p,
    {
        if !seen[p] {
            return false;
        }
        p += 1;
    }
    true
}

/// An index of (id, path) entries. Entry `i` has id `ids[i]` and path
/// `original_paths[i]`; its normalized bytes are `normalized_paths` from
/// `offsets[i]` up to the next entry's offset (or the end of the buffer).
pub struct SearchIndex {
    /// Record ids, one per entry.
    ids: Vec<i64>,
    /// Where each entry's bytes start in the shared buffer.
    offsets: Vec<usize>,
    /// The normalized bytes of all entries, back to back.
    normalized_paths: Vec<u8>,
    /// The paths as given, for lookups by path.
    original_paths: Vec<String>,
}

impl View for SearchIndex {
    type V = Seq<(i64, Seq<char>)>;

    closed spec fn view(&self) -> Seq<(i64, Seq<char>)> {
        Seq::new(self.ids@.len(), |i: int| (self.ids@[i], self.original_paths@[i]@))
    }
}

impl SearchIndex {
    /// Where the bytes of entry `i` end: the next entry's start, or the end
    /// of the buffer for the last entry.
    spec fn end_of(&self, i: int) -> int {
        if i + 1 < self.offsets@.len() {
            self.offsets@[i + 1] as int
        } else {
            self.normalized_paths@.len() as int
        }
    }

    /// The offset table and the buffer agree with the entries: the byte
    /// ranges follow one another without gaps or overlaps, cover the buffer,
    /// and each holds the normalized bytes of its entry's path.
    pub closed spec fn well_formed(&self) -> bool {
        let n = self.ids@.len();
        &&& self.offsets@.len() == n
        &&& self.original_paths@.len() == n
        &&& n == 0 ==> self.normalized_paths@.len() == 0
        &&& n > 0 ==> self.offsets@[0] == 0
        &&& forall|i: int, j: int|
            0 <= i <= j < n ==> #[trigger] self.offsets@[i] <= #[trigger] self.offsets@[j]
        &&& forall|i: int|
            0 <= i < n ==> self.offsets@[i] + norm_bytes(self.original_paths@[i]@).len()
                == #[trigger] self.end_of(i)
        &&& forall|i: int| 0 <= i < n ==> #[trigger] self.end_of(i) <= self.normalized_paths@.len()
        &&& forall|i: int|
            0 <= i < n ==> #[trigger] self.normalized_paths@.subrange(
                self.offsets@[i] as int,
                self.end_of(i),
            ) == norm_bytes(self.original_paths@[i]@)
    }

    /// An empty index.
    pub fn new() -> (r: Self)
        ensures
            r.well_formed(),
            r@ == Seq::<(i64, Seq<char>)>::empty(),
    {
        let r = SearchIndex {
            ids: Vec::new(),
            offsets: Vec::new(),
            normalized_paths: Vec::new(),
            original_paths: Vec::new(),
        };
        assert(r@ =~= Seq::<(i64, Seq<char>)>::empty());
        r
    }

    /// The number of entries.
    pub fn len(&self) -> (r: usize)
        requires
            self.well_formed(),
        ensures
            r == self@.len(),
    {
        self.ids.len()
    }

    /// Whether the index holds no entry.
    pub fn is_empty(&self) -> (r: bool)
        requires
            self.well_formed(),
        ensures
            r == (self@.len() == 0),
    {
        self.ids.len() == 0
    }

    /// The normalized bytes of entry `i`.
    fn get_path_bytes(&self, i: usize) -> (r: &[u8])
        requires
            self.well_formed(),
            i < self@.len(),
        ensures
            r@ == norm_bytes(self@[i as int].1),
    {
        let start = self.offsets[i];
        let end = if i < self.offsets.len() - 1 {
            self.offsets[i + 1]
        } else {
            self.normalized_paths.len()
        };
        assert(self.end_of(i as int) == end);
        assert(self.offsets@[i as int] + norm_bytes(self.original_paths@[i as int]@).len()
            == self.end_of(i as int));
        slice_subrange(self.normalized_paths.as_slice(), start, end)
    }

    /// The position of the first entry whose original path is `path`.
    fn position_of(&self, path: &str) -> (r: Option<usize>)
        requires
            self.well_formed(),
        ensures
            r matches Some(i) ==> first_with_path(self@, path@, i as int),
            r is None ==> !has_path(self@, path@),
    {
        let mut i: usize = 0;
        while i < self.original_paths.len()
            invariant
                self.well_formed(),
                0 <= i <= self@.len(),
                forall|j: int| 0 <= j < i ==> #[trigger] self@[j].1 != path@,
            decreases self@.len() - i,
        {
            if text_equals(self.original_paths[i].as_str(), path) {
                return Some(i);
            }
            i += 1;
        }
        None
    }

    /// The id of the first entry whose original path is `path`, if any.
    pub fn find_id_by_path(&self, path: &str) -> (r: Option<i64>)
        requires
            self.well_formed(),
        ensures
            r is None <==> !has_path(self@, path@),
            r matches Some(id) ==> exists|i: int|
                first_with_path(self@, path@, i) && #[trigger] self@[i].0 == id,
    {
        match self.position_of(path) {
            Some(i) => {
                assert(self@[i as int].0 == self.ids@[i as int]);
                Some(self.ids[i])
            },
            None => None,
        }
    }

    /// The bytes of `b` without the range `start..end`.
    fn excise(b: &Vec<u8>, start: usize, end: usize) -> (r: Vec<u8>)
        requires
            start <= end <= b@.len(),
        ensures
            r@ == b@.subrange(0, start as int) + b@.subrange(end as int, b@.len() as int),
    {
        Self::splice(b, start, end, &[])
    }

    /// The bytes of `b` with the range `start..end` replaced by `mid`.
    fn splice(b: &Vec<u8>, start: usize, end: usize, mid: &[u8]) -> (r: Vec<u8>)
        requires
            start <= end <= b@.len(),
        ensures
            r@ == b@.subrange(0, start as int) + mid@ + b@.subrange(end as int, b@.len() as int),
    {
        let mut out: Vec<u8> = Vec::new();
        let mut k: usize = 0;
        while k < start
            invariant
                0 <= k <= start <= end <= b@.len(),
                out@ == b@.subrange(0, k as int),
            decreases start - k,
        {
            out.push(b[k]);
            proof {
                assert(b@.subrange(0, k + 1) =~= b@.subrange(0, k as int).push(b@[k as int]));
            }
            k += 1;
        }
        out.extend_from_slice(mid);
        assert(out@ =~= b@.subrange(0, start as int) + mid@);
        let mut k: usize = end;
        while k < b.len()
            invariant
                start <= end <= k <= b@.len(),
                out@ == b@.subrange(0, start as int) + mid@ + b@.subrange(end as int, k as int),
            decreases b@.len() - k,
        {
            out.push(b[k]);
            proof {
                assert(b@.subrange(end as int, k + 1) =~= b@.subrange(end as int, k as int).push(
                    b@[k as int],
                ));
                assert(out@ =~= b@.subrange(0, start as int) + mid@ + b@.subrange(end as int, k + 1));
            }
            k += 1;
        }
        out
    }

    /// Adds an entry at the end: its normalized bytes go to the tail of the
    /// buffer and its start to the tail of the offset table.
    pub fn add_entry(&mut self, id: i64, path: &str)
        requires
            old(self).well_formed(),
        ensures
            final(self).well_formed(),
            final(self)@ == old(self)@.push((id, path@)),
    {
        let normalized = normalize_path(path);
        let bytes = normalized.as_str().as_bytes();
        let offset = self.normalized_paths.len();
        let ghost old_index = *self;
        let ghost n = self.ids@.len();
        self.ids.push(id);
        self.offsets.push(offset);
        self.original_paths.push(path.to_owned());
        self.normalized_paths.extend_from_slice(bytes);
        proof {
            assert(bytes@ == norm_bytes(path@));
            assert forall|i: int| 0 <= i < n implies #[trigger] self.end_of(i)
                == old_index.end_of(i) by {}
            assert forall|i: int| 0 <= i < n implies #[trigger] self.normalized_paths@.subrange(
                self.offsets@[i] as int,
                self.end_of(i),
            ) == norm_bytes(self.original_paths@[i]@) by {
                assert(old_index.offsets@[i] <= old_index.end_of(i));
                assert(self.normalized_paths@.subrange(self.offsets@[i] as int, self.end_of(i))
                    =~= old_index.normalized_paths@.subrange(
                    old_index.offsets@[i] as int,
                    old_index.end_of(i),
                ));
            }
            assert(self.normalized_paths@.subrange(self.offsets@[n as int] as int, self.end_of(n as int))
                =~= bytes@);
            assert forall|i: int| 0 <= i < n implies #[trigger] self.offsets@[i]
                <= offset by {
                assert(old_index.offsets@[i] <= old_index.end_of(i));
            }
            assert(self@ =~= old_index@.push((id, path@)));
        }
    }
}

impl SearchIndex {
    /// Removes the first entry whose original path is `path`: its bytes are
    /// excised from the buffer and every later offset moves down by their
    /// length. Returns false, changing nothing, when no entry has that path.
    pub fn remove_entry(&mut self, path: &str) -> (r: bool)
        requires
            old(self).well_formed(),
        ensures
            final(self).well_formed(),
            r == has_path(old(self)@, path@),
            r ==> exists|i: int|
                first_with_path(old(self)@, path@, i) && final(self)@ == old(self)@.remove(i),
            !r ==> final(self)@ == old(self)@,
    {
        let idx = match self.position_of(path) {
            Some(i) => i,
            None => return false,
        };
        let ghost o = *self;
        let ghost n = self.ids@.len() as int;
        let start = self.offsets[idx];
        let end = if idx < self.offsets.len() - 1 {
            self.offsets[idx + 1]
        } else {
            self.normalized_paths.len()
        };
        assert(end == o.end_of(idx as int));
        assert(o.offsets@[idx as int] <= o.end_of(idx as int));
        let removed_len = end - start;
        let buf = Self::excise(&self.normalized_paths, start, end);
        let mut offs: Vec<usize> = Vec::new();
        let mut j: usize = 0;
        while j < self.offsets.len()
            invariant
                *self == o,
                o.well_formed(),
                n == o.offsets@.len(),
                idx < n,
                start == o.offsets@[idx as int],
                end == o.end_of(idx as int),
                removed_len == end - start,
                0 <= j <= n,
                offs@.len() == if j <= idx {
                    j as int
                } else {
                    j - 1
                },
                forall|q: int|
                    0 <= q < offs@.len() ==> #[trigger] offs@[q] == if q < idx {
                        o.offsets@[q] as int
                    } else {
                        o.offsets@[q + 1] - removed_len
                    },
            decreases n - j,
        {
            if j < idx {
                offs.push(self.offsets[j]);
            } else if j > idx {
                assert(o.offsets@[idx + 1] <= o.offsets@[j as int]);
                offs.push(self.offsets[j] - removed_len);
            }
            j += 1;
        }
        self.ids.remove(idx);
        self.original_paths.remove(idx);
        self.offsets = offs;
        self.normalized_paths = buf;
        proof {
            let i = idx as int;
            let d = removed_len as int;
            assert(self.normalized_paths@.len() == o.normalized_paths@.len() - d);
            assert forall|q: int| 0 <= q < n - 1 implies #[trigger] self.end_of(q) == if q < i {
                o.end_of(q)
            } else {
                o.end_of(q + 1) - d
            } by {}
            assert forall|q1: int, q2: int|
                0 <= q1 <= q2 < n - 1 implies #[trigger] self.offsets@[q1]
                <= #[trigger] self.offsets@[q2] by {
                if q1 < i && q2 >= i {
                    assert(o.offsets@[q1] <= o.offsets@[i]);
                    assert(o.offsets@[i] + norm_bytes(o.original_paths@[i]@).len() == o.end_of(i));
                    assert(o.end_of(i) == o.offsets@[i + 1]);
                    assert(o.offsets@[i + 1] <= o.offsets@[q2 + 1]);
                } else if q1 >= i {
                    assert(o.offsets@[q1 + 1] <= o.offsets@[q2 + 1]);
                }
            }
            assert forall|q: int| 0 <= q < n - 1 implies self.offsets@[q] + norm_bytes(
                self.original_paths@[q]@,
            ).len() == #[trigger] self.end_of(q) by {
                if q < i {
                    assert(o.offsets@[q] + norm_bytes(o.original_paths@[q]@).len() == o.end_of(q));
                } else {
                    assert(o.offsets@[q + 1] + norm_bytes(o.original_paths@[q + 1]@).len() == o.end_of(q + 1));
                }
            }
            assert forall|q: int| 0 <= q < n - 1 implies #[trigger] self.end_of(q)
                <= self.normalized_paths@.len() by {
                if q < i {
                    assert(o.end_of(q) == o.offsets@[q + 1]);
                    assert(o.offsets@[q + 1] <= o.offsets@[i]);
                } else {
                    assert(o.end_of(q + 1) <= o.normalized_paths@.len());
                }
            }
            assert forall|q: int| 0 <= q < n - 1 implies #[trigger] self.normalized_paths@.subrange(
                self.offsets@[q] as int,
                self.end_of(q),
            ) == norm_bytes(self.original_paths@[q]@) by {
                let b = o.normalized_paths@;
                if q < i {
                    assert(o.end_of(q) == o.offsets@[q + 1]);
                    assert(o.offsets@[q + 1] <= o.offsets@[i]);
                    assert(o.offsets@[q] <= o.end_of(q));
                    assert(self.normalized_paths@.subrange(self.offsets@[q] as int, self.end_of(q))
                        =~= b.subrange(o.offsets@[q] as int, o.end_of(q)));
                } else {
                    assert(o.offsets@[i + 1] <= o.offsets@[q + 1]);
                    assert(o.offsets@[q + 1] <= o.end_of(q + 1));
                    assert(o.end_of(q + 1) <= b.len());
                    assert(self.normalized_paths@.subrange(self.offsets@[q] as int, self.end_of(q))
                        =~= b.subrange(o.offsets@[q + 1] as int, o.end_of(q + 1)));
                }
            }
            if n - 1 > 0 && i == 0 {
                assert(o.end_of(0) == o.offsets@[1]);
            }
            assert(self@ =~= o@.remove(i));
        }
        true
    }
}

impl SearchIndex {
    /// Renames the first entry whose original path is `old_path`: its bytes
    /// in the buffer are replaced by the normalized bytes of `new_path`,
    /// every later offset moves by the difference in length, and its id is
    /// kept. Returns false, changing nothing, when no entry has `old_path`.
    pub fn rename_entry(&mut self, old_path: &str, new_path: &str) -> (r: bool)
        requires
            old(self).well_formed(),
        ensures
            final(self).well_formed(),
            r == has_path(old(self)@, old_path@),
            r ==> exists|i: int|
                first_with_path(old(self)@, old_path@, i) && final(self)@ == old(self)@.update(
                    i,
                    (old(self)@[i].0, new_path@),
                ),
            !r ==> final(self)@ == old(self)@,
    {
        let idx = match self.position_of(old_path) {
            Some(i) => i,
            None => return false,
        };
        let ghost o = *self;
        let ghost n = self.ids@.len() as int;
        let start = self.offsets[idx];
        let end = if idx < self.offsets.len() - 1 {
            self.offsets[idx + 1]
        } else {
            self.normalized_paths.len()
        };
        assert(end == o.end_of(idx as int));
        assert(o.offsets@[idx as int] <= o.end_of(idx as int));
        let old_len = end - start;
        let new_normalized = normalize_path(new_path);
        let new_bytes = new_normalized.as_str().as_bytes();
        let new_len = new_bytes.len();
        let buf = Self::splice(&self.normalized_paths, start, end, new_bytes);
        let buf_len = buf.len();
        let mut offs: Vec<usize> = Vec::new();
        let mut j: usize = 0;
        while j < self.offsets.len()
            invariant
                *self == o,
                o.well_formed(),
                n == o.offsets@.len(),
                idx < n,
                start == o.offsets@[idx as int],
                end == o.end_of(idx as int),
                old_len == end - start,
                new_len == new_bytes@.len(),
                buf@ == o.normalized_paths@.subrange(0, start as int) + new_bytes@
                    + o.normalized_paths@.subrange(end as int, o.normalized_paths@.len() as int),
                buf_len == buf@.len(),
                0 <= j <= n,
                offs@.len() == j,
                forall|q: int|
                    0 <= q < j ==> #[trigger] offs@[q] == if q <= idx {
                        o.offsets@[q] as int
                    } else {
                        o.offsets@[q] - old_len + new_len
                    },
            decreases n - j,
        {
            if j <= idx {
                offs.push(self.offsets[j]);
            } else {
                assert(o.offsets@[idx + 1] <= o.offsets@[j as int]);
                assert(o.offsets@[j as int] <= o.end_of(j as int));
                assert(o.end_of(j as int) <= o.normalized_paths@.len());
                offs.push(self.offsets[j] - old_len + new_len);
            }
            j += 1;
        }
        self.original_paths.set(idx, new_path.to_owned());
        self.offsets = offs;
        self.normalized_paths = buf;
        proof {
            let i = idx as int;
            let delta = new_len - old_len;
            assert(new_bytes@ == norm_bytes(new_path@));
            assert(self.normalized_paths@.len() == o.normalized_paths@.len() + delta);
            assert forall|q: int| 0 <= q < n implies #[trigger] self.end_of(q) == if q < i {
                o.end_of(q)
            } else {
                o.end_of(q) + delta
            } by {}
            assert forall|q1: int, q2: int|
                0 <= q1 <= q2 < n implies #[trigger] self.offsets@[q1]
                <= #[trigger] self.offsets@[q2] by {
                assert(o.offsets@[q1] <= o.offsets@[q2]);
                if q1 <= i && q2 > i {
                    assert(o.offsets@[i] + norm_bytes(o.original_paths@[i]@).len() == o.end_of(i));
                    assert(o.end_of(i) == o.offsets@[i + 1]);
                    assert(o.offsets@[i + 1] <= o.offsets@[q2]);
                    assert(o.offsets@[q1] <= o.offsets@[i]);
                }
            }
            assert forall|q: int| 0 <= q < n implies self.offsets@[q] + norm_bytes(
                self.original_paths@[q]@,
            ).len() == #[trigger] self.end_of(q) by {
                assert(o.offsets@[q] + norm_bytes(o.original_paths@[q]@).len() == o.end_of(q));
            }
            assert forall|q: int| 0 <= q < n implies #[trigger] self.end_of(q)
                <= self.normalized_paths@.len() by {
                assert(o.end_of(q) <= o.normalized_paths@.len());
                if q < i {
                    assert(o.end_of(q) == o.offsets@[q + 1]);
                    assert(o.offsets@[q + 1] <= o.offsets@[i]);
                }
            }
            assert forall|q: int| 0 <= q < n implies #[trigger] self.normalized_paths@.subrange(
                self.offsets@[q] as int,
                self.end_of(q),
            ) == norm_bytes(self.original_paths@[q]@) by {
                let b = o.normalized_paths@;
                assert(o.offsets@[q] <= o.end_of(q));
                assert(o.end_of(q) <= b.len());
                if q < i {
                    assert(o.end_of(q) == o.offsets@[q + 1]);
                    assert(o.offsets@[q + 1] <= o.offsets@[i]);
                    assert(self.normalized_paths@.subrange(self.offsets@[q] as int, self.end_of(q))
                        =~= b.subrange(o.offsets@[q] as int, o.end_of(q)));
                } else if q == i {
                    assert(self.normalized_paths@.subrange(self.offsets@[q] as int, self.end_of(q))
                        =~= new_bytes@);
                } else {
                    assert(o.offsets@[i + 1] <= o.offsets@[q]);
                    assert(self.normalized_paths@.subrange(self.offsets@[q] as int, self.end_of(q))
                        =~= b.subrange(o.offsets@[q] as int, o.end_of(q)));
                }
            }
            assert(self@ =~= o@.update(i, (o@[i].0, new_path@)));
        }
        true
    }
}

impl SearchIndex {
    /// Builds an index over the given (id, path) pairs, in their order.
    pub fn build_from_entries(entries: Vec<(i64, String)>) -> (r: Self)
        ensures
            r.well_formed(),
            r@ == entries@.map_values(|e: (i64, String)| (e.0, e.1@)),
    {
        let mut index = Self::new();
        let mut k: usize = 0;
        while k < entries.len()
            invariant
                0 <= k <= entries@.len(),
                index.well_formed(),
                index@ == entries@.subrange(0, k as int).map_values(
                    |e: (i64, String)| (e.0, e.1@),
                ),
            decreases entries@.len() - k,
        {
            index.add_entry(entries[k].0, entries[k].1.as_str());
            assert(entries@.subrange(0, k + 1).map_values(|e: (i64, String)| (e.0, e.1@))
                =~= entries@.subrange(0, k as int).map_values(|e: (i64, String)| (e.0, e.1@)).push(
                (entries@[k as int].0, entries@[k as int].1@),
            ));
            k += 1;
        }
        assert(entries@.subrange(0, entries@.len() as int) =~= entries@);
        index
    }

    /// The ids of the entries whose normalized bytes contain `needle`.
    fn search_single_term(&self, needle: &[u8]) -> (r: Vec<i64>)
        requires
            self.well_formed(),
        ensures
            r@ == matching_ids(self@, seq![needle@]),
    {
        let ghost terms = seq![needle@];
        let mut out: Vec<i64> = Vec::new();
        let mut i: usize = 0;
        while i < self.ids.len()
            invariant
                self.well_formed(),
                0 <= i <= self@.len(),
                terms == seq![needle@],
                out@ == matching_ids(self@.subrange(0, i as int), terms),
            decreases self@.len() - i,
        {
            let text = self.get_path_bytes(i);
            let found = memchr::memmem::find(text, needle);
            proof {
                let pre = self@.subrange(0, i + 1);
                assert(pre.drop_last() =~= self@.subrange(0, i as int));
                assert(pre.last() == self@[i as int]);
                assert(terms[0] == needle@);
                assert(matches_all(text@, terms) == contains(text@, needle@));
            }
            if found.is_some() {
                out.push(self.ids[i]);
            }
            i += 1;
        }
        assert(self@.subrange(0, self@.len() as int) =~= self@);
        out
    }

    /// The ids of the entries whose normalized bytes contain every term, or
    /// None where no multi-pattern matcher can be built over the terms.
    fn search_multi_term(&self, terms: &Vec<Vec<u8>>) -> (r: Option<Vec<i64>>)
        requires
            self.well_formed(),
        ensures
            r is Some <==> ac_builds(terms@.map_values(|t: Vec<u8>| t@)),
            r matches Some(v) ==> v@ == matching_ids(self@, terms@.map_values(|t: Vec<u8>| t@)),
    {
        let ghost pats = terms@.map_values(|t: Vec<u8>| t@);
        let ac = match build_matcher(terms) {
            Ok(a) => a,
            Err(_) => return None,
        };
        let mut out: Vec<i64> = Vec::new();
        let mut i: usize = 0;
        while i < self.ids.len()
            invariant
                self.well_formed(),
                0 <= i <= self@.len(),
                pats == terms@.map_values(|t: Vec<u8>| t@),
                ac_patterns(ac) == pats,
                ac_overlapping(ac),
                out@ == matching_ids(self@.subrange(0, i as int), pats),
            decreases self@.len() - i,
        {
            let text = self.get_path_bytes(i);
            let found = patterns_found(&ac, text);
            let all = all_patterns_found(&found, terms.len());
            proof {
                let pre = self@.subrange(0, i + 1);
                assert(pre.drop_last() =~= self@.subrange(0, i as int));
                assert(pre.last() == self@[i as int]);
                if all {
                    assert forall|t: int| 0 <= t < pats.len() implies #[trigger] contains(
                        text@,
                        pats[t],
                    ) by {
                        assert(reported(found@, t));
                        let k = choose|k: int| 0 <= k < found@.len() && found@[k] == t;
                        assert(found@[k] < ac_patterns(ac).len());
                    }
                } else {
                    let p = choose|p: int| 0 <= p < terms@.len() && !reported(found@, p);
                    if contains(text@, pats[p]) {
                        assert(reported(found@, p));
                    }
                }
                assert(all == matches_all(text@, pats));
            }
            if all {
                out.push(self.ids[i]);
            }
            i += 1;
        }
        assert(self@.subrange(0, self@.len() as int) =~= self@);
        Some(out)
    }

    /// The ids of the entries whose normalized path contains every
    /// normalized, non-empty whitespace-separated term of `query`, in index
    /// order; nothing for a query without such a term. A query of several
    /// tokens finds nothing where no multi-pattern matcher can be built over
    /// its terms.
    pub fn search(&self, query: &str) -> (r: Vec<i64>)
        requires
            self.well_formed(),
        ensures
            r@ == search_outcome(self@, query@),
            whitespace_tokens(query@).len() < 2 || ac_builds(
                search_terms(whitespace_tokens(query@)),
            ) ==> r@ == search_results(self@, query@),
    {
        let tokens = split_terms(query);
        let ghost tv = tokens@.map_values(|t: String| t@);
        let mut terms: Vec<Vec<u8>> = Vec::new();
        let mut k: usize = 0;
        while k < tokens.len()
            invariant
                0 <= k <= tokens@.len(),
                tv == tokens@.map_values(|t: String| t@),
                terms@.len() <= k,
                terms@.map_values(|t: Vec<u8>| t@) == search_terms(tv.subrange(0, k as int)),
            decreases tokens@.len() - k,
        {
            let normalized = normalize_path(tokens[k].as_str());
            let bytes = normalized.as_str().as_bytes();
            proof {
                let pre = tv.subrange(0, k + 1);
                assert(pre.drop_last() =~= tv.subrange(0, k as int));
                assert(pre.last() == tokens@[k as int]@);
            }
            if bytes.len() > 0 {
                let ghost before = terms@;
                terms.push(vstd::slice::slice_to_vec(bytes));
                assert(terms@.map_values(|t: Vec<u8>| t@) =~= before.map_values(|t: Vec<u8>| t@).push(
                    bytes@,
                ));
            }
            k += 1;
        }
        assert(tv.subrange(0, tokens@.len() as int) =~= tv);
        let ghost pats = terms@.map_values(|t: Vec<u8>| t@);
        if terms.len() == 0 {
            return Vec::new();
        }
        if tokens.len() == 1 {
            assert(pats =~= seq![terms@[0]@]);
            self.search_single_term(terms[0].as_slice())
        } else {
            match self.search_multi_term(&terms) {
                Some(v) => v,
                None => Vec::new(),
            }
        }
    }
}

impl Default for SearchIndex {
    /// An empty index.
    fn default() -> (r: Self)
        ensures
            r.well_formed(),
            r@ == Seq::<(i64, Seq<char>)>::empty(),
    {
        Self::new()
    }
}

} // verus!
