//! Filtered and sorted projections of the store.
use crate::sort;
use crate::sort::Order;
use crate::storage::soa_store::{DenseNodeStore, MetricsArena, RowView, UNTESTED_LATENCY};
use crate::text;
use std::cmp::Ordering;
use vstd::prelude::*;

verus! {

#[derive(Clone, Copy, Debug, PartialEq, Eq, Structural)]
pub enum SortCriteria {
    LatencyAsc,
    LatencyDesc,
    CountryAsc,
    NameAsc,
    HealthScoreDesc,
}

// ---------------------------------------------------------------------------
// Model
// ---------------------------------------------------------------------------

/// The latency at a position; positions without a measurement are untested.
pub open spec fn latency_at(latencies: Seq<u16>, i: int) -> u16 {
    if 0 <= i < latencies.len() {
        latencies[i]
    } else {
        UNTESTED_LATENCY
    }
}

/// The health at a position; positions without a measurement have none.
pub open spec fn health_at(healths: Seq<u8>, i: int) -> u8 {
    if 0 <= i < healths.len() {
        healths[i]
    } else {
        0
    }
}

/// A name holds a search term, both in lower case; an empty term stands in every
/// name.
pub open spec fn holds_term(name_lower: Seq<char>, term_lower: Seq<char>) -> bool {
    term_lower.len() == 0 || text::contains(name_lower, term_lower)
}

/// The row passes the filters: it comes from the subscription, lies in the
/// country, and its name holds the search term, in whatever case.
pub open spec fn is_match(
    row: RowView,
    term: Seq<char>,
    country: Option<[u8; 2]>,
    sub: Option<u16>,
) -> bool {
    &&& sub matches Some(id) ==> row.sources.contains(id)
    &&& country matches Some(code) ==> row.country_code@ == code@
    &&& holds_term(text::lowercase(row.name), text::lowercase(term))
}

/// A tested latency comes before a greater one and before an untested one.
pub open spec fn latency_less(left: u16, right: u16) -> bool {
    left != UNTESTED_LATENCY && (right == UNTESTED_LATENCY || left < right)
}

/// The lexicographic order of bytes.
pub open spec fn bytes_less(a: Seq<u8>, b: Seq<u8>) -> bool
    decreases a.len(),
{
    if b.len() == 0 {
        false
    } else if a.len() == 0 {
        true
    } else if a[0] != b[0] {
        a[0] < b[0]
    } else {
        bytes_less(a.drop_first(), b.drop_first())
    }
}

/// The row at `a` comes before the row at `b` by the criterion alone.
pub open spec fn key_less(
    rows: Seq<RowView>,
    latencies: Seq<u16>,
    healths: Seq<u8>,
    criterion: SortCriteria,
    a: int,
    b: int,
) -> bool {
    match criterion {
        SortCriteria::LatencyAsc => latency_less(latency_at(latencies, a), latency_at(latencies, b)),
        SortCriteria::LatencyDesc => latency_less(
            latency_at(latencies, b),
            latency_at(latencies, a),
        ),
        SortCriteria::CountryAsc => bytes_less(rows[a].country_code@, rows[b].country_code@),
        SortCriteria::NameAsc => bytes_less(
            vstd::utf8::encode_utf8(rows[a].name),
            vstd::utf8::encode_utf8(rows[b].name),
        ),
        SortCriteria::HealthScoreDesc => health_at(healths, b) < health_at(healths, a),
    }
}

/// The row at `a` comes before the row at `b`: by the criterion, where that does not
/// decide, by the identifier, and among rows with one identifier by the position.
pub open spec fn row_precedes(
    rows: Seq<RowView>,
    latencies: Seq<u16>,
    healths: Seq<u8>,
    criterion: SortCriteria,
    a: int,
    b: int,
) -> bool {
    key_less(rows, latencies, healths, criterion, a, b) || (!key_less(
        rows,
        latencies,
        healths,
        criterion,
        b,
        a,
    ) && (rows[a].id < rows[b].id || (rows[a].id == rows[b].id && a < b)))
}

/// `r` lists the positions of exactly the matching rows, each once, in order.
pub open spec fn is_projection(
    r: Seq<u32>,
    rows: Seq<RowView>,
    latencies: Seq<u16>,
    healths: Seq<u8>,
    term: Seq<char>,
    country: Option<[u8; 2]>,
    sub: Option<u16>,
    criterion: SortCriteria,
) -> bool {
    &&& r.no_duplicates()
    &&& forall|i: int|
        0 <= i < r.len() ==> (#[trigger] r[i]) < rows.len() && is_match(
            rows[r[i] as int],
            term,
            country,
            sub,
        )
    &&& forall|p: int|
        0 <= p < rows.len() && is_match(#[trigger] rows[p], term, country, sub) ==> r.contains(
            p as u32,
        )
    &&& forall|i: int, j: int|
        0 <= i < j < r.len() ==> !row_precedes(
            rows,
            latencies,
            healths,
            criterion,
            #[trigger] r[j] as int,
            #[trigger] r[i] as int,
        )
}

// ---------------------------------------------------------------------------
// Laws
// ---------------------------------------------------------------------------

/// A query has one answer: two projections of the same rows by the same criteria are
/// equal.
pub proof fn law_projections_are_unique(
    r: Seq<u32>,
    s: Seq<u32>,
    rows: Seq<RowView>,
    latencies: Seq<u16>,
    healths: Seq<u8>,
    term: Seq<char>,
    country: Option<[u8; 2]>,
    sub: Option<u16>,
    criterion: SortCriteria,
)
    requires
        rows.len() <= 0x1_0000_0000,
        is_projection(r, rows, latencies, healths, term, country, sub, criterion),
        is_projection(s, rows, latencies, healths, term, country, sub, criterion),
    ensures
        r == s,
{
    lemma_prefixes_agree(r, s, rows, latencies, healths, term, country, sub, criterion, r.len());
    lemma_prefixes_agree(s, r, rows, latencies, healths, term, country, sub, criterion, s.len());
    assert(r =~= s);
}

/// A query with the store's own measurements, taken into an arena, is the query
/// without an arena.
pub proof fn law_own_measurements_change_no_query(
    store: DenseNodeStore,
    metrics: MetricsArena,
    r: Seq<u32>,
    s: Seq<u32>,
    term: Seq<char>,
    country: Option<[u8; 2]>,
    sub: Option<u16>,
    criterion: SortCriteria,
)
    requires
        store@.len() <= 0x1_0000_0000,
        metrics.latencies_ms@ == store.latencies_ms@,
        metrics.health_scores@ == store.health_scores@,
        is_projection(
            r,
            store@,
            store.latencies_ms@,
            store.health_scores@,
            term,
            country,
            sub,
            criterion,
        ),
        is_projection(
            s,
            store@,
            metrics.latencies_ms@,
            metrics.health_scores@,
            term,
            country,
            sub,
            criterion,
        ),
    ensures
        r == s,
{
    law_projections_are_unique(
        r,
        s,
        store@,
        store.latencies_ms@,
        store.health_scores@,
        term,
        country,
        sub,
        criterion,
    );
}

/// An empty search keeps every row that passes the other filters; a search that
/// differs in the case of ASCII letters alone keeps the same rows.
pub proof fn law_searches_ignore_case(
    row: RowView,
    term: Seq<char>,
    other: Seq<char>,
    country: Option<[u8; 2]>,
    sub: Option<u16>,
)
    ensures
        is_match(row, Seq::empty(), country, sub) == ((sub matches Some(id) ==> row.sources.contains(
            id,
        )) && (country matches Some(code) ==> row.country_code@ == code@)),
        text::is_ascii(term) && text::is_ascii(other) && text::lower(term) == text::lower(other)
            ==> is_match(row, term, country, sub) == is_match(row, other, country, sub),
        text::is_ascii(term) && text::is_ascii(row.name) && is_match(row, Seq::empty(), country, sub)
            ==> is_match(row, term, country, sub) == (term.len() == 0 || text::contains(
            text::lower(row.name),
            text::lower(term),
        )),
{
    assert(text::lower(Seq::empty()) =~= Seq::empty());
    assert(text::lower(term).len() == term.len());
}

/// A query without a search and without filters lists every row, each once.
pub proof fn law_open_queries_list_every_row(
    r: Seq<u32>,
    rows: Seq<RowView>,
    latencies: Seq<u16>,
    healths: Seq<u8>,
    criterion: SortCriteria,
)
    requires
        rows.len() <= 0x1_0000_0000,
        is_projection(r, rows, latencies, healths, Seq::empty(), None, None, criterion),
    ensures
        r.to_multiset() == Seq::new(rows.len(), |i: int| i as u32).to_multiset(),
        r.len() == rows.len(),
{
    let all = Seq::new(rows.len(), |i: int| i as u32);
    assert forall|p: u32| r.contains(p) <==> all.contains(p) by {
        if all.contains(p) {
            law_searches_ignore_case(rows[p as int], Seq::empty(), Seq::empty(), None, None);
        }
        if r.contains(p) {
            assert(all[p as int] == p);
        }
    }
    lemma_same_items(r, all);
}

/// Other measurements and another criterion reorder a query's answer and change
/// nothing else: the same rows are listed, each once.
pub proof fn law_measurements_only_reorder(
    r: Seq<u32>,
    s: Seq<u32>,
    rows: Seq<RowView>,
    latencies: Seq<u16>,
    healths: Seq<u8>,
    other_latencies: Seq<u16>,
    other_healths: Seq<u8>,
    term: Seq<char>,
    country: Option<[u8; 2]>,
    sub: Option<u16>,
    criterion: SortCriteria,
    other_criterion: SortCriteria,
)
    requires
        rows.len() <= 0x1_0000_0000,
        is_projection(r, rows, latencies, healths, term, country, sub, criterion),
        is_projection(
            s,
            rows,
            other_latencies,
            other_healths,
            term,
            country,
            sub,
            other_criterion,
        ),
    ensures
        r.to_multiset() == s.to_multiset(),
        r.len() == s.len(),
{
    assert forall|p: u32| r.contains(p) <==> s.contains(p) by {
        if r.contains(p) {
            assert(is_match(rows[p as int], term, country, sub));
        }
        if s.contains(p) {
            assert(is_match(rows[p as int], term, country, sub));
        }
    }
    lemma_same_items(r, s);
}

/// Sequences without duplicates that hold the same items are permutations.
proof fn lemma_same_items(r: Seq<u32>, s: Seq<u32>)
    requires
        r.no_duplicates(),
        s.no_duplicates(),
        forall|p: u32| r.contains(p) <==> s.contains(p),
    ensures
        r.to_multiset() == s.to_multiset(),
        r.len() == s.len(),
{
    r.to_multiset_ensures();
    s.to_multiset_ensures();
    r.lemma_multiset_has_no_duplicates();
    s.lemma_multiset_has_no_duplicates();
    assert forall|p: u32| r.to_multiset().count(p) == s.to_multiset().count(p) by {
        assert(r.contains(p) <==> r.to_multiset().count(p) > 0);
        assert(s.contains(p) <==> s.to_multiset().count(p) > 0);
        if r.to_multiset().count(p) > 0 {
            assert(r.to_multiset().contains(p));
        }
        if s.to_multiset().count(p) > 0 {
            assert(s.to_multiset().contains(p));
        }
    }
    assert(r.to_multiset() =~= s.to_multiset());
}

/// The first `n` entries of one projection are those of any other.
proof fn lemma_prefixes_agree(
    r: Seq<u32>,
    s: Seq<u32>,
    rows: Seq<RowView>,
    latencies: Seq<u16>,
    healths: Seq<u8>,
    term: Seq<char>,
    country: Option<[u8; 2]>,
    sub: Option<u16>,
    criterion: SortCriteria,
    n: nat,
)
    requires
        rows.len() <= 0x1_0000_0000,
        is_projection(r, rows, latencies, healths, term, country, sub, criterion),
        is_projection(s, rows, latencies, healths, term, country, sub, criterion),
        n <= r.len(),
    ensures
        n <= s.len(),
        forall|k: int| 0 <= k < n ==> r[k] == s[k],
    decreases n,
{
    if n > 0 {
        let m = n - 1;
        lemma_prefixes_agree(
            r,
            s,
            rows,
            latencies,
            healths,
            term,
            country,
            sub,
            criterion,
            m as nat,
        );
        let x = r[m];
        assert(is_match(rows[x as int], term, country, sub));
        assert(s.contains(x));
        let at = choose|at: int| 0 <= at < s.len() && s[at] == x;
        assert(at >= m) by {
            if at < m {
                assert(r[at] == s[at]);
            }
        }
        let y = s[m];
        assert(is_match(rows[y as int], term, country, sub));
        assert(r.contains(y));
        let back = choose|back: int| 0 <= back < r.len() && r[back] == y;
        assert(back >= m) by {
            if back < m {
                assert(s[back] == r[back]);
            }
        }
        if x != y {
            lemma_rows_differ(rows, latencies, healths, criterion, x as int, y as int);
        }
    }
}

/// Of two rows one comes before the other.
proof fn lemma_rows_differ(
    rows: Seq<RowView>,
    latencies: Seq<u16>,
    healths: Seq<u8>,
    criterion: SortCriteria,
    a: int,
    b: int,
)
    requires
        0 <= a < rows.len(),
        0 <= b < rows.len(),
        a != b,
    ensures
        row_precedes(rows, latencies, healths, criterion, a, b) || row_precedes(
            rows,
            latencies,
            healths,
            criterion,
            b,
            a,
        ),
{
}

pub proof fn lemma_bytes_irreflexive(a: Seq<u8>)
    ensures
        !bytes_less(a, a),
    decreases a.len(),
{
    if a.len() > 0 {
        lemma_bytes_irreflexive(a.drop_first());
    }
}

pub proof fn lemma_bytes_transitive(a: Seq<u8>, b: Seq<u8>, c: Seq<u8>)
    requires
        bytes_less(a, b),
        bytes_less(b, c),
    ensures
        bytes_less(a, c),
    decreases a.len(),
{
    if a.len() > 0 && a[0] == b[0] && b[0] == c[0] {
        lemma_bytes_transitive(a.drop_first(), b.drop_first(), c.drop_first());
    }
}

pub proof fn lemma_bytes_weak(a: Seq<u8>, b: Seq<u8>, c: Seq<u8>)
    requires
        !bytes_less(b, a),
        !bytes_less(c, b),
    ensures
        !bytes_less(c, a),
    decreases a.len(),
{
    if a.len() > 0 && b.len() > 0 && c.len() > 0 && a[0] == b[0] && b[0] == c[0] {
        lemma_bytes_weak(a.drop_first(), b.drop_first(), c.drop_first());
    }
}

proof fn lemma_key_weak(
    rows: Seq<RowView>,
    latencies: Seq<u16>,
    healths: Seq<u8>,
    criterion: SortCriteria,
    a: int,
    b: int,
    c: int,
)
    requires
        !key_less(rows, latencies, healths, criterion, b, a),
        !key_less(rows, latencies, healths, criterion, c, b),
    ensures
        !key_less(rows, latencies, healths, criterion, c, a),
{
    match criterion {
        SortCriteria::CountryAsc => lemma_bytes_weak(
            rows[a].country_code@,
            rows[b].country_code@,
            rows[c].country_code@,
        ),
        SortCriteria::NameAsc => lemma_bytes_weak(
            vstd::utf8::encode_utf8(rows[a].name),
            vstd::utf8::encode_utf8(rows[b].name),
            vstd::utf8::encode_utf8(rows[c].name),
        ),
        _ => {},
    }
}

proof fn lemma_key_irreflexive(
    rows: Seq<RowView>,
    latencies: Seq<u16>,
    healths: Seq<u8>,
    criterion: SortCriteria,
    a: int,
)
    ensures
        !key_less(rows, latencies, healths, criterion, a, a),
{
    lemma_bytes_irreflexive(rows[a].country_code@);
    lemma_bytes_irreflexive(vstd::utf8::encode_utf8(rows[a].name));
}

// ---------------------------------------------------------------------------
// Executable forms
// ---------------------------------------------------------------------------

/// The order of two latencies: untested ones come last.
pub fn latency_order(left: u16, right: u16) -> (r: Ordering)
    ensures
        r == (if latency_less(left, right) {
            Ordering::Less
        } else if latency_less(right, left) {
            Ordering::Greater
        } else {
            Ordering::Equal
        }),
{
    if left == UNTESTED_LATENCY && right == UNTESTED_LATENCY {
        Ordering::Equal
    } else if left == UNTESTED_LATENCY {
        Ordering::Greater
    } else if right == UNTESTED_LATENCY {
        Ordering::Less
    } else if left < right {
        Ordering::Less
    } else if left > right {
        Ordering::Greater
    } else {
        Ordering::Equal
    }
}

/// Whether bytes come before others in lexicographic order.
pub(crate) fn is_bytes_less(a: &[u8], b: &[u8]) -> (r: bool)
    ensures
        r == bytes_less(a@, b@),
{
    let mut i: usize = 0;
    assert(a@.skip(0) =~= a@);
    assert(b@.skip(0) =~= b@);
    while i < a.len() && i < b.len()
        invariant
            i <= a@.len(),
            i <= b@.len(),
            bytes_less(a@, b@) == bytes_less(a@.skip(i as int), b@.skip(i as int)),
        decreases a@.len() - i,
    {
        assert(a@.skip(i as int).drop_first() =~= a@.skip(i + 1));
        assert(b@.skip(i as int).drop_first() =~= b@.skip(i + 1));
        if a[i] != b[i] {
            return a[i] < b[i];
        }
        i += 1;
    }
    i < b.len()
}

fn is_latency_less(left: u16, right: u16) -> (r: bool)
    ensures
        r == latency_less(left, right),
{
    match latency_order(left, right) {
        Ordering::Less => true,
        _ => false,
    }
}

/// The order of a query's rows.
struct QueryOrder<'a> {
    store: &'a DenseNodeStore,
    latencies: &'a Vec<u16>,
    healths: &'a Vec<u8>,
    criterion: SortCriteria,
}

impl<'a> QueryOrder<'a> {
    fn latency(&self, i: usize) -> (r: u16)
        ensures
            r == latency_at(self.latencies@, i as int),
    {
        if i < self.latencies.len() {
            self.latencies[i]
        } else {
            UNTESTED_LATENCY
        }
    }

    fn health(&self, i: usize) -> (r: u8)
        ensures
            r == health_at(self.healths@, i as int),
    {
        if i < self.healths.len() {
            self.healths[i]
        } else {
            0
        }
    }

    fn is_key_less(&self, a: usize, b: usize) -> (r: bool)
        requires
            self.store.wf(),
            a < self.store@.len(),
            b < self.store@.len(),
        ensures
            r == key_less(
                self.store@,
                self.latencies@,
                self.healths@,
                self.criterion,
                a as int,
                b as int,
            ),
    {
        match self.criterion {
            SortCriteria::LatencyAsc => is_latency_less(self.latency(a), self.latency(b)),
            SortCriteria::LatencyDesc => is_latency_less(self.latency(b), self.latency(a)),
            SortCriteria::CountryAsc => is_bytes_less(
                &self.store.country_codes[a],
                &self.store.country_codes[b],
            ),
            SortCriteria::NameAsc => is_bytes_less(
                self.store.names[a].as_str().as_bytes(),
                self.store.names[b].as_str().as_bytes(),
            ),
            SortCriteria::HealthScoreDesc => self.health(b) < self.health(a),
        }
    }
}

impl<'a> Order for QueryOrder<'a> {
    closed spec fn is_item(&self, a: usize) -> bool {
        self.store.wf() && a < self.store@.len()
    }

    closed spec fn precedes(&self, a: usize, b: usize) -> bool {
        row_precedes(
            self.store@,
            self.latencies@,
            self.healths@,
            self.criterion,
            a as int,
            b as int,
        )
    }

    fn less(&self, a: usize, b: usize) -> (r: bool) {
        if self.is_key_less(a, b) {
            return true;
        }
        !self.is_key_less(b, a) && (self.store.node_ids[a] < self.store.node_ids[b] || (
        self.store.node_ids[a] == self.store.node_ids[b] && a < b))
    }

    proof fn irreflexive(&self, a: usize) {
        lemma_key_irreflexive(
            self.store@,
            self.latencies@,
            self.healths@,
            self.criterion,
            a as int,
        );
    }

    proof fn transitive(&self, a: usize, b: usize, c: usize) {
        let rows = self.store@;
        let l = self.latencies@;
        let h = self.healths@;
        let (x, y, z) = (a as int, b as int, c as int);
        if !key_less(rows, l, h, self.criterion, x, z) {
            if !key_less(rows, l, h, self.criterion, z, y) {
                lemma_key_weak(rows, l, h, self.criterion, y, z, x);
            }
            if !key_less(rows, l, h, self.criterion, y, x) {
                lemma_key_weak(rows, l, h, self.criterion, z, x, y);
            }
            if key_less(rows, l, h, self.criterion, z, x) {
                if !key_less(rows, l, h, self.criterion, y, x) && !key_less(
                    rows,
                    l,
                    h,
                    self.criterion,
                    z,
                    y,
                ) {
                    lemma_key_weak(rows, l, h, self.criterion, x, y, z);
                }
            }
            if key_less(rows, l, h, self.criterion, y, x) {
                self.lemma_asymmetric(a, b);
            }
            if key_less(rows, l, h, self.criterion, z, y) {
                self.lemma_asymmetric(b, c);
            }
        }
    }

    proof fn weakly_transitive(&self, a: usize, b: usize, c: usize) {
        let rows = self.store@;
        let l = self.latencies@;
        let h = self.healths@;
        let (x, y, z) = (a as int, b as int, c as int);
        lemma_key_weak(rows, l, h, self.criterion, x, y, z);
        if !key_less(rows, l, h, self.criterion, x, z) {
            lemma_key_weak(rows, l, h, self.criterion, y, z, x);
            lemma_key_weak(rows, l, h, self.criterion, z, x, y);
        }
    }
}

impl<'a> QueryOrder<'a> {
    /// Two rows do not both come before each other by the criterion.
    proof fn lemma_asymmetric(&self, a: usize, b: usize)
        ensures
            !(key_less(
                self.store@,
                self.latencies@,
                self.healths@,
                self.criterion,
                a as int,
                b as int,
            ) && key_less(
                self.store@,
                self.latencies@,
                self.healths@,
                self.criterion,
                b as int,
                a as int,
            )),
    {
        let rows = self.store@;
        let (x, y) = (a as int, b as int);
        match self.criterion {
            SortCriteria::CountryAsc => {
                if bytes_less(rows[x].country_code@, rows[y].country_code@) && bytes_less(
                    rows[y].country_code@,
                    rows[x].country_code@,
                ) {
                    lemma_bytes_transitive(
                        rows[x].country_code@,
                        rows[y].country_code@,
                        rows[x].country_code@,
                    );
                    lemma_bytes_irreflexive(rows[x].country_code@);
                }
            },
            SortCriteria::NameAsc => {
                let p = vstd::utf8::encode_utf8(rows[x].name);
                let q = vstd::utf8::encode_utf8(rows[y].name);
                if bytes_less(p, q) && bytes_less(q, p) {
                    lemma_bytes_transitive(p, q, p);
                    lemma_bytes_irreflexive(p);
                }
            },
            _ => {},
        }
    }
}

/// Whether a name in lower case holds a search term in lower case.
pub fn name_matches(name_lower: &str, search: &str) -> (r: bool)
    ensures
        r == holds_term(name_lower@, search@),
{
    let term = text::to_chars(search);
    term.len() == 0 || text::contains_chars(&text::to_chars(name_lower), &term)
}

/// The positions of the matching rows, in order.
fn matching(
    store: &DenseNodeStore,
    search_term: &str,
    country_filter: Option<[u8; 2]>,
    sub_filter: Option<u16>,
) -> (r: Vec<usize>)
    requires
        store.wf(),
    ensures
        forall|i: int, j: int| 0 <= i < j < r@.len() ==> r@[i] < r@[j],
        forall|i: int|
            0 <= i < r@.len() ==> (#[trigger] r@[i]) < store@.len() && is_match(
                store@[r@[i] as int],
                search_term@,
                country_filter,
                sub_filter,
            ),
        forall|p: int|
            0 <= p < store@.len() && is_match(
                #[trigger] store@[p],
                search_term@,
                country_filter,
                sub_filter,
            ) ==> r@.contains(p as usize),
{
    let search = text::to_lowercase(search_term);
    let total: usize = store.len();
    let mut r: Vec<usize> = Vec::new();
    let mut index: usize = 0;
    while index < total
        invariant
            index <= total,
            total == store@.len(),
            store.wf(),
            search@ == text::lowercase(search_term@),
            forall|i: int, j: int| 0 <= i < j < r@.len() ==> r@[i] < r@[j],
            forall|i: int|
                0 <= i < r@.len() ==> (#[trigger] r@[i]) < index && is_match(
                    store@[r@[i] as int],
                    search_term@,
                    country_filter,
                    sub_filter,
                ),
            forall|p: int|
                0 <= p < index && is_match(
                    #[trigger] store@[p],
                    search_term@,
                    country_filter,
                    sub_filter,
                ) ==> r@.contains(p as usize),
        decreases total - index,
    {
        let from_sub = match sub_filter {
            None => true,
            Some(sub_id) => store.has_source(index, sub_id),
        };
        let in_country = match country_filter {
            None => true,
            Some(code) => text::same_bytes(&store.country_codes[index], &code),
        };
        assert(store.name_lower@[index as int]@ == text::lowercase(store.names@[index as int]@));
        let named = name_matches(store.name_lower[index].as_str(), search.as_str());
        let ghost before = r@;
        if from_sub && in_country && named {
            r.push(index);
            assert(r@[r@.len() - 1] == index);
            assert forall|p: int|
                0 <= p < index + 1 && is_match(
                    #[trigger] store@[p],
                    search_term@,
                    country_filter,
                    sub_filter,
                ) implies r@.contains(p as usize) by {
                if p < index {
                    assert(before.contains(p as usize));
                    let at = choose|at: int| 0 <= at < before.len() && before[at] == p as usize;
                    assert(r@[at] == p as usize);
                }
            }
        }
        index += 1;
    }
    r
}

fn run_query(
    store: &DenseNodeStore,
    search_term: &str,
    country_filter: Option<[u8; 2]>,
    sub_filter: Option<u16>,
    criterion: SortCriteria,
    latencies: &Vec<u16>,
    healths: &Vec<u8>,
) -> (r: Vec<u32>)
    requires
        store.wf(),
        store@.len() <= 0x1_0000_0000,
    ensures
        is_projection(
            r@,
            store@,
            latencies@,
            healths@,
            search_term@,
            country_filter,
            sub_filter,
            criterion,
        ),
{
    let found = matching(store, search_term, country_filter, sub_filter);
    let order = QueryOrder { store, latencies, healths, criterion };
    let ghost unsorted = found@;
    let sorted = sort::sort_positions(&order, found);
    let mut r: Vec<u32> = Vec::new();
    let mut i: usize = 0;
    while i < sorted.len()
        invariant
            i <= sorted@.len(),
            r@.len() == i,
            forall|k: int| 0 <= k < sorted@.len() ==> (#[trigger] sorted@[k]) < 0x1_0000_0000,
            forall|k: int| 0 <= k < i ==> #[trigger] r@[k] == sorted@[k],
        decreases sorted@.len() - i,
    {
        assert(sorted@[i as int] < 0x1_0000_0000);
        r.push(sorted[i] as u32);
        i += 1;
    }
    proof {
        assert forall|k: int| 0 <= k < r@.len() implies (#[trigger] r@[k]) < store@.len() && is_match(
            store@[r@[k] as int],
            search_term@,
            country_filter,
            sub_filter,
        ) by {
            assert(unsorted.contains(sorted@[k]));
        }
        assert forall|p: int|
            0 <= p < store@.len() && is_match(
                #[trigger] store@[p],
                search_term@,
                country_filter,
                sub_filter,
            ) implies r@.contains(p as u32) by {
            assert(unsorted.contains(p as usize));
            let at = choose|at: int| 0 <= at < unsorted.len() && unsorted[at] == p as usize;
            assert(sorted@.contains(unsorted[at]));
            let to = choose|to: int| 0 <= to < sorted@.len() && sorted@[to] == p as usize;
            assert(r@[to] == p as u32);
        }
        assert forall|x: int, y: int| 0 <= x < y < r@.len() implies !row_precedes(
            store@,
            latencies@,
            healths@,
            criterion,
            #[trigger] r@[y] as int,
            #[trigger] r@[x] as int,
        ) by {
            assert(!order.precedes(sorted@[y], sorted@[x]));
        }
        assert(r@.no_duplicates()) by {
            assert forall|x: int, y: int|
                0 <= x < r@.len() && 0 <= y < r@.len() && x != y implies r@[x] != r@[y] by {
                assert(sorted@[x] != sorted@[y]);
            }
        }
    }
    r
}

/// The positions of the rows that pass the filters, sorted; latency and health
/// come from the store.
pub fn query(
    store: &DenseNodeStore,
    search_term: &str,
    country_filter: Option<[u8; 2]>,
    sub_filter: Option<u16>,
    sort: SortCriteria,
) -> (r: Vec<u32>)
    requires
        store.wf(),
        store@.len() <= 0x1_0000_0000,
    ensures
        is_projection(
            r@,
            store@,
            store.latencies_ms@,
            store.health_scores@,
            search_term@,
            country_filter,
            sub_filter,
            sort,
        ),
{
    run_query(
        store,
        search_term,
        country_filter,
        sub_filter,
        sort,
        &store.latencies_ms,
        &store.health_scores,
    )
}

/// The same projection with latency and health from the measurements, so that
/// live probes are reflected in the order.
pub fn query_with_metrics(
    store: &DenseNodeStore,
    metrics: &MetricsArena,
    search_term: &str,
    country_filter: Option<[u8; 2]>,
    sub_filter: Option<u16>,
    sort: SortCriteria,
) -> (r: Vec<u32>)
    requires
        store.wf(),
        store@.len() <= 0x1_0000_0000,
    ensures
        is_projection(
            r@,
            store@,
            metrics.latencies_ms@,
            metrics.health_scores@,
            search_term@,
            country_filter,
            sub_filter,
            sort,
        ),
{
    run_query(
        store,
        search_term,
        country_filter,
        sub_filter,
        sort,
        &metrics.latencies_ms,
        &metrics.health_scores,
    )
}

} // verus!
