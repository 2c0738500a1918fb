//! What searching the store promises.
use crate::storage::query_engine;
use crate::storage::query_engine::SortCriteria;
use crate::storage::soa_store::RowView;
use crate::text;
use vstd::prelude::*;

verus! {

/// The measured latency of a position, or the greatest there is.
pub open spec fn measured(latencies: Seq<u16>, i: int) -> u16 {
    if 0 <= i < latencies.len() {
        latencies[i]
    } else {
        0xffff
    }
}

/// The measured health of a position, or none.
pub open spec fn fitness(healths: Seq<u8>, i: int) -> u8 {
    if 0 <= i < healths.len() {
        healths[i]
    } else {
        0
    }
}

/// The texts agree up to a position, at which the first ends or has the smaller byte.
pub open spec fn comes_first(a: Seq<u8>, b: Seq<u8>, k: int) -> bool {
    &&& 0 <= k <= a.len() && k <= b.len()
    &&& forall|i: int| 0 <= i < k ==> a[i] == b[i]
    &&& k == a.len() || (k < b.len() && a[k] < b[k])
}

pub proof fn lemma_not_less(a: Seq<u8>, b: Seq<u8>)
    requires
        !query_engine::bytes_less(b, a),
    ensures
        exists|k: int| comes_first(a, b, k),
        !query_engine::bytes_less(a, b) ==> a == b,
    decreases a.len(),
{
    if a.len() == 0 {
        assert(comes_first(a, b, 0));
        if b.len() == 0 {
            assert(a =~= b);
        }
    } else if a[0] != b[0] {
        assert(comes_first(a, b, 0));
    } else {
        let (c, d) = (a.drop_first(), b.drop_first());
        lemma_not_less(c, d);
        let k = choose|k: int| comes_first(c, d, k);
        assert forall|i: int| 0 <= i < k + 1 implies a[i] == b[i] by {
            if i > 0 {
                assert(c[i - 1] == d[i - 1]);
            }
        }
        if k < c.len() {
            assert(c[k] == a[k + 1] && d[k] == b[k + 1]);
        }
        assert(comes_first(a, b, k + 1));
        if c == d {
            assert(a =~= seq![a[0]] + c);
            assert(b =~= seq![b[0]] + d);
        }
    }
}

/// Of two rows that a query by country lists, the first has the smaller code, byte by
/// byte, or the same.
pub proof fn law_countries_are_listed_in_order(
    r: Seq<u32>,
    rows: Seq<RowView>,
    latencies: Seq<u16>,
    healths: Seq<u8>,
    term: Seq<char>,
    country: Option<[u8; 2]>,
    sub: Option<u16>,
    i: int,
    j: int,
)
    requires
        query_engine::is_projection(
            r,
            rows,
            latencies,
            healths,
            term,
            country,
            sub,
            SortCriteria::CountryAsc,
        ),
        0 <= i < j < r.len(),
    ensures
        ({
            let x = rows[r[i] as int].country_code;
            let y = rows[r[j] as int].country_code;
            x[0] < y[0] || (x[0] == y[0] && x[1] <= y[1])
        }),
{
    let (a, b) = (rows[r[i] as int].country_code, rows[r[j] as int].country_code);
    assert(!query_engine::row_precedes(
        rows,
        latencies,
        healths,
        SortCriteria::CountryAsc,
        r[j] as int,
        r[i] as int,
    ));
    lemma_not_less(a@, b@);
    let k = choose|k: int| comes_first(a@, b@, k);
    assert(a@.len() == 2 && b@.len() == 2);
    assert(a@[0] == a[0] && a@[1] == a[1] && b@[0] == b[0] && b@[1] == b[1]);
}

/// Of two rows that a query by name lists, the first has the smaller name, byte by
/// byte in UTF-8, or the same.
pub proof fn law_names_are_listed_in_order(
    r: Seq<u32>,
    rows: Seq<RowView>,
    latencies: Seq<u16>,
    healths: Seq<u8>,
    term: Seq<char>,
    country: Option<[u8; 2]>,
    sub: Option<u16>,
    i: int,
    j: int,
)
    requires
        query_engine::is_projection(
            r,
            rows,
            latencies,
            healths,
            term,
            country,
            sub,
            SortCriteria::NameAsc,
        ),
        0 <= i < j < r.len(),
    ensures
        exists|k: int|
            comes_first(
                vstd::utf8::encode_utf8(rows[r[i] as int].name),
                vstd::utf8::encode_utf8(rows[r[j] as int].name),
                k,
            ),
{
    assert(!query_engine::row_precedes(
        rows,
        latencies,
        healths,
        SortCriteria::NameAsc,
        r[j] as int,
        r[i] as int,
    ));
    lemma_not_less(
        vstd::utf8::encode_utf8(rows[r[i] as int].name),
        vstd::utf8::encode_utf8(rows[r[j] as int].name),
    );
}

/// A query by latency lists what was measured from the fastest to the slowest, and
/// after that what was not; the other way round it lists them the other way round. A
/// query by health lists the healthiest first.
pub proof fn law_measurements_are_listed_in_order(
    r: Seq<u32>,
    rows: Seq<RowView>,
    latencies: Seq<u16>,
    healths: Seq<u8>,
    term: Seq<char>,
    country: Option<[u8; 2]>,
    sub: Option<u16>,
    criterion: SortCriteria,
    i: int,
    j: int,
)
    requires
        query_engine::is_projection(
            r,
            rows,
            latencies,
            healths,
            term,
            country,
            sub,
            criterion,
        ),
        0 <= i < j < r.len(),
    ensures
        criterion is LatencyAsc ==> measured(latencies, r[i] as int) <= measured(
            latencies,
            r[j] as int,
        ),
        criterion is LatencyDesc ==> measured(latencies, r[i] as int) >= measured(
            latencies,
            r[j] as int,
        ),
        criterion is HealthScoreDesc ==> fitness(healths, r[i] as int) >= fitness(
            healths,
            r[j] as int,
        ),
{
    assert(!query_engine::row_precedes(
        rows,
        latencies,
        healths,
        criterion,
        r[j] as int,
        r[i] as int,
    ));
}

/// Rows that the criterion does not tell apart are listed by their identifiers, and
/// those with one identifier in the order of the store.
pub proof fn law_ties_are_listed_by_identifier(
    r: Seq<u32>,
    rows: Seq<RowView>,
    latencies: Seq<u16>,
    healths: Seq<u8>,
    term: Seq<char>,
    country: Option<[u8; 2]>,
    sub: Option<u16>,
    criterion: SortCriteria,
    i: int,
    j: int,
)
    requires
        query_engine::is_projection(
            r,
            rows,
            latencies,
            healths,
            term,
            country,
            sub,
            criterion,
        ),
        0 <= i < j < r.len(),
        match criterion {
            SortCriteria::LatencyAsc | SortCriteria::LatencyDesc => measured(
                latencies,
                r[i] as int,
            ) == measured(latencies, r[j] as int),
            SortCriteria::CountryAsc => rows[r[i] as int].country_code@
                == rows[r[j] as int].country_code@,
            SortCriteria::NameAsc => rows[r[i] as int].name == rows[r[j] as int].name,
            SortCriteria::HealthScoreDesc => fitness(healths, r[i] as int) == fitness(
                healths,
                r[j] as int,
            ),
        },
    ensures
        rows[r[i] as int].id < rows[r[j] as int].id || (rows[r[i] as int].id == rows[r[j] as int].id
            && r[i] < r[j]),
{
    assert(!query_engine::row_precedes(
        rows,
        latencies,
        healths,
        criterion,
        r[j] as int,
        r[i] as int,
    ));
    query_engine::lemma_bytes_irreflexive(rows[r[i] as int].country_code@);
    query_engine::lemma_bytes_irreflexive(vstd::utf8::encode_utf8(rows[r[i] as int].name));
}

/// A query lists a row exactly if the row passes its filters: one of the row's sources
/// is the subscription, its country has the two bytes of the code, and where name and
/// term are ASCII the term stands somewhere in the name, but for the case of letters.
pub proof fn law_queries_list_what_passes_the_filters(
    r: Seq<u32>,
    rows: Seq<RowView>,
    latencies: Seq<u16>,
    healths: Seq<u8>,
    term: Seq<char>,
    country: Option<[u8; 2]>,
    sub: Option<u16>,
    criterion: SortCriteria,
    p: u32,
)
    requires
        query_engine::is_projection(
            r,
            rows,
            latencies,
            healths,
            term,
            country,
            sub,
            criterion,
        ),
        p < rows.len() <= 0x1_0000_0000,
        forall|i: int| 0 <= i < term.len() ==> (#[trigger] term[i] as u32) < 128,
        forall|i: int|
            0 <= i < rows[p as int].name.len() ==> (#[trigger] rows[p as int].name[i] as u32) < 128,
    ensures
        r.contains(p) <==> {
            let row = rows[p as int];
            &&& sub is Some ==> exists|k: int|
                0 <= k < row.sources.len() && #[trigger] row.sources[k] == sub->0
            &&& country is Some ==> row.country_code[0] == country->0[0] && row.country_code[1]
                == country->0[1]
            &&& exists|at: int|
                0 <= at <= row.name.len() - term.len() && text::lower(
                    #[trigger] row.name.subrange(at, at + term.len()),
                ) == text::lower(term)
        },
        forall|k: int| 0 <= k < r.len() ==> (#[trigger] r[k]) < rows.len(),
        r.no_duplicates(),
{
    let row = rows[p as int];
    assert(text::is_ascii(term));
    assert(text::is_ascii(row.name));
    if r.contains(p) {
        let i = choose|i: int| 0 <= i < r.len() && r[i] == p;
        assert(query_engine::is_match(rows[r[i] as int], term, country, sub));
    }
    assert(query_engine::is_match(row, term, country, sub) <==> r.contains(p));
    assert(country is Some ==> (row.country_code@ == country->0@ <==> row.country_code[0]
        == country->0[0] && row.country_code[1] == country->0[1])) by {
        if country is Some {
            if row.country_code[0] == country->0[0] && row.country_code[1] == country->0[1] {
                assert(row.country_code@ =~= country->0@);
            } else if row.country_code@ == country->0@ {
                assert(row.country_code@[0] == country->0@[0]);
                assert(row.country_code@[1] == country->0@[1]);
            }
        }
    }
    lemma_windows(row.name, term);
}

/// A text holds another, but for the case of letters, exactly if it does so in lower
/// case.
proof fn lemma_windows(name: Seq<char>, term: Seq<char>)
    ensures
        query_engine::holds_term(text::lower(name), text::lower(term)) <==> exists|at: int|
            0 <= at <= name.len() - term.len() && text::lower(
                #[trigger] name.subrange(at, at + term.len()),
            ) == text::lower(term),
{
    let n = term.len() as int;
    assert forall|at: int| 0 <= at <= name.len() - n implies text::lower(
        #[trigger] name.subrange(at, at + n),
    ) == text::lower(name).subrange(at, at + n) by {
        assert(text::lower(name.subrange(at, at + n)) =~= text::lower(name).subrange(at, at + n));
    }
    if n == 0 {
        assert(name.subrange(0, 0 + n) =~= term);
        assert(text::lower(term).len() == 0);
    }
    if query_engine::holds_term(text::lower(name), text::lower(term)) && n > 0 {
        let at = choose|at: int| text::occurs_at(text::lower(name), text::lower(term), at);
        assert(text::lower(name.subrange(at, at + n)) == text::lower(term));
    }
    if exists|at: int|
        0 <= at <= name.len() - n && text::lower(#[trigger] name.subrange(at, at + n))
            == text::lower(term) {
        let at = choose|at: int|
            0 <= at <= name.len() - n && text::lower(#[trigger] name.subrange(at, at + n))
                == text::lower(term);
        assert(text::occurs_at(text::lower(name), text::lower(term), at));
    }
}

} // verus!
