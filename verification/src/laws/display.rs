//! What is shown of nodes promises.
use crate::controller::ranking::ScoreView;
use crate::gui::dispatcher;
use crate::gui::dispatcher::{Item, Latest};
use crate::gui::status;
use crate::gui::view_state;
use crate::gui::virtual_model;
use crate::laws;
use crate::storage::query_engine::SortCriteria;
use crate::storage::soa_store;
use crate::storage::soa_store::RowView;
use crate::text;
use vstd::prelude::*;

verus! {

/// A live node loses a point of health for every eight milliseconds, down to ten; one
/// without a measured latency loses none, and a dead one has none.
pub proof fn law_health_follows_latency(ms: u16)
    ensures
        ms < 728 ==> {
            let h = status::health_of(true, Some(ms));
            (100 - h) * 8 <= ms < (100 - h) * 8 + 8
        },
        ms >= 728 ==> status::health_of(true, Some(ms)) == 10,
        status::health_of(true, None) == 100,
        status::health_of(false, Some(ms)) == 0,
        status::health_of(false, None) == 0,
        status::or_untested(Some(ms)) == ms,
        status::or_untested(None) == 0xffff,
{
}

/// A score is shown in whole milliseconds.
pub proof fn law_scores_are_shown_in_milliseconds(s: ScoreView)
    ensures
        s.median_latency is None ==> status::score_latency(s) is None,
        s.median_latency is Some && s.median_latency->0.nanos < 65_536_000_000 ==> {
            let ms = status::score_latency(s);
            ms is Some && ms->0 * 1_000_000 <= s.median_latency->0.nanos < (ms->0 + 1) * 1_000_000
        },
{
}

/// The value of a flag is what follows it where it stands first.
pub proof fn law_values_follow_their_flags(args: Seq<Seq<char>>, flag: Seq<char>, i: int, from: int)
    requires
        0 <= from,
    ensures
        from <= i && i + 1 < args.len() && args[i] == flag && (forall|j: int|
            from <= j < i ==> #[trigger] args[j] != flag) ==> status::value_from(args, flag, from)
            == Some(args[i + 1]),
        (forall|j: int| from <= j < args.len() - 1 ==> #[trigger] args[j] != flag)
            ==> status::value_from(args, flag, from) is None,
    decreases args.len() - from,
{
    if from + 1 < args.len() {
        law_values_follow_their_flags(args, flag, i, from + 1);
        if from < i && forall|j: int| from <= j < i ==> #[trigger] args[j] != flag {
            assert(args[from] != flag);
        }
        if forall|j: int| from <= j < args.len() - 1 ==> #[trigger] args[j] != flag {
            assert(args[from] != flag);
        }
    }
}

/// A number that is filled up with zeros is that number, in at least five digits.
pub proof fn law_filled_up_numbers_keep_their_value(n: nat)
    ensures
        status::five_digits(n).len() >= 5,
        text::unsigned_number(status::five_digits(n), 10, n) == Some(n),
        n >= 10_000 ==> status::five_digits(n) == text::decimal(n),
{
    laws::text::lemma_decimal(n);
    let d = text::decimal(n);
    if d.len() < 5 {
        lemma_zeros((5 - d.len()) as nat, d);
    } else {
        assert(d[0] != '+');
    }
    if n >= 10_000 {
        reveal_with_fuel(text::number_text, 5);
        lemma_five(n);
    }
}

proof fn lemma_five(n: nat)
    requires
        n >= 10_000,
    ensures
        text::decimal(n).len() >= 5,
    decreases n,
{
    reveal_with_fuel(text::number_text, 6);
    assert(n / 10 >= 1000 && n / 10 / 10 >= 100 && n / 10 / 10 / 10 >= 10 && n / 10 / 10 / 10 / 10
        >= 1);
    lemma_at_least_one(n / 10 / 10 / 10 / 10);
    assert(text::decimal(n / 10 / 10 / 10).len() >= 2);
    assert(text::decimal(n / 10 / 10).len() >= 3);
    assert(text::decimal(n / 10).len() >= 4);
}

proof fn lemma_at_least_one(n: nat)
    ensures
        text::decimal(n).len() >= 1,
{
    laws::text::lemma_decimal(n);
}

proof fn lemma_zeros(k: nat, d: Seq<char>)
    requires
        d.len() > 0,
        forall|i: int| 0 <= i < d.len() ==> '0' <= #[trigger] d[i] <= '9',
    ensures
        text::unsigned_number(status::zeros(k) + d, 10, text::number_value(d, 10)) == Some(
            text::number_value(d, 10),
        ),
{
    let s = status::zeros(k) + d;
    lemma_zeros_value(k, d);
    assert forall|i: int| 0 <= i < s.len() implies '0' <= #[trigger] s[i] <= '9' by {
        if i >= k {
            assert(s[i] == d[i - k]);
        }
    }
    assert(s[0] != '+');
    laws::text::law_numbers_are_digits(s, s, text::number_value(d, 10));
}

proof fn lemma_zeros_value(k: nat, d: Seq<char>)
    ensures
        text::number_value(status::zeros(k) + d, 10) == text::number_value(d, 10),
    decreases k + d.len(),
{
    let s = status::zeros(k) + d;
    if d.len() > 0 {
        assert(s.drop_last() =~= status::zeros(k) + d.drop_last());
        assert(s.last() == d.last());
        lemma_zeros_value(k, d.drop_last());
    } else if k > 0 {
        let m = (k - 1) as nat;
        assert(s.drop_last() =~= status::zeros(m) + d);
        assert(s.last() == '0');
        lemma_zeros_value(m, d);
    } else {
        assert(s =~= d);
    }
}

/// The orders have names, and any other name is the order by latency; the orders by
/// country and by name do not follow measurements, and all others do.
pub proof fn law_orders_have_names(name: Seq<char>, sort: SortCriteria)
    ensures
        view_state::sort_named(name) is CountryAsc <==> name == "country"@,
        view_state::sort_named(name) is NameAsc <==> name == "name"@,
        view_state::sort_named(name) is HealthScoreDesc <==> name == "health"@,
        name != "country"@ && name != "name"@ && name != "health"@ ==> view_state::sort_named(
            name,
        ) is LatencyAsc,
        view_state::follows_metrics(sort) <==> !(sort is CountryAsc) && !(sort is NameAsc),
{
    reveal_strlit("country");
    reveal_strlit("name");
    reveal_strlit("health");
    assert("country"@.len() == 7 && "name"@.len() == 4 && "health"@.len() == 6);
}

/// A row is drawn with what is known of the node, its latency in milliseconds or a dash,
/// green below 150, amber below 350 and red from there on, and grey where it is not
/// known. It is marked exactly if its node is the selected one.
pub proof fn law_rows_are_drawn(r: RowView, latency: u16, active: Option<u32>)
    ensures
        ({
            let d = virtual_model::drawn(r, latency, active);
            let c = d.latency_color;
            &&& d.id == r.id && d.name == r.name && d.protocol == r.protocol.name()
            &&& d.is_active <==> active is Some && active->0 == r.id
            &&& latency < 0xffff ==> d.latency_text == text::decimal(latency as nat) + " ms"@
            &&& latency == 0xffff ==> d.latency_text == "\u{2014}"@
            &&& latency == 0xffff ==> c.red == 113 && c.green == 113 && c.blue == 122
            &&& latency < 150 ==> c.red == 70 && c.green == 167 && c.blue == 88
            &&& 150 <= latency < 350 ==> c.red == 245 && c.green == 166 && c.blue == 35
            &&& 350 <= latency < 0xffff ==> c.red == 229 && c.green == 72 && c.blue == 77
            &&& vstd::utf8::valid_utf8(r.country_code@) ==> d.country == vstd::utf8::decode_utf8(
                r.country_code@,
            )
            &&& !vstd::utf8::valid_utf8(r.country_code@) ==> d.country == "UN"@
        }),
{
}

/// The name that is shown is that of the first listed node with the identifier; where
/// none is listed, none is selected.
pub proof fn law_the_first_listed_name_is_shown(
    rows: Seq<RowView>,
    indices: Seq<u32>,
    id: u32,
    i: int,
    from: int,
)
    requires
        0 <= from,
    ensures
        from <= i < indices.len() && indices[i] < rows.len() && rows[indices[i] as int].id == id
            && (forall|j: int|
            from <= j < i ==> #[trigger] indices[j] >= rows.len() || rows[indices[j] as int].id
                != id) ==> virtual_model::name_from(rows, indices, id, from)
            == rows[indices[i] as int].name,
        (forall|j: int|
            from <= j < indices.len() ==> #[trigger] indices[j] >= rows.len()
                || rows[indices[j] as int].id != id) ==> virtual_model::name_from(
            rows,
            indices,
            id,
            from,
        ) == "No node selected"@,
    decreases indices.len() - from,
{
    if from < indices.len() {
        law_the_first_listed_name_is_shown(rows, indices, id, i, from + 1);
        if from < i && forall|j: int|
            from <= j < i ==> #[trigger] indices[j] >= rows.len() || rows[indices[j] as int].id
                != id {
            assert(indices[from] >= rows.len() || rows[indices[from] as int].id != id);
        }
        if forall|j: int|
            from <= j < indices.len() ==> #[trigger] indices[j] >= rows.len()
                || rows[indices[j] as int].id != id {
            assert(indices[from] >= rows.len() || rows[indices[from] as int].id != id);
        }
    }
}

/// The rows to draw again are those of the identifiers that are listed, in order.
pub proof fn law_listed_identifiers_are_drawn_again(by_id: Map<u32, usize>, ids: Seq<u32>)
    ensures
        virtual_model::shown_rows(by_id, ids) == ids.filter(
            |id: u32| by_id.contains_key(id),
        ).map_values(|id: u32| by_id[id]),
    decreases ids.len(),
{
    reveal(Seq::filter);
    let keep = |id: u32| by_id.contains_key(id);
    let row = |id: u32| by_id[id];
    if ids.len() == 0 {
        assert(ids.filter(keep).map_values(row) =~= Seq::empty());
    } else {
        let rest = ids.drop_last();
        law_listed_identifiers_are_drawn_again(by_id, rest);
        if keep(ids.last()) {
            assert(rest.filter(keep).push(ids.last()).map_values(row) =~= rest.filter(
                keep,
            ).map_values(row).push(by_id[ids.last()]));
        }
    }
}

/// A row is found by its identifier only if a node with it is listed there.
pub proof fn law_rows_are_found_by_identifier(
    rows: Seq<RowView>,
    indices: Seq<u32>,
    n: nat,
    id: u32,
)
    requires
        n <= indices.len() <= usize::MAX,
    ensures
        virtual_model::rows_by_id(rows, indices, n).contains_key(id) ==> {
            let at = virtual_model::rows_by_id(rows, indices, n)[id];
            at < n && indices[at as int] < rows.len() && rows[indices[at as int] as int].id == id
        },
        !virtual_model::rows_by_id(rows, indices, n).contains_key(id) ==> forall|i: int|
            0 <= i < n && indices[i] < rows.len() ==> rows[#[trigger] indices[i] as int].id != id,
    decreases n,
{
    if n > 0 {
        law_rows_are_found_by_identifier(rows, indices, (n - 1) as nat, id);
    }
}

/// Results change what is known of their nodes and of no other.
pub proof fn law_results_change_their_nodes_only(latest: Latest, items: Seq<Item>, id: u32)
    requires
        forall|i: int| 0 <= i < items.len() ==> (#[trigger] items[i]).0 != id,
    ensures
        dispatcher::noted(latest, items).contains_key(id) == latest.contains_key(id),
        latest.contains_key(id) ==> dispatcher::noted(latest, items)[id] == latest[id],
    decreases items.len(),
{
    if items.len() > 0 {
        let rest = items.drop_last();
        assert forall|i: int| 0 <= i < rest.len() implies (#[trigger] rest[i]).0 != id by {
            assert(rest[i] == items[i]);
        }
        law_results_change_their_nodes_only(latest, rest, id);
        assert(items[items.len() - 1].0 != id);
    }
}

/// The nodes of the demonstration are numbered and named from one on, and every seventh
/// was not tested.
pub proof fn law_demonstrations_count_from_one(i: nat, q: nat)
    requires
        i < u32::MAX,
        7 * q < u32::MAX,
    ensures
        status::demo_view(i as int).id == i + 1,
        status::demo_view(i as int).name == "Demo node "@ + status::five_digits(i + 1),
        status::demo_view(7 * q as int).latency_ms == soa_store::UNTESTED_LATENCY,
{
    assert((7 * q as int) % 7 == 0);
}

/// The latencies of tested nodes, the health of nodes and their sources go round in steps
/// of one, from 30 to 629 milliseconds, from 30 to 100, and over three subscriptions.
pub proof fn law_demonstrations_go_round(i: nat, latency: nat, health: nat, source: nat)
    requires
        latency < 600,
        health < 71,
        source < 3,
    ensures
        (600 * i + latency) % 7 != 0 ==> status::demo_view(600 * i as int + latency).latency_ms
            == 30 + latency,
        status::demo_view(71 * i as int + health).health_score == 30 + health,
        status::demo_view(3 * i as int + source).sources == seq![(source + 1) as u16],
{
    lemma_rest(600, i as int, latency as int);
    lemma_rest(71, i as int, health as int);
    lemma_rest(3, i as int, source as int);
}

proof fn lemma_rest(n: int, q: int, r: int)
    requires
        0 <= r < n,
    ensures
        (n * q + r) % n == r,
{
    vstd::arithmetic::div_mod::lemma_mod_multiples_vanish(q, r, n);
    vstd::arithmetic::div_mod::lemma_small_mod(r as nat, n as nat);
}

/// The countries of the demonstration and its protocols take turns, six and five of them.
pub proof fn law_demonstrations_take_turns(i: int, j: int, n: int)
    requires
        0 <= i < j < i + 6,
    ensures
        status::demo_country(i)@ != status::demo_country(j)@,
        status::demo_country(i + 6 * n) == status::demo_country(i),
        j < i + 5 ==> status::demo_protocol(i) != status::demo_protocol(j),
        status::demo_protocol(i + 5 * n) == status::demo_protocol(i),
{
    assert((i + 6 * n) % 6 == i % 6);
    assert((i + 5 * n) % 5 == i % 5);
    assert(i % 6 != j % 6);
    assert(j < i + 5 ==> i % 5 != j % 5);
    assert([68u8, 69u8]@[0] == 68 && [68u8, 69u8]@[1] == 69);
    assert([85u8, 83u8]@[0] == 85 && [85u8, 83u8]@[1] == 83);
    assert([74u8, 80u8]@[0] == 74 && [74u8, 80u8]@[1] == 80);
    assert([78u8, 76u8]@[0] == 78 && [78u8, 76u8]@[1] == 76);
    assert([83u8, 71u8]@[0] == 83 && [83u8, 71u8]@[1] == 71);
    assert([85u8, 78u8]@[0] == 85 && [85u8, 78u8]@[1] == 78);
}

/// The latency that a demonstration makes up lies from 25 to 574 milliseconds, and that of
/// the next node is 37 milliseconds more, beginning again at the end.
pub proof fn law_made_up_latencies_go_round(id: u32)
    requires
        id < 100_000_000,
    ensures
        25 <= status::made_up_latency(id) < 575,
        status::made_up_latency((id + 1) as u32) == status::made_up_latency(id) + 37
            || status::made_up_latency((id + 1) as u32) + 550 == status::made_up_latency(id) + 37,
        status::made_up_latency(0) == 25,
{
}

} // verus!
