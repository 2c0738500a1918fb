//! What the texts of addresses promise.
use crate::ip;
use crate::ip::{IpView, SocketView};
use crate::laws;
use crate::text;
use vstd::prelude::*;

verus! {

// ---------------------------------------------------------------------------
// Four octets
// ---------------------------------------------------------------------------

pub proof fn lemma_octet_text(n: nat)
    requires
        n < 256,
    ensures
        ip::octet(text::decimal(n)) == Some(n as u8),
        !laws::text::holds(text::decimal(n), '.'),
        !laws::text::holds(text::decimal(n), ':'),
        forall|i: int|
            0 <= i < text::decimal(n).len() ==> '0' <= #[trigger] text::decimal(n)[i] <= '9',
        text::decimal(n).len() > 0,
{
    laws::text::lemma_decimal(n);
    reveal_with_fuel(text::number_text, 3);
}

/// A text of digits without a leading zero is that of its number.
proof fn lemma_exact(s: Seq<char>)
    requires
        s.len() > 0,
        text::all_digits(s, 10),
        s.len() > 1 ==> s[0] != '0',
    ensures
        text::decimal(text::number_value(s, 10)) == s,
        s[0] != '0' ==> text::number_value(s, 10) > 0,
    decreases s.len(),
{
    let rest = s.drop_last();
    let d = text::digit_value(s.last());
    assert(d < 10);
    assert(text::digit_char(d) == s.last());
    if s.len() == 1 {
        assert(rest =~= Seq::empty());
        assert(text::number_value(rest, 10) == 0);
        assert(text::number_value(s, 10) == d);
        assert(text::decimal(d) =~= s);
    } else {
        assert(rest[0] == s[0]);
        assert forall|i: int| 0 <= i < rest.len() implies text::digit_value(#[trigger] rest[i])
            < 10 by {
            assert(rest[i] == s[i]);
        }
        lemma_exact(rest);
        let v = text::number_value(rest, 10);
        assert(text::number_value(s, 10) == v * 10 + d);
        assert((v * 10 + d) / 10 == v && (v * 10 + d) % 10 == d);
        assert(text::decimal(v * 10 + d) == text::decimal(v).push(s.last()));
        assert(rest.push(s.last()) =~= s);
    }
}

pub proof fn lemma_dotted(octets: Seq<u8>)
    requires
        octets.len() == 4,
    ensures
        ({
            let parts = seq![
                text::decimal(octets[0] as nat),
                text::decimal(octets[1] as nat),
                text::decimal(octets[2] as nat),
                text::decimal(octets[3] as nat),
            ];
            &&& text::join(parts, seq!['.']) == ip::ipv4_text(octets)
            &&& text::fields(ip::ipv4_text(octets), '.') == parts
        }),
{
    let parts = seq![
        text::decimal(octets[0] as nat),
        text::decimal(octets[1] as nat),
        text::decimal(octets[2] as nat),
        text::decimal(octets[3] as nat),
    ];
    lemma_octet_text(octets[0] as nat);
    lemma_octet_text(octets[1] as nat);
    lemma_octet_text(octets[2] as nat);
    lemma_octet_text(octets[3] as nat);
    reveal_with_fuel(text::join, 5);
    assert(text::join(parts, seq!['.']) =~= ip::ipv4_text(octets));
    assert forall|i: int| 0 <= i < 4 implies !laws::text::holds(#[trigger] parts[i], '.') by {}
    laws::text::law_joined_parts_are_split_again(parts, '.');
}

/// Four octets are shown as numbers with dots between them, and that is read back; no
/// other text is read as them.
pub proof fn law_dotted_addresses_are_read_back(octets: Seq<u8>, s: Seq<char>)
    requires
        octets.len() == 4,
    ensures
        ip::ipv4_octets(ip::ipv4_text(octets)) == Some(octets),
        ip::ip_value(ip::ipv4_text(octets)) == Some(IpView::V4(octets)),
        ip::ipv4_octets(s) == Some(octets) ==> s == ip::ipv4_text(octets),
{
    lemma_dotted(octets);
    lemma_octet_text(octets[0] as nat);
    lemma_octet_text(octets[1] as nat);
    lemma_octet_text(octets[2] as nat);
    lemma_octet_text(octets[3] as nat);
    assert(ip::ipv4_octets(ip::ipv4_text(octets))->0 =~= octets);
    if ip::ipv4_octets(s) == Some(octets) {
        let parts = text::fields(s, '.');
        laws::text::law_parts_make_up_the_text(s, '.');
        lemma_exact(parts[0]);
        lemma_exact(parts[1]);
        lemma_exact(parts[2]);
        lemma_exact(parts[3]);
        assert(parts =~= seq![
            text::decimal(octets[0] as nat),
            text::decimal(octets[1] as nat),
            text::decimal(octets[2] as nat),
            text::decimal(octets[3] as nat),
        ]);
    }
}

pub proof fn lemma_dotted_chars(octets: Seq<u8>)
    requires
        octets.len() == 4,
    ensures
        ip::ipv4_text(octets).len() > 0,
        forall|i: int|
            0 <= i < ip::ipv4_text(octets).len() ==> '0' <= #[trigger] ip::ipv4_text(octets)[i]
                <= '9' || ip::ipv4_text(octets)[i] == '.',
        exists|i: int|
            0 <= i < ip::ipv4_text(octets).len() && #[trigger] ip::ipv4_text(octets)[i] == '.',
{
    lemma_octet_text(octets[0] as nat);
    lemma_octet_text(octets[1] as nat);
    lemma_octet_text(octets[2] as nat);
    lemma_octet_text(octets[3] as nat);
    let s = ip::ipv4_text(octets);
    let k = text::decimal(octets[0] as nat).len() as int;
    assert(s[k] == '.');
}

// ---------------------------------------------------------------------------
// Eight segments
// ---------------------------------------------------------------------------

/// A character of a segment's text.
pub open spec fn is_hex_char(c: char) -> bool {
    '0' <= c <= '9' || 'a' <= c <= 'f'
}

proof fn lemma_hex(n: nat, k: nat)
    requires
        n < 0x10000,
        k == 4 && n < 0x10000 || k == 3 && n < 0x1000 || k == 2 && n < 0x100 || k == 1 && n < 0x10,
    ensures
        1 <= text::hex(n).len() <= k,
        text::all_digits(text::hex(n), 16),
        text::number_value(text::hex(n), 16) == n,
        forall|i: int| 0 <= i < text::hex(n).len() ==> is_hex_char(#[trigger] text::hex(n)[i]),
    decreases k,
{
    let h = text::hex(n);
    reveal_with_fuel(text::number_value, 2);
    if n < 16 {
        assert(h =~= seq![text::digit_char(n)]);
        assert(h.drop_last() =~= Seq::empty());
        assert(text::digit_value(text::digit_char(n)) == n);
    } else {
        let rest = text::hex(n / 16);
        lemma_hex(n / 16, (k - 1) as nat);
        assert(h =~= rest.push(text::digit_char(n % 16)));
        assert(h.drop_last() =~= rest);
        assert(text::digit_value(text::digit_char(n % 16)) == n % 16);
        assert forall|i: int| 0 <= i < h.len() implies is_hex_char(#[trigger] h[i])
            && text::digit_value(h[i]) < 16 by {
            if i < rest.len() {
                assert(h[i] == rest[i]);
            }
        }
    }
}

/// The texts of segments.
pub open spec fn groups_of(s: Seq<u16>) -> Seq<Seq<char>> {
    s.map_values(|n: u16| text::hex(n as nat))
}

pub proof fn lemma_group(s: Seq<u16>, i: int)
    requires
        0 <= i < s.len(),
    ensures
        ip::segment(groups_of(s)[i]) == Some(s[i]),
        groups_of(s)[i].len() > 0,
        !laws::text::holds(groups_of(s)[i], ':'),
        forall|k: int|
            0 <= k < groups_of(s)[i].len() ==> is_hex_char(#[trigger] groups_of(s)[i][k]),
{
    lemma_hex(s[i] as nat, 4);
}

pub proof fn lemma_segments_text(s: Seq<u16>)
    ensures
        ip::segments_text(s) == text::join(groups_of(s), seq![':']),
    decreases s.len(),
{
    if s.len() > 1 {
        lemma_segments_text(s.drop_last());
        assert(groups_of(s).drop_last() =~= groups_of(s.drop_last()));
    }
}

/// No two colons stand next to each other, and the text neither begins nor ends with
/// one.
pub proof fn lemma_no_double(s: Seq<u16>)
    ensures
        ({
            let t = ip::segments_text(s);
            &&& forall|k: int| 0 <= k < t.len() - 1 ==> !(#[trigger] t[k] == ':' && t[k + 1] == ':')
            &&& t.len() > 0 ==> t[0] != ':' && t.last() != ':'
            &&& s.len() > 0 ==> t.len() > 0
            &&& s.len() == 0 ==> t.len() == 0
            &&& forall|k: int| 0 <= k < t.len() ==> is_hex_char(#[trigger] t[k]) || t[k] == ':'
        }),
    decreases s.len(),
{
    let t = ip::segments_text(s);
    if s.len() == 1 {
        lemma_group(s, 0);
        assert(t == groups_of(s)[0]);
    } else if s.len() > 1 {
        let rest = s.drop_last();
        lemma_no_double(rest);
        lemma_group(s, s.len() - 1);
        let head = ip::segments_text(rest);
        let last = groups_of(s)[s.len() - 1];
        assert(t == head + seq![':'] + last);
        let n = head.len() as int;
        assert forall|k: int| 0 <= k < t.len() - 1 implies !(#[trigger] t[k] == ':' && t[k + 1]
            == ':') by {
            if k + 1 < n {
                assert(head[k] == t[k] && head[k + 1] == t[k + 1]);
            } else if k + 1 == n {
                assert(t[k] == head.last());
            } else if k == n {
                assert(t[k + 1] == last[0]);
            } else {
                assert(t[k] == last[k - n - 1]);
            }
        }
        assert forall|k: int| 0 <= k < t.len() implies is_hex_char(#[trigger] t[k]) || t[k] == ':' by {
            if k < n {
                assert(head[k] == t[k]);
            } else if k > n {
                assert(t[k] == last[k - n - 1]);
            }
        }
        assert(t[0] == head[0]);
        assert(t.last() == last[last.len() - 1]);
    }
}

proof fn lemma_groups_read(s: Seq<u16>, dotted: bool)
    ensures
        ip::group_segments(groups_of(s), dotted) == Some(s),
    decreases s.len(),
{
    if s.len() == 0 {
        assert(s =~= Seq::empty());
    } else {
        let rest = s.drop_last();
        lemma_groups_read(rest, false);
        assert(groups_of(s).drop_last() =~= groups_of(rest));
        lemma_group(s, s.len() - 1);
        assert(rest.push(s.last()) =~= s);
    }
}

proof fn lemma_colons_read(s: Seq<u16>, dotted: bool)
    ensures
        ip::colon_segments(ip::segments_text(s), dotted) == Some(s),
{
    lemma_no_double(s);
    if s.len() > 0 {
        lemma_segments_text(s);
        assert forall|i: int| 0 <= i < groups_of(s).len() implies !laws::text::holds(
            #[trigger] groups_of(s)[i],
            ':',
        ) by {
            lemma_group(s, i);
        }
        laws::text::law_joined_parts_are_split_again(groups_of(s), ':');
        lemma_groups_read(s, dotted);
    } else {
        assert(s =~= Seq::empty());
    }
}

/// Eight groups of hexadecimal digits with colons between them are the segments; where
/// two colons meet, zeros fill up what is missing, one at least.
pub proof fn law_colons_separate_segments(a: Seq<u16>, b: Seq<u16>)
    ensures
        a.len() == 8 ==> ip::ipv6_segments(ip::segments_text(a)) == Some(a),
        a.len() + b.len() <= 7 ==> ip::ipv6_segments(
            ip::segments_text(a) + seq![':', ':'] + ip::segments_text(b),
        ) == Some(a + Seq::new((8 - a.len() - b.len()) as nat, |i: int| 0u16) + b),
        a.len() != 8 && a.len() > 0 ==> ip::ipv6_segments(ip::segments_text(a)) is None,
        a.len() + b.len() > 7 ==> ip::ipv6_segments(
            ip::segments_text(a) + seq![':', ':'] + ip::segments_text(b),
        ) is None,
{
    let mark = seq![':', ':'];
    let s = ip::segments_text(a);
    lemma_no_double(a);
    lemma_no_double(b);
    laws::text::law_splitting_once_takes_the_first_occurrence(s, mark);
    if let Some((head, tail)) = text::split_once(s, mark) {
        let h = head.len() as int;
        assert(s[h] == ':' && s[h + 1] == ':');
    }
    lemma_colons_read(a, true);
    lemma_colons_read(a, false);
    lemma_colons_read(b, true);
    lemma_double(s, ip::segments_text(b));
}

/// The first double colon is the one between the two texts.
pub proof fn lemma_double(head: Seq<char>, tail: Seq<char>)
    requires
        forall|k: int|
            0 <= k < head.len() - 1 ==> !(#[trigger] head[k] == ':' && head[k + 1] == ':'),
        head.len() > 0 ==> head.last() != ':',
    ensures
        text::split_once(head + seq![':', ':'] + tail, seq![':', ':']) == Some((head, tail)),
{
    let mark = seq![':', ':'];
    let s = head + mark + tail;
    let n = head.len() as int;
    laws::text::law_splitting_once_takes_the_first_occurrence(s, mark);
    assert(s.subrange(n, n + 2) =~= mark);
    match text::split_once(s, mark) {
        Some((h, t)) => {
            let k = h.len() as int;
            assert(s[k] == ':' && s[k + 1] == ':');
            if k < n {
                assert(s[k] == head[k]);
                if k + 1 < n {
                    assert(s[k + 1] == head[k + 1]);
                } else {
                    assert(head[k] == head.last());
                }
            }
            if n < k {
                assert(s.subrange(n, n + mark.len()) != mark);
            }
            assert(k == n);
            assert(h =~= s.take(n));
            assert(head =~= s.take(n));
            assert(t =~= s.skip(n + 2));
            assert(tail =~= s.skip(n + 2));
        },
        None => {
            assert(s.subrange(n, n + mark.len()) != mark);
        },
    }
}

pub proof fn lemma_zero_run(s: Seq<u16>, i: int)
    requires
        0 <= i <= s.len(),
    ensures
        i + ip::zero_run(s, i) <= s.len(),
        forall|k: int| i <= k < i + ip::zero_run(s, i) ==> #[trigger] s[k] == 0,
    decreases s.len() - i,
{
    if i < s.len() && s[i] == 0 {
        lemma_zero_run(s, i + 1);
    }
}

/// The run of zeros that is left out is the longest there is, and the first of those.
pub proof fn law_the_longest_run_is_left_out(s: Seq<u16>, n: nat, i: int)
    requires
        0 <= i <= n,
    ensures
        0 <= ip::best_run(s, n) <= n,
        ip::zero_run(s, i) <= ip::zero_run(s, ip::best_run(s, n)),
        i < ip::best_run(s, n) ==> ip::zero_run(s, i) < ip::zero_run(s, ip::best_run(s, n)),
    decreases n,
{
    if n > 0 {
        if i < n {
            law_the_longest_run_is_left_out(s, (n - 1) as nat, i);
        } else {
            law_the_longest_run_is_left_out(s, (n - 1) as nat, 0);
        }
    }
}

pub proof fn lemma_all_ones()
    ensures
        ip::segment(seq!['f', 'f', 'f', 'f']) == Some(0xffffu16),
        !laws::text::holds(seq!['f', 'f', 'f', 'f'], ':'),
{
    let f = seq!['f', 'f', 'f', 'f'];
    reveal_with_fuel(text::number_value, 5);
    assert(f.drop_last() =~= seq!['f', 'f', 'f']);
    assert(f.drop_last().drop_last() =~= seq!['f', 'f']);
    assert(f.drop_last().drop_last().drop_last() =~= seq!['f']);
    assert(f.drop_last().drop_last().drop_last().drop_last() =~= Seq::empty());
    assert(text::number_value(f, 16) == 0xffff);
}

/// A group and a dotted address behind it are three segments.
#[verifier::rlimit(40)]
proof fn lemma_dotted_end(f: Seq<char>, v: u16, o: Seq<u8>)
    requires
        ip::segment(f) == Some(v),
        !laws::text::holds(f, ':'),
        o.len() == 4,
    ensures
        ip::colon_segments(f + seq![':'] + ip::ipv4_text(o), true) == Some(
            seq![v, (o[0] * 256 + o[1]) as u16, (o[2] * 256 + o[3]) as u16],
        ),
{
    let d = ip::ipv4_text(o);
    let tail = f + seq![':'] + d;
    let parts = seq![f, d];
    law_dotted_addresses_are_read_back(o, d);
    lemma_dotted_chars(o);
    assert(!laws::text::holds(d, ':'));
    assert(text::join(parts, seq![':']) =~= tail) by {
        reveal_with_fuel(text::join, 3);
    }
    assert forall|i: int| 0 <= i < 2 implies !laws::text::holds(#[trigger] parts[i], ':') by {}
    laws::text::law_joined_parts_are_split_again(parts, ':');
    assert(ip::segment(d) is None) by {
        let k = choose|k: int| 0 <= k < d.len() && #[trigger] d[k] == '.';
        assert(text::digit_value(d[k]) == 16);
    }
    let one = seq![f];
    let none = Seq::<Seq<char>>::empty();
    assert(parts.drop_last() =~= one);
    assert(one.drop_last() =~= none);
    assert(ip::group_segments(none, false) == Some(Seq::<u16>::empty()));
    assert(ip::group_segments(one, false) == Some(Seq::<u16>::empty().push(v)));
    let end = seq![(o[0] * 256 + o[1]) as u16, (o[2] * 256 + o[3]) as u16];
    assert(ip::group_segments(parts, true) == Some(Seq::<u16>::empty().push(v) + end));
    assert(Seq::<u16>::empty().push(v) + end =~= seq![v, end[0], end[1]]);
}

#[verifier::rlimit(40)]
proof fn lemma_mapped(s: Seq<u16>)
    requires
        s.len() == 8,
        forall|i: int| 0 <= i < 5 ==> s[i] == 0,
        s[5] == 0xffff,
    ensures
        ip::ipv6_segments(ip::ipv6_text(s)) == Some(s),
{
    let o = seq![
        (s[6] / 256) as u8,
        (s[6] % 256) as u8,
        (s[7] / 256) as u8,
        (s[7] % 256) as u8,
    ];
    let d = ip::ipv4_text(o);
    let empty = Seq::<char>::empty();
    reveal_strlit("::ffff:");
    let f = seq!['f', 'f', 'f', 'f'];
    let tail = f + seq![':'] + d;
    assert(ip::ipv6_text(s) == "::ffff:"@ + d);
    assert("::ffff:"@ + d =~= empty + seq![':', ':'] + tail);
    lemma_double(empty, tail);
    lemma_all_ones();
    lemma_dotted_end(f, 0xffff, o);
    assert(o[0] * 256 + o[1] == s[6] && o[2] * 256 + o[3] == s[7]);
    let got = seq![0xffffu16, s[6], s[7]];
    assert(ip::colon_segments(tail, true) == Some(got));
    assert(ip::colon_segments(empty, false) == Some(Seq::<u16>::empty()));
    assert(Seq::<u16>::empty() + Seq::new(5, |i: int| 0u16) + got =~= s);
}

/// Eight segments that are shown are read back, and so is any address.
#[verifier::rlimit(40)]
pub proof fn law_addresses_are_read_back(s: Seq<u16>)
    requires
        s.len() == 8,
    ensures
        ip::ipv6_segments(ip::ipv6_text(s)) == Some(s),
        ip::ip_value(ip::ipv6_text(s)) == Some(IpView::V6(s)),
{
    if (forall|i: int| 0 <= i < 5 ==> s[i] == 0) && s[5] == 0xffff {
        lemma_mapped(s);
        reveal_strlit("::ffff:");
        assert(ip::ipv6_text(s)[0] == ':');
    } else {
        let start = ip::best_run(s, 7);
        let len = ip::zero_run(s, start) as int;
        law_the_longest_run_is_left_out(s, 7, 0);
        lemma_zero_run(s, start);
        if len > 1 {
            let a = s.take(start);
            let b = s.skip(start + len);
            reveal_strlit("::");
            assert("::"@ =~= seq![':', ':']);
            law_colons_separate_segments(a, b);
            assert(a + Seq::new((8 - a.len() - b.len()) as nat, |i: int| 0u16) + b =~= s);
            assert(ip::ipv6_text(s)[ip::segments_text(a).len() as int] == ':');
        } else {
            law_colons_separate_segments(s, s);
            lemma_colon_inside(s);
        }
    }
    let t = ip::ipv6_text(s);
    let k = choose|k: int| 0 <= k < t.len() && #[trigger] t[k] == ':';
    if let Some(o) = ip::ipv4_octets(t) {
        law_dotted_addresses_are_read_back(o, t);
        lemma_dotted_chars(o);
    }
}

proof fn lemma_colon_inside(s: Seq<u16>)
    requires
        s.len() > 1,
    ensures
        exists|k: int|
            0 <= k < ip::segments_text(s).len() && #[trigger] ip::segments_text(s)[k] == ':',
{
    let head = ip::segments_text(s.drop_last());
    assert(ip::segments_text(s)[head.len() as int] == ':');
}

/// The text of an address is not empty and holds neither white space nor a slash.
#[verifier::rlimit(40)]
pub proof fn law_addresses_hold_no_white_space(address: IpView, i: int)
    requires
        address is V4 ==> address->V4_0.len() == 4,
        address is V6 ==> address->V6_0.len() == 8,
    ensures
        ip::ip_text(address).len() > 0,
        0 <= i < ip::ip_text(address).len() ==> {
            let c = ip::ip_text(address)[i];
            is_hex_char(c) || c == '.' || c == ':'
        },
        0 <= i < ip::ip_text(address).len() ==> !text::is_space(ip::ip_text(address)[i])
            && ip::ip_text(address)[i] != '/',
{
    let t = ip::ip_text(address);
    match address {
        IpView::V4(o) => lemma_dotted_chars(o),
        IpView::V6(s) => {
            if (forall|i: int| 0 <= i < 5 ==> s[i] == 0) && s[5] == 0xffff {
                let o = seq![
                    (s[6] / 256) as u8,
                    (s[6] % 256) as u8,
                    (s[7] / 256) as u8,
                    (s[7] % 256) as u8,
                ];
                lemma_dotted_chars(o);
                reveal_strlit("::ffff:");
                if 7 <= i < t.len() {
                    assert(t[i] == ip::ipv4_text(o)[i - 7]);
                }
            } else {
                let start = ip::best_run(s, 7);
                let len = ip::zero_run(s, start) as int;
                let a = s.take(start);
                let b = s.skip(start + len);
                reveal_strlit("::");
                lemma_no_double(s);
                lemma_no_double(a);
                lemma_no_double(b);
                if len > 1 {
                    let n = ip::segments_text(a).len() as int;
                    if 0 <= i < n {
                        assert(t[i] == ip::segments_text(a)[i]);
                    } else if n + 2 <= i < t.len() {
                        assert(t[i] == ip::segments_text(b)[i - n - 2]);
                    }
                }
            }
        },
    }
}

/// A socket is shown as its address, a colon and its port; an address with colons stands
/// in brackets.
pub proof fn law_sockets_are_shown(addr: SocketView)
    ensures
        addr.ip is V4 ==> ip::socket_text(addr) == ip::ip_text(addr.ip) + seq![':'] + text::decimal(
            addr.port as nat,
        ),
        addr.ip is V6 ==> ip::socket_text(addr) == seq!['['] + ip::ip_text(addr.ip) + seq![
            ']',
            ':',
        ] + text::decimal(addr.port as nat),
{
    reveal_strlit(":");
    reveal_strlit("[");
    reveal_strlit("]:");
    assert(":"@ =~= seq![':']);
    assert("["@ =~= seq!['[']);
    assert("]:"@ =~= seq![']', ':']);
}

} // verus!
