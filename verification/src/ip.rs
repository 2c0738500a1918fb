//! Internet addresses and their textual forms.
use crate::text;
use vstd::prelude::*;

verus! {

/// An address of either family: four octets, or eight segments.
#[derive(Clone, Copy, Debug, PartialEq, Eq)]
pub enum IpAddr {
    V4([u8; 4]),
    V6([u16; 8]),
}

/// An address with a port.
#[derive(Clone, Copy, Debug, PartialEq, Eq)]
pub struct SocketAddr {
    pub ip: IpAddr,
    pub port: u16,
}

/// An address as its octets or segments.
pub enum IpView {
    V4(Seq<u8>),
    V6(Seq<u16>),
}

impl View for IpAddr {
    type V = IpView;

    open spec fn view(&self) -> IpView {
        match *self {
            IpAddr::V4(octets) => IpView::V4(octets@),
            IpAddr::V6(segments) => IpView::V6(segments@),
        }
    }
}

/// An address with a port, as its octets or segments.
pub struct SocketView {
    pub ip: IpView,
    pub port: u16,
}

impl View for SocketAddr {
    type V = SocketView;

    open spec fn view(&self) -> SocketView {
        SocketView { ip: self.ip@, port: self.port }
    }
}

/// The dotted form of four octets.
pub open spec fn ipv4_text(octets: Seq<u8>) -> Seq<char> {
    text::decimal(octets[0] as nat) + seq!['.'] + text::decimal(octets[1] as nat) + seq!['.'] + text::decimal(
        octets[2] as nat,
    ) + seq!['.'] + text::decimal(octets[3] as nat)
}

/// The octet that a text denotes: up to three digits, no leading zero, at most 255.
pub open spec fn octet(s: Seq<char>) -> Option<u8> {
    if 1 <= s.len() <= 3 && text::all_digits(s, 10) && (s.len() > 1 ==> s[0] != '0') && text::number_value(s, 10)
        <= 255 {
        Some(text::number_value(s, 10) as u8)
    } else {
        None
    }
}

/// The octets that a dotted text denotes.
pub open spec fn ipv4_octets(s: Seq<char>) -> Option<Seq<u8>> {
    let parts = text::fields(s, '.');
    if parts.len() == 4 && octet(parts[0]) is Some && octet(parts[1]) is Some && octet(
        parts[2],
    ) is Some && octet(parts[3]) is Some {
        Some(
            seq![
                octet(parts[0])->0,
                octet(parts[1])->0,
                octet(parts[2])->0,
                octet(parts[3])->0,
            ],
        )
    } else {
        None
    }
}

/// The segment that a text of one to four hexadecimal digits denotes.
pub open spec fn segment(s: Seq<char>) -> Option<u16> {
    if 1 <= s.len() <= 4 && text::all_digits(s, 16) {
        Some(text::number_value(s, 16) as u16)
    } else {
        None
    }
}

/// The segments that a list of groups denotes. The last group may be a dotted
/// address, which stands for two segments.
pub open spec fn group_segments(parts: Seq<Seq<char>>, dotted: bool) -> Option<Seq<u16>>
    decreases parts.len(),
{
    if parts.len() == 0 {
        Some(Seq::empty())
    } else {
        let part = parts.last();
        match group_segments(parts.drop_last(), false) {
            None => None,
            Some(before) => match segment(part) {
                Some(value) => Some(before.push(value)),
                None => match ipv4_octets(part) {
                    Some(o) if dotted => Some(
                        before + seq![
                            (o[0] * 256 + o[1]) as u16,
                            (o[2] * 256 + o[3]) as u16,
                        ],
                    ),
                    _ => None,
                },
            },
        }
    }
}

/// The segments between colons; an empty text has none.
pub open spec fn colon_segments(s: Seq<char>, dotted: bool) -> Option<Seq<u16>> {
    if s.len() == 0 {
        Some(Seq::empty())
    } else {
        group_segments(text::fields(s, ':'), dotted)
    }
}

/// The eight segments that a text denotes. A double colon stands for one or more
/// zero segments.
pub open spec fn ipv6_segments(s: Seq<char>) -> Option<Seq<u16>> {
    match text::split_once(s, seq![':', ':']) {
        None => match colon_segments(s, true) {
            Some(all) if all.len() == 8 => Some(all),
            _ => None,
        },
        Some((before, after)) => match (
            colon_segments(before, false),
            colon_segments(after, true),
        ) {
            (Some(head), Some(tail)) if head.len() + tail.len() <= 7 => Some(
                head + Seq::new((8 - head.len() - tail.len()) as nat, |i: int| 0u16) + tail,
            ),
            _ => None,
        },
    }
}

/// The address that a text denotes.
pub open spec fn ip_value(s: Seq<char>) -> Option<IpView> {
    match ipv4_octets(s) {
        Some(octets) => Some(IpView::V4(octets)),
        None => match ipv6_segments(s) {
            Some(segments) => Some(IpView::V6(segments)),
            None => None,
        },
    }
}

/// The number of zero segments from position `i` on.
pub open spec fn zero_run(s: Seq<u16>, i: int) -> nat
    decreases s.len() - i,
{
    if i < 0 || i >= s.len() || s[i] != 0 {
        0
    } else {
        1 + zero_run(s, i + 1)
    }
}

/// The first position up to `i` with the longest run of zero segments.
pub open spec fn best_run(s: Seq<u16>, i: nat) -> int
    decreases i,
{
    if i == 0 {
        0
    } else {
        let best = best_run(s, (i - 1) as nat);
        if zero_run(s, i as int) > zero_run(s, best) {
            i as int
        } else {
            best
        }
    }
}

/// Segments in hexadecimal between colons.
pub open spec fn segments_text(s: Seq<u16>) -> Seq<char>
    decreases s.len(),
{
    if s.len() == 0 {
        Seq::empty()
    } else if s.len() == 1 {
        text::hex(s[0] as nat)
    } else {
        segments_text(s.drop_last()) + seq![':'] + text::hex(s.last() as nat)
    }
}

/// The text of eight segments: an IPv4-mapped address in mixed form, otherwise
/// with the first longest run of two or more zero segments written as `::`.
pub open spec fn ipv6_text(s: Seq<u16>) -> Seq<char> {
    if (forall|i: int| 0 <= i < 5 ==> s[i] == 0) && s[5] == 0xffff {
        "::ffff:"@ + ipv4_text(
            seq![
                (s[6] / 256) as u8,
                (s[6] % 256) as u8,
                (s[7] / 256) as u8,
                (s[7] % 256) as u8,
            ],
        )
    } else {
        let start = best_run(s, 7);
        let len = zero_run(s, start);
        if len > 1 {
            segments_text(s.take(start)) + "::"@ + segments_text(s.skip(start + len))
        } else {
            segments_text(s)
        }
    }
}

/// The text of an address.
pub open spec fn ip_text(ip: IpView) -> Seq<char> {
    match ip {
        IpView::V4(octets) => ipv4_text(octets),
        IpView::V6(segments) => ipv6_text(segments),
    }
}

/// The text of an address with a port; a version 6 address stands in brackets.
pub open spec fn socket_text(addr: SocketView) -> Seq<char> {
    match addr.ip {
        IpView::V4(octets) => ipv4_text(octets) + ":"@ + text::decimal(addr.port as nat),
        IpView::V6(segments) => "["@ + ipv6_text(segments) + "]:"@ + text::decimal(addr.port as nat),
    }
}

proof fn lemma_number_bound(s: Seq<char>, base: nat, n: nat)
    requires
        s.len() <= n,
        text::all_digits(s, base),
        base == 10 && n <= 3 || base == 16 && n <= 4,
    ensures
        base == 10 ==> text::number_value(s, base) < 1000,
        base == 16 ==> text::number_value(s, base) < 0x10000,
{
    reveal_with_fuel(text::number_value, 5);
    let a = s.drop_last();
    let b = a.drop_last();
    let c = b.drop_last();
    if s.len() > 0 {
        assert(text::digit_value(s[s.len() - 1]) < base);
    }
    if s.len() > 1 {
        assert(text::digit_value(s[s.len() - 2]) < base);
    }
    if s.len() > 2 {
        assert(text::digit_value(s[s.len() - 3]) < base);
    }
    if s.len() > 3 {
        assert(text::digit_value(s[s.len() - 4]) < base);
    }
}

/// Reads one octet of a dotted address.
fn read_octet(s: &[char]) -> (r: Option<u8>)
    ensures
        r == octet(s@),
{
    if s.len() == 0 || s.len() > 3 || (s.len() > 1 && s[0] == '0') || s[0] == '+' {
        return None;
    }
    match text::read_unsigned(s, 10, 255) {
        Some(v) => Some(v as u8),
        None => None,
    }
}

/// Reads a dotted address.
pub fn read_ipv4(s: &[char]) -> (r: Option<[u8; 4]>)
    ensures
        (match r {
            Some(o) => ipv4_octets(s@) == Some(o@),
            None => ipv4_octets(s@) is None,
        }),
{
    let parts = text::split_fields(s, '.');
    let ghost model = text::fields(s@, '.');
    let ghost view = |l: &[char]| l@;
    assert(parts@.map_values(view) == model);
    if parts.len() != 4 {
        return None;
    }
    assert(model[0] == parts@[0]@ && model[1] == parts@[1]@ && model[2] == parts@[2]@ && model[3]
        == parts@[3]@);
    match (read_octet(parts[0]), read_octet(parts[1]), read_octet(parts[2]), read_octet(parts[3])) {
        (Some(a), Some(b), Some(c), Some(d)) => {
            let o = [a, b, c, d];
            assert(o@ =~= seq![a, b, c, d]);
            Some(o)
        },
        _ => None,
    }
}

/// Reads one group of a version 6 address.
fn read_segment(s: &[char]) -> (r: Option<u16>)
    ensures
        r == segment(s@),
{
    if s.len() == 0 || s.len() > 4 || s[0] == '+' {
        return None;
    }
    proof {
        if text::all_digits(s@, 16) {
            lemma_number_bound(s@, 16, 4);
        }
    }
    match text::read_unsigned(s, 16, 0xffff) {
        Some(v) => Some(v as u16),
        None => None,
    }
}

/// Reads the groups between colons.
fn read_segments(s: &[char], dotted: bool) -> (r: Option<Vec<u16>>)
    ensures
        (match r {
            Some(v) => colon_segments(s@, dotted) == Some(v@),
            None => colon_segments(s@, dotted) is None,
        }),
{
    let mut out: Vec<u16> = Vec::new();
    if s.len() == 0 {
        return Some(out);
    }
    let parts = text::split_fields(s, ':');
    let ghost model = text::fields(s@, ':');
    let ghost view = |l: &[char]| l@;
    assert(parts@.map_values(view) == model);
    let mut i: usize = 0;
    assert(model.take(0) =~= Seq::<Seq<char>>::empty());
    while i < parts.len()
        invariant
            i <= parts@.len(),
            view == (|l: &[char]| l@),
            parts@.map_values(view) == model,
            s@.len() > 0,
            model == text::fields(s@, ':'),
            group_segments(model.take(i as int), dotted && i == parts@.len()) == Some(out@),
        decreases parts@.len() - i,
    {
        let ghost upto = model.take(i + 1);
        let last = i + 1 == parts.len();
        assert(upto.drop_last() =~= model.take(i as int));
        assert(upto.last() == parts@[i as int]@);
        assert(last ==> upto =~= model);
        match read_segment(parts[i]) {
            Some(value) => {
                out.push(value);
            },
            None => {
                match read_ipv4(parts[i]) {
                    Some(o) if dotted && last => {
                        let ghost before = out@;
                        out.push(o[0] as u16 * 256 + o[1] as u16);
                        out.push(o[2] as u16 * 256 + o[3] as u16);
                        assert(out@ =~= before + seq![
                            (o@[0] * 256 + o@[1]) as u16,
                            (o@[2] * 256 + o@[3]) as u16,
                        ]);
                    },
                    _ => {
                        proof {
                            lemma_group_prefix(model, i + 1, dotted);
                        }
                        return None;
                    },
                }
            },
        }
        i += 1;
    }
    assert(model.take(i as int) =~= model);
    Some(out)
}

/// When a proper prefix of the groups denotes nothing, neither do all of them.
proof fn lemma_group_prefix(parts: Seq<Seq<char>>, n: int, dotted: bool)
    requires
        0 <= n <= parts.len(),
        group_segments(parts.take(n), dotted && n == parts.len()) is None,
    ensures
        group_segments(parts, dotted) is None,
    decreases parts.len() - n,
{
    if n == parts.len() {
        assert(parts.take(n) =~= parts);
    } else {
        assert(parts.take(n + 1).drop_last() =~= parts.take(n));
        lemma_group_prefix(parts, n + 1, dotted);
    }
}

/// Reads a version 6 address.
pub fn read_ipv6(s: &[char]) -> (r: Option<[u16; 8]>)
    ensures
        (match r {
            Some(g) => ipv6_segments(s@) == Some(g@),
            None => ipv6_segments(s@) is None,
        }),
{
    let colons = [':', ':'];
    assert(colons@ =~= seq![':', ':']);
    match text::split_once_chars(s, &colons) {
        None => match read_segments(s, true) {
            Some(all) => {
                if all.len() == 8 {
                    let r = [all[0], all[1], all[2], all[3], all[4], all[5], all[6], all[7]];
                    assert(r@ =~= all@);
                    Some(r)
                } else {
                    None
                }
            },
            None => None,
        },
        Some((before, after)) => match (read_segments(before, false), read_segments(after, true)) {
            (Some(head), Some(tail)) => {
                if head.len() <= 7 && tail.len() <= 7 && head.len() + tail.len() <= 7 {
                    let mut all: Vec<u16> = head;
                    let ghost zeros = Seq::new(
                        (8 - head@.len() - tail@.len()) as nat,
                        |i: int| 0u16,
                    );
                    let ghost first = head@;
                    let total: usize = 8 - tail.len();
                    while all.len() < total
                        invariant
                            first.len() <= all@.len() <= total,
                            total == 8 - tail@.len(),
                            tail@.len() <= 7,
                            first.len() + tail@.len() <= 7,
                            all@ == first + Seq::new(
                                (all@.len() - first.len()) as nat,
                                |i: int| 0u16,
                            ),
                        decreases total - all@.len(),
                    {
                        all.push(0);
                    }
                    assert(all@ =~= first + zeros);
                    let mut tail = tail;
                    let ghost last = tail@;
                    all.append(&mut tail);
                    assert(all@ =~= first + zeros + last);
                    let r = [all[0], all[1], all[2], all[3], all[4], all[5], all[6], all[7]];
                    assert(r@ =~= all@);
                    Some(r)
                } else {
                    None
                }
            },
            _ => None,
        },
    }
}

/// Reads an address of either family.
pub fn read_ip(s: &str) -> (r: Option<IpAddr>)
    ensures
        (match r {
            Some(ip) => ip_value(s@) == Some(ip@),
            None => ip_value(s@) is None,
        }),
{
    let chars = text::to_chars(s);
    match read_ipv4(&chars) {
        Some(octets) => Some(IpAddr::V4(octets)),
        None => match read_ipv6(&chars) {
            Some(segments) => Some(IpAddr::V6(segments)),
            None => None,
        },
    }
}

/// Appends the text of a number.
fn push_number(out: &mut Vec<char>, n: u64, base: u64)
    requires
        2 <= base <= 16,
    ensures
        final(out)@ == old(out)@ + text::number_text(n as nat, base as nat),
{
    let mut digits = text::number_chars(n, base);
    out.append(&mut digits);
}

/// Writes a dotted address.
fn push_ipv4(out: &mut Vec<char>, a: u8, b: u8, c: u8, d: u8)
    ensures
        final(out)@ == old(out)@ + ipv4_text(seq![a, b, c, d]),
{
    push_number(out, a as u64, 10);
    out.push('.');
    push_number(out, b as u64, 10);
    out.push('.');
    push_number(out, c as u64, 10);
    out.push('.');
    push_number(out, d as u64, 10);
    assert(out@ =~= old(out)@ + ipv4_text(seq![a, b, c, d]));
}

/// Writes segments `from..to` between colons.
fn push_segments(out: &mut Vec<char>, s: &[u16; 8], from: usize, to: usize)
    requires
        from <= to <= 8,
    ensures
        final(out)@ == old(out)@ + segments_text(s@.subrange(from as int, to as int)),
{
    let ghost start = out@;
    let mut i: usize = from;
    assert(s@.subrange(from as int, from as int) =~= Seq::<u16>::empty());
    assert(out@ =~= start + segments_text(s@.subrange(from as int, i as int)));
    while i < to
        invariant
            from <= i <= to <= 8,
            s@.len() == 8,
            out@ == start + segments_text(s@.subrange(from as int, i as int)),
        decreases to - i,
    {
        let ghost now = s@.subrange(from as int, i + 1);
        assert(now.drop_last() =~= s@.subrange(from as int, i as int));
        assert(now.last() == s@[i as int]);
        if i > from {
            out.push(':');
        }
        push_number(out, s[i] as u64, 16);
        assert(out@ =~= start + segments_text(now));
        i += 1;
    }
}

/// The number of zero segments from position `i` on.
fn run_length(s: &[u16; 8], i: usize) -> (r: usize)
    requires
        i <= 8,
    ensures
        r == zero_run(s@, i as int),
        i + r <= 8,
    decreases 8 - i,
{
    if i < 8 && s[i] == 0 {
        1 + run_length(s, i + 1)
    } else {
        0
    }
}

/// Appends a text.
fn push_text(out: &mut Vec<char>, s: &str)
    ensures
        final(out)@ == old(out)@ + s@,
{
    let mut chars = text::to_chars(s);
    out.append(&mut chars);
}

/// Appends the text of an address.
fn push_ip(out: &mut Vec<char>, ip: &IpAddr)
    ensures
        final(out)@ == old(out)@ + ip_text(ip@),
{
    match ip {
        IpAddr::V4(o) => {
            push_ipv4(out, o[0], o[1], o[2], o[3]);
            assert(ipv4_text(seq![o@[0], o@[1], o@[2], o@[3]]) == ipv4_text(o@));
        },
        IpAddr::V6(s) => {
            let ghost start = out@;
            if s[0] == 0 && s[1] == 0 && s[2] == 0 && s[3] == 0 && s[4] == 0 && s[5] == 0xffff {
                push_text(out, "::ffff:");
                push_ipv4(
                    out,
                    (s[6] / 256) as u8,
                    (s[6] % 256) as u8,
                    (s[7] / 256) as u8,
                    (s[7] % 256) as u8,
                );
                assert(out@ =~= start + ipv6_text(s@));
            } else {
                assert(!((forall|i: int| 0 <= i < 5 ==> s@[i] == 0) && s@[5] == 0xffff)) by {
                    if forall|i: int| 0 <= i < 5 ==> s@[i] == 0 {
                        assert(s@[0] == 0 && s@[1] == 0 && s@[2] == 0 && s@[3] == 0 && s@[4] == 0);
                    }
                }
                let mut best: usize = 0;
                let mut len: usize = run_length(s, 0);
                let mut i: usize = 0;
                while i < 7
                    invariant
                        i <= 7,
                        best <= i,
                        best + len <= 8,
                        best == best_run(s@, i as nat),
                        len == zero_run(s@, best as int),
                    decreases 7 - i,
                {
                    let run = run_length(s, i + 1);
                    i += 1;
                    if run > len {
                        best = i;
                        len = run;
                    }
                }
                if len > 1 {
                    push_segments(out, s, 0, best);
                    push_text(out, "::");
                    push_segments(out, s, best + len, 8);
                    assert(s@.subrange(0, best as int) =~= s@.take(best as int));
                    assert(s@.subrange(best + len, 8) =~= s@.skip(best + len));
                    assert(out@ =~= start + ipv6_text(s@));
                } else {
                    push_segments(out, s, 0, 8);
                    assert(s@.subrange(0, 8) =~= s@);
                }
            }
        },
    }
}

impl IpAddr {
    /// The text of the address.
    pub fn to_text(&self) -> (r: String)
        ensures
            r@ == ip_text(self@),
    {
        let mut out: Vec<char> = Vec::new();
        push_ip(&mut out, self);
        assert(out@ =~= ip_text(self@));
        text::from_chars(&out)
    }
}

impl SocketAddr {
    /// The text of the address and the port.
    pub fn to_text(&self) -> (r: String)
        ensures
            r@ == socket_text(self@),
    {
        let mut out: Vec<char> = Vec::new();
        match &self.ip {
            IpAddr::V4(_) => {
                push_ip(&mut out, &self.ip);
                push_text(&mut out, ":");
            },
            IpAddr::V6(_) => {
                push_text(&mut out, "[");
                push_ip(&mut out, &self.ip);
                push_text(&mut out, "]:");
            },
        }
        push_number(&mut out, self.port as u64, 10);
        assert(out@ =~= socket_text(self@));
        text::from_chars(&out)
    }
}

} // verus!
