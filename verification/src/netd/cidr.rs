//! Texts of subnets: an address, a slash and the length of a prefix.
use crate::ip;
use crate::text;
use vstd::prelude::*;

verus! {

/// The number that a few decimal digits denote, leading zeros allowed.
pub open spec fn number(s: Seq<char>, digits: nat, max: nat) -> Option<nat> {
    if 1 <= s.len() <= digits && text::all_digits(s, 10) && text::number_value(s, 10) <= max {
        Some(text::number_value(s, 10))
    } else {
        None
    }
}

/// The octets of a dotted address.
pub open spec fn dotted(s: Seq<char>) -> Option<Seq<u8>> {
    let parts = text::fields(s, '.');
    if parts.len() == 4 && forall|i: int|
        0 <= i < 4 ==> number(#[trigger] parts[i], 3, 255) is Some {
        Some(Seq::new(4, |i: int| number(parts[i], 3, 255)->0 as u8))
    } else {
        None
    }
}

/// The segments of groups of hexadecimal digits.
pub open spec fn hex_groups(parts: Seq<Seq<char>>) -> Option<Seq<u16>> {
    if forall|i: int| 0 <= i < parts.len() ==> ip::segment(#[trigger] parts[i]) is Some {
        Some(Seq::new(parts.len(), |i: int| ip::segment(parts[i])->0))
    } else {
        None
    }
}

/// The segments of groups between colons. A dotted address may end them, for two
/// segments.
pub open spec fn groups(s: Seq<char>, dotted_end: bool) -> Option<Seq<u16>> {
    let parts = text::fields(s, ':');
    if s.len() == 0 {
        Some(Seq::empty())
    } else {
        match dotted(parts.last()) {
            Some(o) if dotted_end => match hex_groups(parts.drop_last()) {
                Some(head) => Some(
                    head + seq![(o[0] * 256 + o[1]) as u16, (o[2] * 256 + o[3]) as u16],
                ),
                None => None,
            },
            _ => hex_groups(parts),
        }
    }
}

/// The eight segments of an address. A double colon after at most seven of them stands
/// for the zeros that are missing.
pub open spec fn segments(s: Seq<char>) -> Option<Seq<u16>> {
    match text::split_once(s, seq![':', ':']) {
        None => match groups(s, true) {
            Some(all) if all.len() == 8 => Some(all),
            _ => None,
        },
        Some((before, after)) => match (groups(before, false), groups(after, true)) {
            (Some(head), Some(tail)) if head.len() <= 7 && head.len() + tail.len() <= 8 => Some(
                head + Seq::new((8 - head.len() - tail.len()) as nat, |i: int| 0u16) + tail,
            ),
            _ => None,
        },
    }
}

/// The octets and the prefix length of an IPv4 subnet.
pub open spec fn ipv4_net(s: Seq<char>) -> Option<(Seq<u8>, u8)> {
    let parts = text::fields(s, '/');
    match (dotted(parts[0]), number(parts[1], 2, 32)) {
        (Some(octets), Some(len)) if parts.len() == 2 => Some((octets, len as u8)),
        _ => None,
    }
}

/// The segments and the prefix length of an IPv6 subnet.
pub open spec fn ipv6_net(s: Seq<char>) -> Option<(Seq<u16>, u8)> {
    let parts = text::fields(s, '/');
    match (segments(parts[0]), number(parts[1], 3, 128)) {
        (Some(segments), Some(len)) if parts.len() == 2 => Some((segments, len as u8)),
        _ => None,
    }
}

} // verus!
