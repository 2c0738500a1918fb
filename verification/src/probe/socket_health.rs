//! The health of a live connection from what the kernel counts.
use vstd::prelude::*;

verus! {

/// A snapshot of a TCP connection.
#[derive(Clone, Copy, Debug, PartialEq, Eq, Structural)]
pub struct TcpStats {
    /// Smoothed round trip in milliseconds.
    pub rtt_ms: u32,
    /// Variation of the round trip in milliseconds.
    pub rtt_var_ms: u32,
    /// Unrecovered timeouts since the last measurement.
    pub retransmits: u32,
    /// All retransmissions of the connection.
    pub total_retrans: u32,
    /// Packets that are not acknowledged yet.
    pub unacked: u32,
}

/// The counters of the kernel, in its units.
#[derive(Clone, Copy, Debug, PartialEq, Eq, Structural)]
pub struct TcpInfo {
    /// In microseconds.
    pub rtt: u32,
    /// In microseconds.
    pub rttvar: u32,
    pub retransmits: u8,
    pub total_retrans: u32,
    pub unacked: u32,
}

/// From where on each counter costs health.
#[derive(Clone, Copy, Debug, PartialEq, Eq, Structural)]
pub struct HealthThresholds {
    pub rtt_degrade_ms: u32,
    pub retransmit_spike: u32,
    pub retransmit_total: u32,
    pub unacked_backlog: u32,
}

impl Default for HealthThresholds {
    fn default() -> (r: HealthThresholds)
        ensures
            r == (HealthThresholds {
                rtt_degrade_ms: 1200,
                retransmit_spike: 5,
                retransmit_total: 12,
                unacked_backlog: 64,
            }),
    {
        HealthThresholds {
            rtt_degrade_ms: 1200,
            retransmit_spike: 5,
            retransmit_total: 12,
            unacked_backlog: 64,
        }
    }
}

// ---------------------------------------------------------------------------
// Model
// ---------------------------------------------------------------------------

/// The snapshot that the kernel's counters give.
pub open spec fn stats_of(info: TcpInfo) -> TcpStats {
    TcpStats {
        rtt_ms: info.rtt / 1000,
        rtt_var_ms: info.rttvar / 1000,
        retransmits: info.retransmits as u32,
        total_retrans: info.total_retrans,
        unacked: info.unacked,
    }
}

/// One point for each tenth of a second above the threshold, up to thirty.
pub open spec fn rtt_penalty(rtt_ms: u32, threshold: u32) -> int {
    if rtt_ms < threshold {
        0
    } else if rtt_ms - threshold > 3000 {
        30
    } else {
        (rtt_ms - threshold) / 100
    }
}

/// Five points for each retransmission above the threshold, up to thirty.
pub open spec fn retransmission_penalty(total: u32, threshold: u32) -> int {
    if total < threshold {
        0
    } else if (total - threshold) * 5 > 30 {
        30
    } else {
        (total - threshold) * 5
    }
}

/// What the counters cost together.
pub open spec fn penalty(s: TcpStats, t: HealthThresholds) -> int {
    rtt_penalty(s.rtt_ms, t.rtt_degrade_ms) + (if s.retransmits >= t.retransmit_spike {
        30int
    } else {
        0
    }) + retransmission_penalty(s.total_retrans, t.retransmit_total) + (if s.unacked
        >= t.unacked_backlog {
        20int
    } else {
        0
    })
}

/// The health of a connection: one hundred less what the counters cost, and not
/// below zero.
pub open spec fn grade(s: TcpStats, t: HealthThresholds) -> int {
    if penalty(s, t) > 100 {
        0
    } else {
        100 - penalty(s, t)
    }
}

// ---------------------------------------------------------------------------
// Laws
// ---------------------------------------------------------------------------

/// A connection below all thresholds is fully healthy, and every grade lies
/// between zero and one hundred.
pub proof fn law_grades_are_on_the_scale(s: TcpStats, t: HealthThresholds)
    ensures
        0 <= grade(s, t) <= 100,
        s.rtt_ms < t.rtt_degrade_ms && s.retransmits < t.retransmit_spike && s.total_retrans
            < t.retransmit_total && s.unacked < t.unacked_backlog ==> grade(s, t) == 100,
{
}

/// No counter improves health by growing.
pub proof fn law_worse_counters_never_grade_better(a: TcpStats, b: TcpStats, t: HealthThresholds)
    requires
        a.rtt_ms <= b.rtt_ms,
        a.retransmits <= b.retransmits,
        a.total_retrans <= b.total_retrans,
        a.unacked <= b.unacked,
    ensures
        grade(a, t) >= grade(b, t),
{
}

// ---------------------------------------------------------------------------
// Executable forms
// ---------------------------------------------------------------------------

/// The snapshot that the kernel's counters give.
pub fn parse_tcp_info(info: &TcpInfo) -> (r: TcpStats)
    ensures
        r == stats_of(*info),
{
    TcpStats {
        rtt_ms: info.rtt / 1000,
        rtt_var_ms: info.rttvar / 1000,
        retransmits: info.retransmits as u32,
        total_retrans: info.total_retrans,
        unacked: info.unacked,
    }
}

/// The health of a connection.
pub fn health_grade(stats: &TcpStats, thresholds: &HealthThresholds) -> (r: u8)
    ensures
        r == grade(*stats, *thresholds),
{
    let mut score: i32 = 100;
    if stats.rtt_ms >= thresholds.rtt_degrade_ms {
        let over: u32 = stats.rtt_ms - thresholds.rtt_degrade_ms;
        let excess: u32 = if over > 3000 {
            3000
        } else {
            over
        };
        score -= (excess / 100) as i32;
    }
    if stats.retransmits >= thresholds.retransmit_spike {
        score -= 30;
    }
    if stats.total_retrans >= thresholds.retransmit_total {
        let over: u32 = stats.total_retrans - thresholds.retransmit_total;
        score -= if over > 6 {
            30
        } else {
            (over * 5) as i32
        };
    }
    if stats.unacked >= thresholds.unacked_backlog {
        score -= 20;
    }
    if score < 0 {
        0
    } else {
        score as u8
    }
}

} // verus!
