//! Arguments and report lines of the probe command.
use crate::probe::engine::{OutcomeView, ProbeFailure, ProbeOutcome};
use crate::sort;
use crate::sort::Order;
use crate::storage::query_engine;
use crate::storage::query_engine::is_bytes_less;
use crate::text;
use vstd::prelude::*;
use vstd::string::*;

verus! {

/// A flag that takes a number.
#[derive(Clone, Copy, Debug, PartialEq, Eq, Structural)]
pub enum NumberFlag {
    Concurrency,
    TimeoutMs,
}

/// What the arguments ask for.
#[derive(Clone, Debug, PartialEq, Eq)]
pub struct ProbeArgs<T = String> {
    pub path: T,
    pub concurrency: usize,
    pub timeout_ms: u64,
}

impl View for ProbeArgs {
    type V = ProbeArgs<Seq<char>>;

    open spec fn view(&self) -> ProbeArgs<Seq<char>> {
        ProbeArgs {
            path: self.path@,
            concurrency: self.concurrency,
            timeout_ms: self.timeout_ms,
        }
    }
}

/// What is wrong with the arguments.
#[derive(Clone, Debug, PartialEq, Eq)]
pub enum ArgError<T = String> {
    NeedsValue(NumberFlag),
    NotANumber(NumberFlag),
    UnknownFlag(T),
    SeveralFiles,
    NoFile,
}

impl View for ArgError {
    type V = ArgError<Seq<char>>;

    open spec fn view(&self) -> ArgError<Seq<char>> {
        match *self {
            ArgError::NeedsValue(f) => ArgError::NeedsValue(f),
            ArgError::NotANumber(f) => ArgError::NotANumber(f),
            ArgError::UnknownFlag(s) => ArgError::UnknownFlag(s@),
            ArgError::SeveralFiles => ArgError::SeveralFiles,
            ArgError::NoFile => ArgError::NoFile,
        }
    }
}

// ---------------------------------------------------------------------------
// Model
// ---------------------------------------------------------------------------

pub open spec fn flag_text(f: NumberFlag) -> Seq<char> {
    match f {
        NumberFlag::Concurrency => "--concurrency"@,
        NumberFlag::TimeoutMs => "--timeout-ms"@,
    }
}

/// The message of an error.
pub open spec fn arg_error_text(e: ArgError<Seq<char>>) -> Seq<char> {
    match e {
        ArgError::NeedsValue(f) => flag_text(f) + " needs a value"@,
        ArgError::NotANumber(f) => flag_text(f) + " must be a number"@,
        ArgError::UnknownFlag(s) => "unknown flag "@ + s,
        ArgError::SeveralFiles => "expected a single subscription file"@,
        ArgError::NoFile =>
            "usage: myproxy-probe <subscription> [--concurrency N] [--timeout-ms T]"@,
    }
}

pub open spec fn is_flag(s: Seq<char>) -> bool {
    s.len() >= 2 && s[0] == '-' && s[1] == '-'
}

/// What the arguments from a position on ask for, after what stood before them.
pub open spec fn parsed(
    args: Seq<Seq<char>>,
    i: int,
    path: Option<Seq<char>>,
    concurrency: usize,
    timeout_ms: u64,
) -> Result<ProbeArgs<Seq<char>>, ArgError<Seq<char>>>
    decreases args.len() - i,
{
    if i < 0 || i >= args.len() {
        match path {
            Some(path) => Ok(ProbeArgs { path, concurrency, timeout_ms }),
            None => Err(ArgError::NoFile),
        }
    } else if args[i] == "--concurrency"@ {
        if i + 1 >= args.len() {
            Err(ArgError::NeedsValue(NumberFlag::Concurrency))
        } else {
            match text::unsigned_number(args[i + 1], 10, usize::MAX as nat) {
                None => Err(ArgError::NotANumber(NumberFlag::Concurrency)),
                Some(n) => parsed(args, i + 2, path, n as usize, timeout_ms),
            }
        }
    } else if args[i] == "--timeout-ms"@ {
        if i + 1 >= args.len() {
            Err(ArgError::NeedsValue(NumberFlag::TimeoutMs))
        } else {
            match text::unsigned_number(args[i + 1], 10, u64::MAX as nat) {
                None => Err(ArgError::NotANumber(NumberFlag::TimeoutMs)),
                Some(n) => parsed(args, i + 2, path, concurrency, n as u64),
            }
        }
    } else if is_flag(args[i]) {
        Err(ArgError::UnknownFlag(args[i]))
    } else if path is Some {
        Err(ArgError::SeveralFiles)
    } else {
        parsed(args, i + 1, Some(args[i]), concurrency, timeout_ms)
    }
}

pub open spec fn args_result(r: Result<ProbeArgs, ArgError>) -> Result<
    ProbeArgs<Seq<char>>,
    ArgError<Seq<char>>,
> {
    match r {
        Ok(a) => Ok(a@),
        Err(e) => Err(e@),
    }
}

pub open spec fn spaces(n: nat) -> Seq<char> {
    Seq::new(n, |i: int| ' ')
}

/// A text with spaces before it, up to a width.
pub open spec fn right_aligned(s: Seq<char>, width: nat) -> Seq<char> {
    if s.len() < width {
        spaces((width - s.len()) as nat) + s
    } else {
        s
    }
}

/// A text with spaces behind it, up to a width.
pub open spec fn left_aligned(s: Seq<char>, width: nat) -> Seq<char> {
    if s.len() < width {
        s + spaces((width - s.len()) as nat)
    } else {
        s
    }
}

pub open spec fn failure_text(f: ProbeFailure) -> Seq<char> {
    match f {
        ProbeFailure::Refused => "connection refused"@,
        ProbeFailure::TimedOut => "timed out"@,
        ProbeFailure::Unresolvable => "unresolvable"@,
        ProbeFailure::NoReply => "no reply"@,
        ProbeFailure::Io => "io error"@,
    }
}

/// The line for an outcome.
pub open spec fn outcome_text(o: OutcomeView) -> Seq<char> {
    "["@ + (if o.alive {
        "ALIVE"@
    } else {
        "DEAD "@
    }) + "] "@ + right_aligned(
        match o.latency_ms {
            Some(ms) => text::decimal(ms as nat) + "ms"@,
            None => "--"@,
        },
        8,
    ) + "  "@ + left_aligned(o.protocol, 9) + "@"@ + text::utf8_lossy(o.country_code@) + "  "@
        + o.label + "  "@ + (match o.failure {
        Some(f) => failure_text(f),
        None => "ok"@,
    })
}

/// The number of live outcomes among the first `n`.
pub open spec fn live_count(outcomes: Seq<ProbeOutcome>, n: nat) -> nat
    decreases n,
{
    if n == 0 {
        0
    } else {
        live_count(outcomes, (n - 1) as nat) + (if outcomes[n - 1].alive {
            1nat
        } else {
            0
        })
    }
}

/// The outcome at `a` has a lesser label than the one at `b`.
pub open spec fn label_less(outcomes: Seq<ProbeOutcome>, a: int, b: int) -> bool {
    query_engine::bytes_less(
        vstd::utf8::encode_utf8(outcomes[a].label@),
        vstd::utf8::encode_utf8(outcomes[b].label@),
    )
}

/// The positions in the order of the labels; equal labels keep their order.
pub open spec fn is_label_order(outcomes: Seq<ProbeOutcome>, p: Seq<usize>) -> bool {
    &&& p.len() == outcomes.len()
    &&& p.no_duplicates()
    &&& forall|i: int| 0 <= i < p.len() ==> #[trigger] p[i] < outcomes.len()
    &&& forall|i: int, j: int|
        0 <= i < j < p.len() ==> label_less(outcomes, #[trigger] p[i] as int, #[trigger] p[j] as int)
            || (!label_less(outcomes, p[j] as int, p[i] as int) && p[i] < p[j])
}

// ---------------------------------------------------------------------------
// Executable forms
// ---------------------------------------------------------------------------

impl ArgError {
    /// The message for a user.
    pub fn message(&self) -> (r: String)
        ensures
            r@ == arg_error_text(self@),
    {
        match self {
            ArgError::NeedsValue(f) => {
                let mut r = flag_name(*f).to_owned();
                r.append(" needs a value");
                r
            },
            ArgError::NotANumber(f) => {
                let mut r = flag_name(*f).to_owned();
                r.append(" must be a number");
                r
            },
            ArgError::UnknownFlag(s) => {
                let mut r = "unknown flag ".to_owned();
                r.append(s.as_str());
                r
            },
            ArgError::SeveralFiles => "expected a single subscription file".to_owned(),
            ArgError::NoFile =>
                "usage: myproxy-probe <subscription> [--concurrency N] [--timeout-ms T]".to_owned(),
        }
    }
}

fn flag_name(f: NumberFlag) -> (r: &'static str)
    ensures
        r@ == flag_text(f),
{
    match f {
        NumberFlag::Concurrency => "--concurrency",
        NumberFlag::TimeoutMs => "--timeout-ms",
    }
}

fn starts_like_flag(s: &str) -> (r: bool)
    ensures
        r == is_flag(s@),
{
    let chars = text::to_chars(s);
    chars.len() >= 2 && chars[0] == '-' && chars[1] == '-'
}

/// Reads the arguments of the command.
pub fn parse_args(args: &Vec<String>, concurrency: usize, timeout_ms: u64) -> (r: Result<
    ProbeArgs,
    ArgError,
>)
    ensures
        args_result(r) == parsed(text::texts_of(args@), 0, None, concurrency, timeout_ms),
{
    let ghost all = text::texts_of(args@);
    let mut path: Option<String> = None;
    let mut limit: usize = concurrency;
    let mut timeout: u64 = timeout_ms;
    let mut i: usize = 0;
    let n: usize = args.len();
    while i < n
        invariant
            n == args@.len(),
            i <= n,
            all == text::texts_of(args@),
            parsed(all, 0, None, concurrency, timeout_ms) == parsed(
                all,
                i as int,
                text::text_of(path),
                limit,
                timeout,
            ),
        decreases n - i,
    {
        assert(all[i as int] == args@[i as int]@);
        if text::same(args[i].as_str(), "--concurrency") {
            if n - i < 2 {
                return Err(ArgError::NeedsValue(NumberFlag::Concurrency));
            }
            assert(all[i + 1] == args@[i + 1]@);
            match text::read_unsigned(
                &text::to_chars(args[i + 1].as_str()),
                10,
                usize::MAX as u64,
            ) {
                None => {
                    return Err(ArgError::NotANumber(NumberFlag::Concurrency));
                },
                Some(value) => {
                    limit = value as usize;
                },
            }
            i += 2;
        } else if text::same(args[i].as_str(), "--timeout-ms") {
            if n - i < 2 {
                return Err(ArgError::NeedsValue(NumberFlag::TimeoutMs));
            }
            assert(all[i + 1] == args@[i + 1]@);
            match text::read_unsigned(&text::to_chars(args[i + 1].as_str()), 10, u64::MAX) {
                None => {
                    return Err(ArgError::NotANumber(NumberFlag::TimeoutMs));
                },
                Some(value) => {
                    timeout = value;
                },
            }
            i += 2;
        } else if starts_like_flag(args[i].as_str()) {
            return Err(ArgError::UnknownFlag(args[i].clone()));
        } else {
            if path.is_some() {
                return Err(ArgError::SeveralFiles);
            }
            path = Some(args[i].clone());
            i += 1;
        }
    }
    match path {
        Some(path) => Ok(ProbeArgs { path, concurrency: limit, timeout_ms: timeout }),
        None => Err(ArgError::NoFile),
    }
}

/// What a failure is called.
pub fn describe_failure(failure: ProbeFailure) -> (r: &'static str)
    ensures
        r@ == failure_text(failure),
{
    match failure {
        ProbeFailure::Refused => "connection refused",
        ProbeFailure::TimedOut => "timed out",
        ProbeFailure::Unresolvable => "unresolvable",
        ProbeFailure::NoReply => "no reply",
        ProbeFailure::Io => "io error",
    }
}

fn some_spaces(n: usize) -> (r: String)
    ensures
        r@ == spaces(n as nat),
{
    let mut chars: Vec<char> = Vec::new();
    let mut i: usize = 0;
    while i < n
        invariant
            i <= n,
            chars@ == spaces(i as nat),
        decreases n - i,
    {
        chars.push(' ');
        i += 1;
        assert(chars@ =~= spaces(i as nat));
    }
    text::from_chars(&chars)
}

fn align_right(s: &str, width: usize) -> (r: String)
    ensures
        r@ == right_aligned(s@, width as nat),
{
    let n: usize = text::to_chars(s).len();
    if n < width {
        let mut r = some_spaces(width - n);
        r.append(s);
        r
    } else {
        s.to_owned()
    }
}

fn align_left(s: &str, width: usize) -> (r: String)
    ensures
        r@ == left_aligned(s@, width as nat),
{
    let n: usize = text::to_chars(s).len();
    let mut r = s.to_owned();
    if n < width {
        r.append(some_spaces(width - n).as_str());
    }
    r
}

/// The line for an outcome.
pub fn outcome_line(outcome: &ProbeOutcome) -> (r: String)
    ensures
        r@ == outcome_text(outcome@),
{
    let mut r = "[".to_owned();
    r.append(
        if outcome.alive {
            "ALIVE"
        } else {
            "DEAD "
        },
    );
    r.append("] ");
    let latency = match outcome.latency_ms {
        Some(ms) => {
            let mut text = text::decimal_text(ms as u64);
            text.append("ms");
            text
        },
        None => "--".to_owned(),
    };
    r.append(align_right(latency.as_str(), 8).as_str());
    r.append("  ");
    r.append(align_left(outcome.protocol, 9).as_str());
    r.append("@");
    r.append(text::from_utf8_lossy(&outcome.country_code).as_str());
    r.append("  ");
    r.append(outcome.label.as_str());
    r.append("  ");
    r.append(
        match outcome.failure {
            Some(failure) => describe_failure(failure),
            None => "ok",
        },
    );
    r
}

/// The closing line: how many of the nodes live, and what was left out.
pub fn summary_line(outcomes: &Vec<ProbeOutcome>, nodes: usize, skipped: usize, duplicates: usize) -> (r:
    String)
    ensures
        r@ == text::decimal(live_count(outcomes@, outcomes@.len())) + " of "@ + text::decimal(
            nodes as nat,
        ) + " nodes alive ("@ + text::decimal(skipped as nat) + " skipped, "@ + text::decimal(
            duplicates as nat,
        ) + " duplicates)"@,
{
    let mut alive: usize = 0;
    let mut i: usize = 0;
    while i < outcomes.len()
        invariant
            i <= outcomes@.len(),
            alive <= i,
            alive == live_count(outcomes@, i as nat),
        decreases outcomes@.len() - i,
    {
        if outcomes[i].alive {
            alive += 1;
        }
        i += 1;
    }
    let mut r = text::decimal_text(alive as u64);
    r.append(" of ");
    r.append(text::decimal_text(nodes as u64).as_str());
    r.append(" nodes alive (");
    r.append(text::decimal_text(skipped as u64).as_str());
    r.append(" skipped, ");
    r.append(text::decimal_text(duplicates as u64).as_str());
    r.append(" duplicates)");
    r
}

struct LabelOrder<'a> {
    outcomes: &'a Vec<ProbeOutcome>,
}

impl<'a> Order for LabelOrder<'a> {
    closed spec fn is_item(&self, a: usize) -> bool {
        a < self.outcomes@.len()
    }

    closed spec fn precedes(&self, a: usize, b: usize) -> bool {
        label_less(self.outcomes@, a as int, b as int)
    }

    fn less(&self, a: usize, b: usize) -> (r: bool) {
        is_bytes_less(self.outcomes[a].label.as_str().as_bytes(), self.outcomes[b].label.as_str().as_bytes())
    }

    proof fn irreflexive(&self, a: usize) {
        query_engine::lemma_bytes_irreflexive(
            vstd::utf8::encode_utf8(self.outcomes@[a as int].label@),
        );
    }

    proof fn transitive(&self, a: usize, b: usize, c: usize) {
        query_engine::lemma_bytes_transitive(
            vstd::utf8::encode_utf8(self.outcomes@[a as int].label@),
            vstd::utf8::encode_utf8(self.outcomes@[b as int].label@),
            vstd::utf8::encode_utf8(self.outcomes@[c as int].label@),
        );
    }

    proof fn weakly_transitive(&self, a: usize, b: usize, c: usize) {
        query_engine::lemma_bytes_weak(
            vstd::utf8::encode_utf8(self.outcomes@[a as int].label@),
            vstd::utf8::encode_utf8(self.outcomes@[b as int].label@),
            vstd::utf8::encode_utf8(self.outcomes@[c as int].label@),
        );
    }
}

/// The positions of outcomes in the order of their labels.
pub fn label_order(outcomes: &Vec<ProbeOutcome>) -> (r: Vec<usize>)
    ensures
        is_label_order(outcomes@, r@),
{
    let mut items: Vec<usize> = Vec::new();
    let mut i: usize = 0;
    while i < outcomes.len()
        invariant
            i <= outcomes@.len(),
            items@.len() == i,
            forall|k: int| 0 <= k < i ==> #[trigger] items@[k] == k,
        decreases outcomes@.len() - i,
    {
        items.push(i);
        i += 1;
    }
    let order = LabelOrder { outcomes };
    let r = sort::sort_positions(&order, items);
    proof {
        assert forall|x: int| 0 <= x < r@.len() implies #[trigger] r@[x] < outcomes@.len() by {
            assert(order.is_item(r@[x]));
        }
        assert forall|x: int, y: int| 0 <= x < y < r@.len() implies label_less(
            outcomes@,
            #[trigger] r@[x] as int,
            #[trigger] r@[y] as int,
        ) || (!label_less(outcomes@, r@[y] as int, r@[x] as int) && r@[x] < r@[y]) by {
            assert(!order.precedes(r@[y], r@[x]));
        }
    }
    r
}

} // verus!
