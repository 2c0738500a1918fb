//! Reading an HTTP answer, and the targets that are asked for one.
use crate::text;
use crate::time::Duration;
use vstd::prelude::*;
use vstd::string::*;

verus! {

/// The largest answer that is read, in bytes.
pub const MAX_RESPONSE_BYTES: usize = 65536;

/// The status and the body of an answer.
#[derive(Clone, Debug, PartialEq, Eq)]
pub struct HttpExchange {
    pub status: u16,
    pub body: String,
}

// ---------------------------------------------------------------------------
// Model
// ---------------------------------------------------------------------------

/// The header block ends at position `i`.
pub open spec fn header_ends_at(s: Seq<u8>, i: int) -> bool {
    0 <= i && i + 4 <= s.len() && s[i] == 13 && s[i + 1] == 10 && s[i + 2] == 13 && s[i + 3] == 10
}

/// The header block is complete.
pub open spec fn has_header(s: Seq<u8>) -> bool {
    exists|i: int| header_ends_at(s, i)
}

/// The first line of a text, which may be empty.
pub open spec fn status_line(s: Seq<char>) -> Seq<char> {
    let lines = text::lines(s);
    if lines.len() == 0 {
        Seq::empty()
    } else {
        lines[0]
    }
}

/// The status in an answer: the second word of its first line, or zero.
pub open spec fn answer_status(s: Seq<char>) -> u16 {
    let words = text::words(status_line(s));
    if words.len() < 2 {
        0
    } else {
        match text::unsigned_number(words[1], 10, u16::MAX as nat) {
            Some(v) => v as u16,
            None => 0,
        }
    }
}

/// The body of an answer: what follows the header block.
pub open spec fn answer_body(s: Seq<char>) -> Seq<char> {
    match text::split_once(s, "\r\n\r\n"@) {
        Some((head, body)) => body,
        None => Seq::empty(),
    }
}

/// What reading from a connection gave.
#[derive(Clone, Debug, PartialEq, Eq)]
pub enum ReadEvent {
    Data(Vec<u8>),
    Closed,
    /// Nothing came in time.
    Blocked,
    Failed(String),
}

/// What to do next.
#[derive(Clone, Debug, PartialEq, Eq)]
pub enum ReadAction {
    Read,
    PauseAndRead,
    Finish,
    Fail(ReadFault),
}

/// Why an answer cannot be read.
#[derive(Clone, Debug, PartialEq, Eq)]
pub enum ReadFault {
    Read(String),
    TooLarge(usize),
    TimedOut,
}

/// The bytes after an event.
pub open spec fn received(s: Seq<u8>, event: ReadEvent) -> Seq<u8> {
    match event {
        ReadEvent::Data(bytes) => s + bytes@,
        _ => s,
    }
}

/// Collects the bytes of an answer until its header block is complete.
pub struct HttpReader {
    response: Vec<u8>,
}

impl View for HttpReader {
    type V = Seq<u8>;

    closed spec fn view(&self) -> Seq<u8> {
        self.response@
    }
}

impl HttpReader {
    pub fn new() -> (r: HttpReader)
        ensures
            r@ == Seq::<u8>::empty(),
    {
        HttpReader { response: Vec::new() }
    }

    /// Whether the header block is complete.
    pub fn is_complete(&self) -> (r: bool)
        ensures
            r == has_header(self@),
    {
        let n: usize = self.response.len();
        let mut i: usize = 0;
        while i < n
            invariant
                i <= n,
                n == self.response@.len(),
                forall|k: int| 0 <= k < i ==> !header_ends_at(self.response@, k),
            decreases n - i,
        {
            if n - i >= 4 && self.response[i] == 13 && self.response[i + 1] == 10
                && self.response[i + 2] == 13 && self.response[i + 3] == 10 {
                assert(header_ends_at(self.response@, i as int));
                return true;
            }
            i += 1;
        }
        false
    }

    /// Takes an event in and says what to do next: a complete header block or a
    /// closed connection finishes the answer; a failed read, too many bytes or
    /// too much time ends it.
    pub fn feed(&mut self, event: ReadEvent, elapsed: Duration, timeout: Duration) -> (r: ReadAction)
        requires
            old(self)@.len() <= MAX_RESPONSE_BYTES,
        ensures
            final(self)@ == received(old(self)@, event),
            (match r {
                ReadAction::Fail(ReadFault::Read(e)) => event matches ReadEvent::Failed(why) && e@
                    == why@,
                ReadAction::Fail(ReadFault::TooLarge(n)) => !(event is Failed)
                    && !(event is Closed) && n == final(self)@.len() && n > MAX_RESPONSE_BYTES,
                ReadAction::Fail(ReadFault::TimedOut) => !(event is Failed) && !(event is Closed)
                    && final(self)@.len() <= MAX_RESPONSE_BYTES && elapsed.nanos > timeout.nanos,
                ReadAction::Finish => event is Closed || (!(event is Failed) && final(self)@.len()
                    <= MAX_RESPONSE_BYTES && elapsed.nanos <= timeout.nanos && has_header(
                    final(self)@,
                )),
                ReadAction::PauseAndRead => event is Blocked && final(self)@.len()
                    <= MAX_RESPONSE_BYTES && elapsed.nanos <= timeout.nanos && !has_header(
                    final(self)@,
                ),
                ReadAction::Read => event is Data && final(self)@.len() <= MAX_RESPONSE_BYTES
                    && elapsed.nanos <= timeout.nanos && !has_header(final(self)@),
            }),
    {
        let mut paused = false;
        match event {
            ReadEvent::Closed => {
                return ReadAction::Finish;
            },
            ReadEvent::Failed(e) => {
                return ReadAction::Fail(ReadFault::Read(e));
            },
            ReadEvent::Blocked => {
                paused = true;
            },
            ReadEvent::Data(bytes) => {
                let mut bytes = bytes;
                self.response.append(&mut bytes);
            },
        }
        if self.response.len() > MAX_RESPONSE_BYTES {
            return ReadAction::Fail(ReadFault::TooLarge(self.response.len()));
        }
        if elapsed.nanos > timeout.nanos {
            return ReadAction::Fail(ReadFault::TimedOut);
        }
        if self.is_complete() {
            return ReadAction::Finish;
        }
        if paused {
            ReadAction::PauseAndRead
        } else {
            ReadAction::Read
        }
    }

    /// The answer that was read.
    pub fn finish(&self) -> (r: HttpExchange)
        ensures
            r.status == answer_status(text::utf8_lossy(self@)),
            r.body@ == answer_body(text::utf8_lossy(self@)),
    {
        parse_answer(text::from_utf8_lossy(self.response.as_slice()).as_str())
    }
}

/// The status and the body of an answer.
pub fn parse_answer(answer: &str) -> (r: HttpExchange)
    ensures
        r.status == answer_status(answer@),
        r.body@ == answer_body(answer@),
{
    let chars = text::to_chars(answer);
    let lines = text::split_lines(&chars);
    let ghost view = |l: &[char]| l@;
    assert(lines@.map_values(view) == text::lines(answer@));
    let status: u16 = if lines.len() == 0 {
        proof {
            reveal_with_fuel(text::words, 1);
            reveal_with_fuel(text::trim_start, 1);
        }
        0
    } else {
        assert(lines@.map_values(view)[0] == lines@[0]@);
        let words = text::split_words(lines[0]);
        assert(words@.map_values(view) == text::words(lines@[0]@));
        assert(words@.len() == text::words(lines@[0]@).len());
        if words.len() < 2 {
            0
        } else {
            assert(words@.map_values(view)[1] == words@[1]@);
            match text::read_unsigned(words[1], 10, 65535) {
                Some(v) => v as u16,
                None => 0,
            }
        }
    };
    let mark = text::to_chars("\r\n\r\n");
    let body = match text::split_once_chars(&chars, &mark) {
        Some((_, body)) => text::from_chars(body),
        None => String::new(),
    };
    HttpExchange { status, body }
}

// ---------------------------------------------------------------------------
// Targets
// ---------------------------------------------------------------------------

/// Why a text is no target.
#[derive(Clone, Debug, PartialEq, Eq)]
pub enum TargetError<T = String> {
    InvalidPort(T),
    NotHostPort(T),
    EmptyHost(T),
}

impl View for TargetError {
    type V = TargetError<Seq<char>>;

    open spec fn view(&self) -> TargetError<Seq<char>> {
        match *self {
            TargetError::InvalidPort(s) => TargetError::InvalidPort(s@),
            TargetError::NotHostPort(s) => TargetError::NotHostPort(s@),
            TargetError::EmptyHost(s) => TargetError::EmptyHost(s@),
        }
    }
}

/// The message of an error.
pub open spec fn target_error_text(e: TargetError<Seq<char>>) -> Seq<char> {
    match e {
        TargetError::InvalidPort(s) => "invalid target port in "@ + text::quoted(s),
        TargetError::NotHostPort(s) => "target "@ + text::quoted(s) + " must be host:port"@,
        TargetError::EmptyHost(s) => "target "@ + text::quoted(s) + " has an empty host"@,
    }
}

impl TargetError {
    /// The message for a user.
    pub fn message(&self) -> (r: String)
        ensures
            r@ == target_error_text(self@),
    {
        match self {
            TargetError::InvalidPort(s) => {
                let mut r = "invalid target port in ".to_owned();
                r.append(text::quote(s.as_str()).as_str());
                r
            },
            TargetError::NotHostPort(s) => {
                let mut r = "target ".to_owned();
                r.append(text::quote(s.as_str()).as_str());
                r.append(" must be host:port");
                r
            },
            TargetError::EmptyHost(s) => {
                let mut r = "target ".to_owned();
                r.append(text::quote(s.as_str()).as_str());
                r.append(" has an empty host");
                r
            },
        }
    }
}

/// The position of the last `c`, or -1.
pub open spec fn last_char(s: Seq<char>, c: char) -> int
    decreases s.len(),
{
    if s.len() == 0 {
        -1
    } else if s.last() == c {
        s.len() - 1
    } else {
        last_char(s.drop_last(), c)
    }
}

/// `s` without its leading `c`s.
pub open spec fn strip_leading(s: Seq<char>, c: char) -> Seq<char>
    decreases s.len(),
{
    if s.len() > 0 && s[0] == c {
        strip_leading(s.drop_first(), c)
    } else {
        s
    }
}

/// `s` without its trailing `c`s.
pub open spec fn strip_trailing(s: Seq<char>, c: char) -> Seq<char>
    decreases s.len(),
{
    if s.len() > 0 && s.last() == c {
        strip_trailing(s.drop_last(), c)
    } else {
        s
    }
}

/// A target without its scheme.
pub open spec fn without_https(s: Seq<char>) -> Seq<char> {
    if text::occurs_at(s, "https://"@, 0) {
        s.skip("https://"@.len() as int)
    } else {
        s
    }
}

/// The host and the port of a target: what stands before the last colon, without
/// brackets, and the number after it.
pub open spec fn target_parts(target: Seq<char>) -> Result<
    (Seq<char>, u16),
    TargetError<Seq<char>>,
> {
    let rest = without_https(target);
    let colon = last_char(rest, ':');
    if colon < 0 {
        Err(TargetError::NotHostPort(target))
    } else {
        match text::unsigned_number(rest.skip(colon + 1), 10, u16::MAX as nat) {
            None => Err(TargetError::InvalidPort(target)),
            Some(port) => {
                let host = strip_trailing(strip_leading(rest.take(colon), '['), ']');
                if host.len() == 0 {
                    Err(TargetError::EmptyHost(target))
                } else {
                    Ok((host, port as u16))
                }
            },
        }
    }
}

/// Splits a target into host and port. Address literals and a leading `https://`
/// are accepted.
pub fn split_target(target: &str) -> (r: Result<(String, u16), TargetError>)
    ensures
        (match r {
            Ok(p) => target_parts(target@) == Ok::<_, TargetError<Seq<char>>>((p.0@, p.1)),
            Err(e) => target_parts(target@) == Err::<(Seq<char>, u16), _>(e@),
        }),
{
    let chars = text::to_chars(target);
    let scheme = text::to_chars("https://");
    let start: usize = if text::occurs_here(&chars, &scheme, 0) {
        scheme.len()
    } else {
        0
    };
    let rest = vstd::slice::slice_subrange(&chars, start, chars.len());
    assert(rest@ =~= without_https(target@));
    let mut colon: usize = rest.len();
    assert(rest@.take(colon as int) =~= rest@);
    while colon > 0 && rest[colon - 1] != ':'
        invariant
            colon <= rest@.len(),
            last_char(rest@, ':') == last_char(rest@.take(colon as int), ':'),
        decreases colon,
    {
        assert(rest@.take(colon as int).drop_last() =~= rest@.take(colon - 1));
        colon -= 1;
    }
    if colon == 0 {
        return Err(TargetError::NotHostPort(target.to_owned()));
    }
    let at: usize = colon - 1;
    let digits = vstd::slice::slice_subrange(rest, colon, rest.len());
    assert(digits@ =~= rest@.skip(at + 1));
    let port: u16 = match text::read_unsigned(digits, 10, 65535) {
        Some(v) => v as u16,
        None => return Err(TargetError::InvalidPort(target.to_owned())),
    };
    let named = vstd::slice::slice_subrange(rest, 0, at);
    assert(named@ =~= rest@.take(at as int));
    let mut from: usize = 0;
    assert(named@.skip(0) =~= named@);
    while from < named.len() && named[from] == '['
        invariant
            from <= named@.len(),
            strip_leading(named@, '[') == strip_leading(named@.skip(from as int), '['),
        decreases named@.len() - from,
    {
        assert(named@.skip(from as int).drop_first() =~= named@.skip(from + 1));
        from += 1;
    }
    let open = vstd::slice::slice_subrange(named, from, named.len());
    assert(open@ =~= named@.skip(from as int));
    let mut to: usize = open.len();
    assert(open@.take(to as int) =~= open@);
    while to > 0 && open[to - 1] == ']'
        invariant
            to <= open@.len(),
            strip_trailing(open@, ']') == strip_trailing(open@.take(to as int), ']'),
        decreases to,
    {
        assert(open@.take(to as int).drop_last() =~= open@.take(to - 1));
        to -= 1;
    }
    let host = vstd::slice::slice_subrange(open, 0, to);
    assert(host@ =~= open@.take(to as int));
    if host.len() == 0 {
        return Err(TargetError::EmptyHost(target.to_owned()));
    }
    Ok((text::from_chars(host), port))
}

} // verus!
