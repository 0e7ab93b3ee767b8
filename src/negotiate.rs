//! Decisions of the receiving side: bounded retries of the size request,
//! throttling of progress reports, and the figures of the final report.

use vstd::prelude::*;
use vstd::string::*;

verus! {

/// How many times the size request is tried before the receive gives up.
pub const MAX_SIZE_ATTEMPTS: u64 = 3;

/// The pause before a retry grows by this many milliseconds per attempt.
pub const BACKOFF_STEP_MS: u64 = 250;

/// Unreported progress must exceed this many bytes before it is reported.
pub const PROGRESS_THRESHOLD: u64 = 1024 * 1024;

/// What went wrong while talking to the sender.
#[derive(Clone, Copy, Debug, PartialEq, Eq, Structural)]
pub enum GetErrorKind {
    /// The connection failed before the first response.
    InitialNext,
    /// The connection failed after it was established.
    ConnectedNext,
    /// A blob header could not be read.
    AtBlobHeaderNext,
    /// A response could not be decoded.
    Decode,
    /// A request could not be handed to the transport.
    IrpcSend,
    /// The connection failed while closing.
    AtClosingNext,
    /// The request was malformed.
    BadRequest,
    /// The local side failed.
    LocalFailure,
}

/// The broad class of a retrieval error, for diagnostics.
#[derive(Clone, Copy, Debug, PartialEq, Eq, Structural)]
pub enum ErrorClass {
    /// The connection to the sender.
    Connection,
    /// Decoding or handing data to the transport.
    Protocol,
    /// Closing, a bad request, or a local failure.
    Other,
}

impl GetErrorKind {
    pub open spec fn class_spec(self) -> ErrorClass {
        match self {
            GetErrorKind::InitialNext | GetErrorKind::ConnectedNext | GetErrorKind::AtBlobHeaderNext => ErrorClass::Connection,
            GetErrorKind::Decode | GetErrorKind::IrpcSend => ErrorClass::Protocol,
            _ => ErrorClass::Other,
        }
    }

    /// Which class the error belongs to.
    pub fn class(&self) -> (r: ErrorClass)
        ensures
            r == self.class_spec(),
    {
        match self {
            GetErrorKind::InitialNext | GetErrorKind::ConnectedNext | GetErrorKind::AtBlobHeaderNext => ErrorClass::Connection,
            GetErrorKind::Decode | GetErrorKind::IrpcSend => ErrorClass::Protocol,
            _ => ErrorClass::Other,
        }
    }

    pub open spec fn description_spec(self) -> Seq<char> {
        match self {
            GetErrorKind::InitialNext => "initial connection error"@,
            GetErrorKind::ConnectedNext => "connected error"@,
            GetErrorKind::AtBlobHeaderNext => "reading blob header error"@,
            GetErrorKind::Decode => "decoding error"@,
            GetErrorKind::IrpcSend => "error sending over irpc"@,
            GetErrorKind::AtClosingNext => "error at closing"@,
            GetErrorKind::BadRequest => "bad request"@,
            GetErrorKind::LocalFailure => "local failure"@,
        }
    }

    /// A short description of the error for the log.
    pub fn description(&self) -> (r: &'static str)
        ensures
            r@ == self.description_spec(),
    {
        match self {
            GetErrorKind::InitialNext => "initial connection error",
            GetErrorKind::ConnectedNext => "connected error",
            GetErrorKind::AtBlobHeaderNext => "reading blob header error",
            GetErrorKind::Decode => "decoding error",
            GetErrorKind::IrpcSend => "error sending over irpc",
            GetErrorKind::AtClosingNext => "error at closing",
            GetErrorKind::BadRequest => "bad request",
            GetErrorKind::LocalFailure => "local failure",
        }
    }
}

/// What to do after an attempt of the size request.
#[derive(Clone, Copy, Debug, PartialEq, Eq, Structural)]
pub enum NegotiationStep {
    /// The sizes arrived.
    Succeeded,
    /// Wait this long, connect afresh, and try again.
    RetryAfter(u64),
    /// Stop: the receive fails with this error, the last one seen.
    GaveUp(GetErrorKind),
}

/// The step after attempt number `attempt` ended with `outcome`.
pub open spec fn step_of(attempt: nat, outcome: Result<(), GetErrorKind>) -> NegotiationStep {
    match outcome {
        Ok(_) => NegotiationStep::Succeeded,
        Err(e) => if attempt < MAX_SIZE_ATTEMPTS {
            NegotiationStep::RetryAfter((BACKOFF_STEP_MS * attempt) as u64)
        } else {
            NegotiationStep::GaveUp(e)
        },
    }
}

/// How a negotiation that starts at attempt number `attempt` ends when its
/// attempts have the given outcomes: `None` while it still goes on.
pub open spec fn negotiation_result(attempt: nat, outcomes: Seq<Result<(), GetErrorKind>>) -> Option<
    Result<(), GetErrorKind>,
>
    decreases outcomes.len(),
{
    if outcomes.len() == 0 {
        None
    } else {
        match step_of(attempt, outcomes[0]) {
            NegotiationStep::Succeeded => Some(Ok(())),
            NegotiationStep::GaveUp(e) => Some(Err(e)),
            NegotiationStep::RetryAfter(_) => negotiation_result(attempt + 1, outcomes.drop_first()),
        }
    }
}

/// The state of the size request's retry loop.
pub struct SizeNegotiation {
    /// The number of the attempt under way, from 1.
    pub attempt: u64,
    /// The error of the last failed attempt.
    pub last_error: Option<GetErrorKind>,
}

impl SizeNegotiation {
    pub open spec fn wf(&self) -> bool {
        1 <= self.attempt <= MAX_SIZE_ATTEMPTS
    }

    /// The state before the first attempt.
    pub fn new() -> (r: SizeNegotiation)
        ensures
            r.wf(),
            r.attempt == 1,
            r.last_error is None,
    {
        SizeNegotiation { attempt: 1, last_error: None }
    }

    /// Takes the outcome of the attempt under way into account.
    ///
    /// A failure before the last attempt asks for a pause of
    /// `BACKOFF_STEP_MS` times the attempt's number and a fresh connection;
    /// a failure of the last attempt gives up with that failure's error.
    pub fn on_outcome(&mut self, outcome: Result<(), GetErrorKind>) -> (r: NegotiationStep)
        requires
            old(self).wf(),
        ensures
            final(self).wf(),
            r == step_of(old(self).attempt as nat, outcome),
            r is RetryAfter ==> final(self).attempt == old(self).attempt + 1,
            !(r is RetryAfter) ==> final(self).attempt == old(self).attempt,
            final(self).last_error == match outcome {
                Ok(_) => old(self).last_error,
                Err(e) => Some(e),
            },
    {
        match outcome {
            Ok(_) => NegotiationStep::Succeeded,
            Err(e) => {
                self.last_error = Some(e);
                if self.attempt < MAX_SIZE_ATTEMPTS {
                    let delay = BACKOFF_STEP_MS * self.attempt;
                    self.attempt = self.attempt + 1;
                    NegotiationStep::RetryAfter(delay)
                } else {
                    NegotiationStep::GaveUp(e)
                }
            },
        }
    }
}

/// Size negotiation is bounded: two failures followed by a success end in
/// success, after pauses of one and two backoff steps; three failures end in
/// the third failure's error, whatever comes after.
pub proof fn lemma_negotiation_bounded(
    e1: GetErrorKind,
    e2: GetErrorKind,
    e3: GetErrorKind,
    rest: Seq<Result<(), GetErrorKind>>,
)
    ensures
        step_of(1, Err(e1)) == NegotiationStep::RetryAfter(BACKOFF_STEP_MS),
        step_of(2, Err(e2)) == NegotiationStep::RetryAfter((2 * BACKOFF_STEP_MS) as u64),
        negotiation_result(1, seq![Err(e1), Err(e2), Ok(())] + rest) == Some(
            Ok::<(), GetErrorKind>(()),
        ),
        negotiation_result(1, seq![Err(e1), Err(e2), Err(e3)] + rest) == Some(
            Err::<(), GetErrorKind>(e3),
        ),
{
    let a = seq![Err(e1), Err(e2), Ok(())] + rest;
    let a1 = a.drop_first();
    let a2 = a1.drop_first();
    assert(a1 =~= seq![Err(e2), Ok(())] + rest);
    assert(a2 =~= seq![Ok(())] + rest);
    assert(a[0] == Err::<(), GetErrorKind>(e1));
    assert(a1[0] == Err::<(), GetErrorKind>(e2));
    assert(a2[0] == Ok::<(), GetErrorKind>(()));
    assert(negotiation_result(3, a2) == Some(Ok::<(), GetErrorKind>(())));
    assert(negotiation_result(2, a1) == negotiation_result(3, a2));
    assert(negotiation_result(1, a) == negotiation_result(2, a1));
    let b = seq![Err(e1), Err(e2), Err(e3)] + rest;
    let b1 = b.drop_first();
    let b2 = b1.drop_first();
    assert(b1 =~= seq![Err(e2), Err(e3)] + rest);
    assert(b2 =~= seq![Err(e3)] + rest);
    assert(b[0] == Err::<(), GetErrorKind>(e1));
    assert(b1[0] == Err::<(), GetErrorKind>(e2));
    assert(b2[0] == Err::<(), GetErrorKind>(e3));
    assert(negotiation_result(3, b2) == Some(Err::<(), GetErrorKind>(e3)));
    assert(negotiation_result(2, b1) == negotiation_result(3, b2));
    assert(negotiation_result(1, b) == negotiation_result(2, b1));
}

/// When to report download progress.
pub struct ProgressThrottle {
    /// The offset of the last report.
    pub last_reported: u64,
    /// The payload size that reports are measured against.
    pub total: u64,
}

impl ProgressThrottle {
    /// A throttle for a payload of `total` bytes, with nothing reported yet.
    pub fn new(total: u64) -> (r: ProgressThrottle)
        ensures
            r.last_reported == 0,
            r.total == total,
    {
        ProgressThrottle { last_reported: 0, total }
    }

    /// Decides whether the stream's advance to `offset` is reported: only
    /// when the unreported progress exceeds `PROGRESS_THRESHOLD`. Gives the
    /// offset to report.
    pub fn on_progress(&mut self, offset: u64) -> (r: Option<u64>)
        ensures
            final(self).total == old(self).total,
            (offset > old(self).last_reported && offset - old(self).last_reported
                > PROGRESS_THRESHOLD) ==> r == Some(offset) && final(self).last_reported == offset,
            !(offset > old(self).last_reported && offset - old(self).last_reported
                > PROGRESS_THRESHOLD) ==> r is None && final(self).last_reported == old(
                self,
            ).last_reported,
    {
        if offset > self.last_reported && offset - self.last_reported > PROGRESS_THRESHOLD {
            self.last_reported = offset;
            Some(offset)
        } else {
            None
        }
    }

    /// The offset of the final report, sent when the stream completes: the
    /// whole payload.
    pub fn on_done(&mut self) -> (r: u64)
        ensures
            r == old(self).total,
            final(self).total == old(self).total,
            final(self).last_reported == old(self).total,
    {
        self.last_reported = self.total;
        self.total
    }
}

/// The sum of the sizes after the first one.
pub open spec fn payload_of(sizes: Seq<u64>) -> int
    decreases sizes.len(),
{
    if sizes.len() <= 1 {
        0
    } else {
        payload_of(sizes.drop_last()) + sizes.last()
    }
}

proof fn lemma_payload_prefix(sizes: Seq<u64>, i: int)
    requires
        1 <= i < sizes.len(),
    ensures
        payload_of(sizes.take(i + 1)) == payload_of(sizes.take(i)) + sizes[i],
        payload_of(sizes.take(i)) >= 0,
    decreases i,
{
    assert(sizes.take(i + 1).drop_last() =~= sizes.take(i));
    if i > 1 {
        lemma_payload_prefix(sizes, i - 1);
    }
}

proof fn lemma_payload_grows(sizes: Seq<u64>, i: int)
    requires
        1 <= i <= sizes.len(),
    ensures
        payload_of(sizes) >= payload_of(sizes.take(i)),
    decreases sizes.len() - i,
{
    if i < sizes.len() {
        lemma_payload_prefix(sizes, i);
        lemma_payload_grows(sizes, i + 1);
    } else {
        assert(sizes.take(i) =~= sizes);
    }
}

/// The payload of a collection: the sum of its entries' sizes, leaving out
/// the first size, which belongs to the collection's own metadata. `None`
/// when the sum does not fit in a `u64`.
pub fn payload_size(sizes: &Vec<u64>) -> (r: Option<u64>)
    ensures
        payload_of(sizes@) <= u64::MAX ==> r == Some(payload_of(sizes@) as u64),
        payload_of(sizes@) > u64::MAX ==> r is None,
{
    if sizes.len() <= 1 {
        return Some(0);
    }
    let mut sum: u64 = 0;
    let mut i: usize = 1;
    assert(payload_of(sizes@.take(1)) == 0);
    while i < sizes.len()
        invariant
            1 <= i <= sizes@.len(),
            sum == payload_of(sizes@.take(i as int)),
        decreases sizes@.len() - i,
    {
        proof {
            lemma_payload_prefix(sizes@, i as int);
        }
        match sum.checked_add(sizes[i]) {
            Some(s) => sum = s,
            None => {
                proof {
                    lemma_payload_grows(sizes@, i as int + 1);
                }
                return None;
            },
        }
        i = i + 1;
    }
    assert(sizes@.take(i as int) =~= sizes@);
    Some(sum)
}

/// The number of files in a hash sequence of `len` hashes: all but the
/// first, which names the collection's metadata.
pub fn file_count(len: u64) -> (r: u64)
    ensures
        r == if len == 0 {
            0
        } else {
            len - 1
        },
{
    len.saturating_sub(1)
}

pub open spec fn digit_char(d: nat) -> char {
    if d == 0 {
        '0'
    } else if d == 1 {
        '1'
    } else if d == 2 {
        '2'
    } else if d == 3 {
        '3'
    } else if d == 4 {
        '4'
    } else if d == 5 {
        '5'
    } else if d == 6 {
        '6'
    } else if d == 7 {
        '7'
    } else if d == 8 {
        '8'
    } else {
        '9'
    }
}

/// The decimal digits of `n`, most significant first, without leading zeros.
pub open spec fn decimal(n: nat) -> Seq<char>
    decreases n,
{
    if n < 10 {
        seq![digit_char(n)]
    } else {
        decimal(n / 10).push(digit_char(n % 10))
    }
}

fn digit_str(d: u64) -> (r: &'static str)
    requires
        d < 10,
    ensures
        r@ == seq![digit_char(d as nat)],
{
    proof {
        reveal_strlit("0");
        reveal_strlit("1");
        reveal_strlit("2");
        reveal_strlit("3");
        reveal_strlit("4");
        reveal_strlit("5");
        reveal_strlit("6");
        reveal_strlit("7");
        reveal_strlit("8");
        reveal_strlit("9");
    }
    let r = if d == 0 {
        "0"
    } else if d == 1 {
        "1"
    } else if d == 2 {
        "2"
    } else if d == 3 {
        "3"
    } else if d == 4 {
        "4"
    } else if d == 5 {
        "5"
    } else if d == 6 {
        "6"
    } else if d == 7 {
        "7"
    } else if d == 8 {
        "8"
    } else {
        "9"
    };
    assert(r@ =~= seq![digit_char(d as nat)]);
    r
}

/// `n` written in decimal.
pub fn decimal_string(n: u64) -> (r: String)
    ensures
        r@ == decimal(n as nat),
    decreases n,
{
    if n < 10 {
        String::from_str(digit_str(n))
    } else {
        let mut s = decimal_string(n / 10);
        s.append(digit_str(n % 10));
        s
    }
}

/// The message that reports a finished receive.
pub open spec fn receive_message_spec(files: u64, bytes: u64) -> Seq<char> {
    "Downloaded "@ + decimal(files as nat) + " files, "@ + decimal(bytes as nat) + " bytes"@
}

/// Reports a finished receive: "Downloaded <files> files, <bytes> bytes".
pub fn receive_message(files: u64, bytes: u64) -> (r: String)
    ensures
        r@ == receive_message_spec(files, bytes),
{
    let mut m = String::from_str("Downloaded ");
    m.append(decimal_string(files).as_str());
    m.append(" files, ");
    m.append(decimal_string(bytes).as_str());
    m.append(" bytes");
    m
}

} // verus!
