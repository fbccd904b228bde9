//! The asynchronous request/response worker's core, and the NTRIP
//! client's verifiable pieces.
//!
//! The requester decouples a slow request/response operation (such as
//! fetching differential-correction bytes) from the control loop.  The
//! verified core owns the queues and decides every state change; the
//! thread that performs the slow work lives outside it and drives the
//! core through [`Requester::take_request`] and
//! [`Requester::deliver_response`].  Submitting never blocks, and
//! draining returns every completed response in completion order.

use base64::Engine;
use vstd::prelude::*;

verus! {

/// Why a submission was refused.
#[derive(Debug, PartialEq, Eq, Structural)]
pub enum RequesterError {
    /// The worker has already been told to stop.
    Stopped,
}

/// The state of an asynchronous request/response worker: requests not yet
/// taken up, responses not yet drained, and the stop signal.
pub struct Requester<Req, Resp> {
    pub pending: Vec<Req>,
    pub responses: Vec<Resp>,
    pub stopped: bool,
}

impl<Req, Resp> Requester<Req, Resp> {
    /// A fresh worker state: nothing queued, not stopped.
    pub fn new() -> (r: Requester<Req, Resp>)
        ensures
            r.pending@.len() == 0,
            r.responses@.len() == 0,
            !r.stopped,
    {
        Requester { pending: Vec::new(), responses: Vec::new(), stopped: false }
    }

    /// Enqueues a request without blocking; fails exactly when the worker
    /// has already been told to stop, and then changes nothing.
    pub fn submit(&mut self, request: Req) -> (r: Result<(), RequesterError>)
        ensures
            match r {
                Ok(()) => {
                    &&& !old(self).stopped
                    &&& final(self).pending@ == old(self).pending@.push(request)
                    &&& final(self).responses@ == old(self).responses@
                    &&& final(self).stopped == old(self).stopped
                },
                Err(e) => {
                    &&& e == RequesterError::Stopped
                    &&& old(self).stopped
                    &&& final(self).pending@ == old(self).pending@
                    &&& final(self).responses@ == old(self).responses@
                    &&& final(self).stopped == old(self).stopped
                },
            },
    {
        if self.stopped {
            return Err(RequesterError::Stopped);
        }
        self.pending.push(request);
        Ok(())
    }

    /// The worker side polls for one request; `Some` exactly when one is
    /// pending, and then the oldest pending request is handed out.
    pub fn take_request(&mut self) -> (r: Option<Req>)
        ensures
            final(self).responses@ == old(self).responses@,
            final(self).stopped == old(self).stopped,
            match r {
                Some(req) => {
                    &&& old(self).pending@.len() > 0
                    &&& req == old(self).pending@[0]
                    &&& final(self).pending@ == old(self).pending@.drop_first()
                },
                None => {
                    &&& old(self).pending@.len() == 0
                    &&& final(self).pending@ == old(self).pending@
                },
            },
    {
        if self.pending.len() == 0 {
            return None;
        }
        let req = self.pending.remove(0);
        proof {
            assert(final(self).pending@ =~= old(self).pending@.drop_first());
        }
        Some(req)
    }

    /// The worker side hands back the response to a taken request; it is
    /// appended behind every response already waiting.
    pub fn deliver_response(&mut self, response: Resp)
        ensures
            final(self).pending@ == old(self).pending@,
            final(self).stopped == old(self).stopped,
            final(self).responses@ == old(self).responses@.push(response),
    {
        self.responses.push(response);
    }

    /// Returns every response completed since the last drain, in
    /// completion order, without blocking; the queue is left empty.
    pub fn drain_responses(&mut self) -> (r: Vec<Resp>)
        ensures
            r@ == old(self).responses@,
            final(self).responses@.len() == 0,
            final(self).pending@ == old(self).pending@,
            final(self).stopped == old(self).stopped,
    {
        let mut out: Vec<Resp> = Vec::new();
        core::mem::swap(&mut out, &mut self.responses);
        out
    }

    /// Signals the worker to stop; later submissions are refused.
    pub fn stop(&mut self)
        ensures
            final(self).pending@ == old(self).pending@,
            final(self).responses@ == old(self).responses@,
            final(self).stopped,
    {
        self.stopped = true;
    }
}

/// The worker loop's effect on the queues, one request at a time: each
/// pending request is taken in order, mapped through the work function,
/// and its response appended.
pub open spec fn worker_runs<Req, Resp>(
    pending: Seq<Req>,
    responses: Seq<Resp>,
    work: spec_fn(Req) -> Resp,
) -> (Seq<Req>, Seq<Resp>)
    decreases pending.len(),
{
    if pending.len() == 0 {
        (pending, responses)
    } else {
        worker_runs(pending.drop_first(), responses.push(work(pending.first())), work)
    }
}

/// Running the worker to completion leaves no request behind and appends
/// exactly one response per request, in submission order.
pub proof fn lemma_worker_runs_exact<Req, Resp>(
    pending: Seq<Req>,
    responses: Seq<Resp>,
    work: spec_fn(Req) -> Resp,
)
    ensures
        worker_runs(pending, responses, work).0.len() == 0,
        worker_runs(pending, responses, work).1 =~= responses + pending.map_values(work),
    decreases pending.len(),
{
    if pending.len() == 0 {
        assert(worker_runs(pending, responses, work).1 =~= responses + pending.map_values(work));
    } else {
        lemma_worker_runs_exact(pending.drop_first(), responses.push(work(pending.first())), work);
        assert(responses.push(work(pending.first())) + pending.drop_first().map_values(work)
            =~= responses + pending.map_values(work));
    }
}

/// Completeness: submit `N` requests to an idle worker, let it take up
/// and answer each of them, and a single drain yields exactly `N`
/// responses — one per request, in submission order; none is silently
/// dropped.
pub proof fn lemma_requester_completeness<Req, Resp>(
    requests: Seq<Req>,
    work: spec_fn(Req) -> Resp,
)
    ensures
        worker_runs(requests, Seq::<Resp>::empty(), work).1.len() == requests.len(),
        worker_runs(requests, Seq::<Resp>::empty(), work).1 =~= requests.map_values(work),
{
    lemma_worker_runs_exact(requests, Seq::<Resp>::empty(), work);
    assert(Seq::<Resp>::empty() + requests.map_values(work) =~= requests.map_values(work));
}

// ---------------------------------------------------------------------------
// NTRIP client pieces.
// ---------------------------------------------------------------------------

/// Connection settings for an NTRIP caster.
#[derive(Clone, Debug)]
pub struct NtripClientSettings {
    pub addr: String,
    pub port: u16,
    pub mountpoint: String,
    pub username: String,
    pub password: String,
    pub initial_gga_sentence: String,
}

impl NtripClientSettings {
    pub fn new(
        addr: String,
        port: u16,
        mountpoint: String,
        username: String,
        password: String,
        initial_gga_sentence: String,
    ) -> (s: NtripClientSettings)
        ensures
            s.addr == addr,
            s.port == port,
            s.mountpoint == mountpoint,
            s.username == username,
            s.password == password,
            s.initial_gga_sentence == initial_gga_sentence,
    {
        NtripClientSettings { addr, port, mountpoint, username, password, initial_gga_sentence }
    }
}

/// The base64 encoding, with the standard alphabet and padding, of a
/// string's bytes; it depends on those bytes alone.
pub uninterp spec fn b64_of(s: Seq<char>) -> Seq<char>;

/// Relies on base64's `STANDARD` engine via `Engine::encode`: the
/// encoding of a short string depends on its bytes alone, and the buffer
/// size calculation cannot overflow for inputs this small.
#[verifier::external_body]
fn b64_encode(s: &str) -> (r: String)
    requires
        s@.len() < 0x100000,
    ensures
        r@ == b64_of(s@),
{
    base64::engine::general_purpose::STANDARD.encode(s.as_bytes())
}

/// Relies on String::push: appends exactly one character.
#[verifier::external_body]
fn push_char(s: &mut String, c: char)
    ensures
        final(s)@ == old(s)@.push(c),
{
    s.push(c);
}

/// A character the NTRIP GGA header keeps: anything but a line break.
pub open spec fn not_line_break(c: char) -> bool {
    c != '\r' && c != '\n'
}

/// Builds HTTP header values for an NTRIP caster request; the transport
/// itself lives outside the verified core.
pub struct NtripClient;

impl NtripClient {
    /// The `Authorization` header: the literal scheme name, a space, and
    /// the base64 encoding of `username:password`.
    pub fn authorization_value(username: &str, password: &str) -> (r: String)
        requires
            username@.len() + password@.len() < 0x10000,
        ensures
            r@ == "Basic "@ + b64_of(username@ + ":"@ + password@),
    {
        proof {
            reveal_strlit(":");
            reveal_strlit("Basic ");
        }
        let mut credentials = String::from_str(username);
        credentials.append(":");
        credentials.append(password);
        let encoded = b64_encode(credentials.as_str());
        let mut out = String::from_str("Basic ");
        out.append(encoded.as_str());
        out
    }

    /// The `Ntrip-GGA` header: the initial GGA sentence with its line
    /// breaks removed.
    pub fn gga_header_value(sentence: &str) -> (r: String)
        ensures
            r@ == sentence@.filter(|c: char| not_line_break(c)),
    {
        let n = sentence.unicode_len();
        let mut out = String::new();
        let mut i: usize = 0;
        proof {
            reveal(Seq::filter);
            assert(sentence@.take(0) =~= Seq::<char>::empty());
            assert(Seq::<char>::empty().filter(|c: char| not_line_break(c)) =~= Seq::<
                char,
            >::empty());
        }
        while i < n
            invariant
                n == sentence@.len(),
                i <= n,
                out@ == sentence@.take(i as int).filter(|c: char| not_line_break(c)),
            decreases n - i,
        {
            let c = sentence.get_char(i);
            proof {
                reveal(Seq::filter);
                assert(sentence@.take(i + 1).drop_last() =~= sentence@.take(i as int));
                assert(sentence@.take(i + 1).last() == sentence@[i as int]);
            }
            if c != '\r' && c != '\n' {
                push_char(&mut out, c);
            }
            i += 1;
        }
        proof {
            assert(sentence@.take(n as int) =~= sentence@);
        }
        out
    }
}

} // verus!
