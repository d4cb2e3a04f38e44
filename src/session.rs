//! Request/reply correlation for one connection. A session hands out
//! request ids and decides, chunk by chunk, what each line read back means
//! for the request in flight. Whoever owns the socket performs the writes
//! and reads.
use vstd::prelude::*;
use crate::codec::{decode_line, decoded_line, encode, envelope_text, Command, Inbound, Reply};

verus! {

/// Why a request failed. None of these is retried within a session.
#[derive(Clone, Copy, PartialEq, Eq, Structural, Debug)]
pub enum SessionError {
    /// The connection could not be established.
    ConnectError,
    /// A write or a read failed; the session is dead.
    TransportFailure,
    /// The peer closed the connection before the matching reply.
    ConnectionClosed,
    /// A line was not JSON at all; the stream cannot be trusted further.
    ProtocolCorruption,
}

/// What a session does after reading one chunk.
pub enum Step {
    /// Skip the line and read the next one.
    Continue,
    /// The matching reply arrived.
    Done(Reply),
    /// The request failed.
    Fail(SessionError),
}

pub enum StepView {
    Continue,
    Done((u64, Seq<Seq<char>>)),
    Fail(SessionError),
}

impl View for Step {
    type V = StepView;

    open spec fn view(&self) -> StepView {
        match self {
            Step::Continue => StepView::Continue,
            Step::Done(r) => StepView::Done(r@),
            Step::Fail(e) => StepView::Fail(*e),
        }
    }
}

/// The decision for one chunk read while waiting for the reply to `id`: an
/// empty chunk means the peer closed the connection; a line that is not
/// JSON is fatal; another message, or a reply to another id, is skipped.
pub open spec fn step_of(id: u64, chunk: Seq<u8>) -> StepView {
    if chunk.len() == 0 {
        StepView::Fail(SessionError::ConnectionClosed)
    } else {
        match decoded_line(chunk) {
            Err(_) => StepView::Fail(SessionError::ProtocolCorruption),
            Ok(None) => StepView::Continue,
            Ok(Some(rep)) => if rep.0 == id {
                StepView::Done(rep)
            } else {
                StepView::Continue
            },
        }
    }
}

/// How waiting for the reply to `id` ends when the connection yields
/// `chunks` from index `i` on, and how many chunks it has consumed by then.
/// Running out of chunks is a closed connection.
pub open spec fn outcome_from(id: u64, chunks: Seq<Seq<u8>>, i: int) -> (
    Result<(u64, Seq<Seq<char>>), SessionError>,
    int,
)
    decreases chunks.len() - i,
{
    if i < 0 || i >= chunks.len() {
        (Err(SessionError::ConnectionClosed), chunks.len() as int)
    } else {
        match step_of(id, chunks[i]) {
            StepView::Continue => outcome_from(id, chunks, i + 1),
            StepView::Done(rep) => (Ok(rep), i + 1),
            StepView::Fail(e) => (Err(e), i + 1),
        }
    }
}

pub open spec fn chunks_view(cs: Seq<Vec<u8>>) -> Seq<Seq<u8>> {
    cs.map_values(|c: Vec<u8>| c@)
}

/// The view of a request's outcome.
pub open spec fn result_view(r: Result<Reply, SessionError>) -> Result<
    (u64, Seq<Seq<char>>),
    SessionError,
> {
    match r {
        Ok(rep) => Ok(rep@),
        Err(e) => Err(e),
    }
}

/// A request that was written and awaits its reply.
pub struct Pending {
    pub id: u64,
    /// The line to write for it.
    pub request: String,
}

impl Pending {
    /// Decides what the chunk just read means for this request.
    pub fn on_read(&self, chunk: &[u8]) -> (r: Step)
        ensures
            r@ == step_of(self.id, chunk@),
    {
        if chunk.len() == 0 {
            return Step::Fail(SessionError::ConnectionClosed);
        }
        match decode_line(chunk) {
            Err(_) => Step::Fail(SessionError::ProtocolCorruption),
            Ok(Inbound::Opaque) => Step::Continue,
            Ok(Inbound::Reply(rep)) => {
                if rep.id == self.id {
                    Step::Done(rep)
                } else {
                    Step::Continue
                }
            },
        }
    }
}

/// One session's request-id counter.
pub struct Session {
    next_id: u64,
}

impl View for Session {
    type V = u64;

    /// The id that the next request gets.
    closed spec fn view(&self) -> u64 {
        self.next_id
    }
}

/// A call that starts a request on session state `before` leaves it at
/// `after` and assigns `id`: the next id in turn.
pub open spec fn assigns(before: u64, after: u64, id: u64) -> bool {
    id == before && after == before + 1
}

impl Session {
    pub fn new() -> (r: Session)
        ensures
            r@ == 0,
    {
        Session { next_id: 0 }
    }

    /// The id that the next request gets.
    pub fn next_id(&self) -> (r: u64)
        ensures
            r == self@,
    {
        self.next_id
    }

    /// Assigns the next id to `cmd` and encodes the line to write. The id is
    /// used up whatever becomes of the request.
    pub fn begin(&mut self, cmd: &Command) -> (r: Pending)
        requires
            old(self)@ < u64::MAX,
        ensures
            assigns(old(self)@, final(self)@, r.id),
            r.request@ == envelope_text(r.id, cmd@),
    {
        let id = self.next_id;
        self.next_id = id + 1;
        Pending { id, request: encode(id, cmd) }
    }

    /// Sends `cmd` over a connection that yields `incoming`, chunk by chunk,
    /// and waits for the matching reply. Returns the outcome and the number
    /// of chunks consumed.
    pub fn send(&mut self, cmd: &Command, incoming: &Vec<Vec<u8>>) -> (r: (
        Result<Reply, SessionError>,
        usize,
    ))
        requires
            old(self)@ < u64::MAX,
        ensures
            assigns(old(self)@, final(self)@, old(self)@),
            (result_view(r.0), r.1 as int) == outcome_from(
                old(self)@,
                chunks_view(incoming@),
                0,
            ),
    {
        let pending = self.begin(cmd);
        let ghost cs = chunks_view(incoming@);
        let n = incoming.len();
        let mut i: usize = 0;
        while i < n
            invariant
                n == incoming@.len(),
                cs == chunks_view(incoming@),
                0 <= i <= n,
                pending.id == old(self)@,
                assigns(old(self)@, self@, old(self)@),
                outcome_from(pending.id, cs, 0) == outcome_from(pending.id, cs, i as int),
            decreases n - i,
        {
            let step = pending.on_read(incoming[i].as_slice());
            assert(cs[i as int] == incoming@[i as int]@);
            match step {
                Step::Continue => {},
                Step::Done(rep) => {
                    return (Ok(rep), i + 1);
                },
                Step::Fail(e) => {
                    return (Err(e), i + 1);
                },
            }
            i = i + 1;
        }
        (Err(SessionError::ConnectionClosed), n)
    }
}

/// Ids that successive requests on one session are assigned increase
/// strictly, whether or not those requests succeed.
pub proof fn request_ids_increase(states: Seq<u64>, ids: Seq<u64>)
    requires
        states.len() == ids.len() + 1,
        forall|k: int| 0 <= k < ids.len() ==> assigns(states[k], states[k + 1], #[trigger] ids[k]),
    ensures
        forall|i: int, j: int| 0 <= i < j < ids.len() ==> ids[i] < ids[j],
{
    assert forall|i: int, j: int| 0 <= i < j < ids.len() implies ids[i] < ids[j] by {
        lemma_ids_offset(states, ids, i, j);
    }
}

proof fn lemma_ids_offset(states: Seq<u64>, ids: Seq<u64>, i: int, j: int)
    requires
        states.len() == ids.len() + 1,
        forall|k: int| 0 <= k < ids.len() ==> assigns(states[k], states[k + 1], #[trigger] ids[k]),
        0 <= i <= j < ids.len(),
    ensures
        ids[j] == ids[i] + (j - i),
    decreases j - i,
{
    if i < j {
        lemma_ids_offset(states, ids, i, j - 1);
        assert(assigns(states[j - 1], states[j], ids[j - 1]));
        assert(assigns(states[j], states[j + 1], ids[j]));
    }
}

} // verus!
