//! One download session: admission of fragment fetches under a concurrency
//! bound, and reassembly of the fetched payloads in fragment order.
//!
//! The session is a state machine driven by its caller. `next_action` says
//! what to do next (start a fetch, write a payload, wait, finish or abort),
//! and the caller reports what happened through `fetched`, `fetch_failed`,
//! `written` and `write_failed`. A fragment's write is handed out only once
//! every fragment before it has been reported written, which is the chain of
//! per-index completion signals: signal `i` is raised exactly when
//! `i < next_write()`. Fetches complete in any order; payloads that arrive
//! ahead of their turn are held until then.
//!
//! Cancellation: after a fatal error no further fetch or write is handed out
//! and results still arriving are discarded, so the caller may cancel the
//! fetches in flight at once.

use vstd::prelude::*;

verus! {

/// One fragment to fetch: its position in the stream and its URL.
pub struct FragmentTask {
    pub index: usize,
    pub url: String,
}

/// A fatal error of a session, with the fragment it concerns and the
/// underlying cause as reported by the caller.
#[derive(Debug)]
pub enum SessionError {
    /// Every allowed attempt to fetch fragment `index` failed.
    ExhaustedRetries { index: usize, cause: String },
    /// The output sink rejected the write of fragment `index`.
    Write { index: usize, cause: String },
}

impl SessionError {
    /// A copy of this error.
    pub fn duplicate(&self) -> (r: SessionError)
        ensures
            r == *self,
    {
        match self {
            SessionError::ExhaustedRetries { index, cause } => SessionError::ExhaustedRetries {
                index: *index,
                cause: cause.clone(),
            },
            SessionError::Write { index, cause } => SessionError::Write {
                index: *index,
                cause: cause.clone(),
            },
        }
    }
}

/// What the caller is to do next.
#[derive(Debug)]
pub enum Action {
    /// Start fetching fragment `index` from `url`, with retries.
    Fetch { index: usize, url: String },
    /// Append `payload`, fragment `index`, to the output, then report it.
    Write { index: usize, payload: Vec<u8> },
    /// Nothing to start: wait for a fetch or write in progress to finish.
    Wait,
    /// Every fragment has been written in order: close the output.
    Complete,
    /// The session failed: stop, and do not claim the output as complete.
    Abort(SessionError),
}

/// Where a fragment stands.
#[derive(Clone, Copy, Debug, PartialEq, Eq, Structural)]
pub enum Phase {
    /// Not yet admitted.
    Pending,
    /// Admitted; its fetch is in flight.
    Fetching,
    /// Fetched; its payload waits for the fragments before it.
    Ready,
    /// Its write has been handed out and not yet reported.
    Writing,
    /// Written; its completion signal is raised.
    Written,
    /// Its fetch or its write failed; its completion signal is never raised.
    Failed,
}

enum Slot {
    Pending,
    Fetching,
    Ready(Vec<u8>),
    Writing,
    Written,
    Failed,
}

spec fn phase_of(s: Slot) -> Phase {
    match s {
        Slot::Pending => Phase::Pending,
        Slot::Fetching => Phase::Fetching,
        Slot::Ready(_) => Phase::Ready,
        Slot::Writing => Phase::Writing,
        Slot::Written => Phase::Written,
        Slot::Failed => Phase::Failed,
    }
}

/// The payloads of `s`, concatenated in order.
pub open spec fn concat_all(s: Seq<Seq<u8>>) -> Seq<u8>
    decreases s.len(),
{
    if s.len() == 0 {
        Seq::empty()
    } else {
        concat_all(s.drop_last()) + s.last()
    }
}

/// The number of fragments whose fetch is in flight.
pub open spec fn count_fetching(s: Seq<Phase>) -> nat
    decreases s.len(),
{
    if s.len() == 0 {
        0
    } else {
        count_fetching(s.drop_last()) + if s.last() == Phase::Fetching {
            1nat
        } else {
            0nat
        }
    }
}

proof fn lemma_count_update(s: Seq<Phase>, i: int, p: Phase)
    requires
        0 <= i < s.len(),
    ensures
        count_fetching(s.update(i, p)) + (if s[i] == Phase::Fetching { 1int } else { 0int })
            == count_fetching(s) + (if p == Phase::Fetching { 1int } else { 0int }),
    decreases s.len(),
{
    let t = s.update(i, p);
    if i == s.len() - 1 {
        assert(t.drop_last() =~= s.drop_last());
    } else {
        assert(t.drop_last() =~= s.drop_last().update(i, p));
        lemma_count_update(s.drop_last(), i, p);
    }
}

proof fn lemma_count_none(s: Seq<Phase>)
    requires
        forall|i: int| 0 <= i < s.len() ==> s[i] != Phase::Fetching,
    ensures
        count_fetching(s) == 0,
    decreases s.len(),
{
    if s.len() > 0 {
        lemma_count_none(s.drop_last());
    }
}

proof fn lemma_count_positive(s: Seq<Phase>, i: int)
    requires
        0 <= i < s.len(),
        s[i] == Phase::Fetching,
    ensures
        count_fetching(s) >= 1,
    decreases s.len(),
{
    if i < s.len() - 1 {
        lemma_count_positive(s.drop_last(), i);
    }
}

/// The state of one download. See the module documentation.
pub struct Session {
    tasks: Vec<FragmentTask>,
    slots: Vec<Slot>,
    limit: usize,
    admitted: usize,
    in_flight: usize,
    next_write: usize,
    failure: Option<SessionError>,
    payloads: Ghost<Seq<Seq<u8>>>,
    output: Ghost<Seq<u8>>,
}

impl Session {
    /// Number of fragments.
    pub closed spec fn total(&self) -> nat {
        self.tasks@.len()
    }

    /// Largest number of fetches in flight at once.
    pub closed spec fn limit(&self) -> nat {
        self.limit as nat
    }

    /// Fragments `0..admitted()` have been handed out for fetching.
    pub closed spec fn admitted(&self) -> nat {
        self.admitted as nat
    }

    /// Number of fetches in flight.
    pub closed spec fn in_flight(&self) -> nat {
        self.in_flight as nat
    }

    /// Fragments `0..next_write()` have been written, in order.
    pub closed spec fn next_write(&self) -> nat {
        self.next_write as nat
    }

    /// The URL of each fragment, by index.
    pub closed spec fn urls(&self) -> Seq<Seq<char>> {
        self.tasks@.map_values(|t: FragmentTask| t.url@)
    }

    /// The phase of every fragment, by index.
    pub closed spec fn phases(&self) -> Seq<Phase> {
        self.slots@.map_values(|s: Slot| phase_of(s))
    }

    /// The payload delivered for each fragment that has been fetched.
    pub closed spec fn payloads(&self) -> Seq<Seq<u8>> {
        self.payloads@
    }

    /// Every byte written to the output so far, in the order written.
    pub closed spec fn output(&self) -> Seq<u8> {
        self.output@
    }

    /// The fatal error, once there is one.
    pub closed spec fn failure(&self) -> Option<SessionError> {
        self.failure
    }

    /// The representation invariant tying the fields together.
    pub closed spec fn inv(&self) -> bool {
        &&& self.slots@.len() == self.tasks@.len()
        &&& self.payloads@.len() == self.tasks@.len()
        &&& forall|i: int| 0 <= i < self.tasks@.len() ==> (#[trigger] self.tasks@[i]).index == i
        &&& forall|i: int|
            0 <= i < self.slots@.len() ==> (#[trigger] self.slots@[i] matches Slot::Ready(b)
                ==> b@ == self.payloads@[i])
        &&& self.in_flight == count_fetching(self.phases())
    }

    /// The session's invariant: fetches are admitted in index order and at
    /// most `limit()` at a time; fragments are written in index order; and
    /// the output is exactly the payloads of the fragments written so far,
    /// concatenated in index order.
    pub open spec fn wf(&self) -> bool {
        &&& self.inv()
        &&& self.phases().len() == self.total()
        &&& self.payloads().len() == self.total()
        &&& 0 < self.limit()
        &&& self.in_flight() <= self.limit()
        &&& self.next_write() <= self.admitted() <= self.total()
        &&& forall|i: int|
            0 <= i < self.total() ==> (#[trigger] self.phases()[i] == Phase::Pending <==> i
                >= self.admitted())
        &&& forall|i: int|
            0 <= i < self.total() ==> (#[trigger] self.phases()[i] == Phase::Written <==> i
                < self.next_write())
        &&& forall|i: int|
            0 <= i < self.total() && #[trigger] self.phases()[i] == Phase::Writing ==> i
                == self.next_write()
        &&& forall|i: int|
            0 <= i < self.total() && #[trigger] self.phases()[i] == Phase::Failed
                ==> self.failure() is Some
        &&& self.output() == concat_all(self.payloads().take(self.next_write() as int))
    }

    /// Whether every fragment has been written and no error occurred.
    pub open spec fn is_complete(&self) -> bool {
        self.failure() is None && self.next_write() == self.total()
    }

    /// `self` and `other` agree on the task list, the concurrency bound, the
    /// payloads, the output and the error.
    pub open spec fn same_records(&self, other: &Session) -> bool {
        &&& self.total() == other.total()
        &&& self.limit() == other.limit()
        &&& self.urls() == other.urls()
        &&& self.payloads() == other.payloads()
        &&& self.output() == other.output()
        &&& self.failure() == other.failure()
    }

    /// A session over the fragments `fragments`, whose URLs are `base_uri`
    /// followed by each fragment's path, with at most `limit` fetches in
    /// flight at once. Nothing has been fetched or written yet.
    pub fn new(base_uri: &str, fragments: &Vec<String>, limit: usize) -> (s: Session)
        requires
            0 < limit,
        ensures
            s.wf(),
            s.total() == fragments@.len(),
            s.limit() == limit,
            s.admitted() == 0,
            s.in_flight() == 0,
            s.next_write() == 0,
            s.failure() is None,
            s.output() == Seq::<u8>::empty(),
            forall|i: int| 0 <= i < fragments@.len() ==> #[trigger] s.urls()[i] == base_uri@ + fragments@[i]@,
            forall|i: int| 0 <= i < fragments@.len() ==> #[trigger] s.phases()[i] == Phase::Pending,
    {
        let mut tasks: Vec<FragmentTask> = Vec::new();
        let mut slots: Vec<Slot> = Vec::new();
        let n: usize = fragments.len();
        let mut i: usize = 0;
        while i < n
            invariant
                i <= n,
                n == fragments@.len(),
                tasks@.len() == i,
                slots@.len() == i,
                forall|j: int| 0 <= j < i ==> (#[trigger] tasks@[j]).index == j,
                forall|j: int| 0 <= j < i ==> (#[trigger] tasks@[j]).url@ == base_uri@ + fragments@[j]@,
                forall|j: int| 0 <= j < i ==> #[trigger] slots@[j] is Pending,
            decreases n - i,
        {
            let mut url = String::from_str(base_uri);
            url.append(fragments[i].as_str());
            tasks.push(FragmentTask { index: i, url });
            slots.push(Slot::Pending);
            i = i + 1;
        }
        let s = Session {
            tasks,
            slots,
            limit,
            admitted: 0,
            in_flight: 0,
            next_write: 0,
            failure: None,
            payloads: Ghost(Seq::new(n as nat, |j: int| Seq::<u8>::empty())),
            output: Ghost(Seq::empty()),
        };
        proof {
            lemma_count_none(s.phases());
            assert(s.payloads().take(0) =~= Seq::<Seq<u8>>::empty());
        }
        s
    }

    /// Decides the next action and records it as under way.
    ///
    /// After an error: abort. Once every fragment is written: complete. If
    /// the next fragment in order has been fetched: hand out its write. Else,
    /// if a fragment remains unadmitted and fewer than `limit()` fetches are
    /// in flight: hand out the fetch of the lowest such fragment. Else wait,
    /// which happens only while a fetch or a write is in progress.
    pub fn next_action(&mut self) -> (r: Action)
        requires
            old(self).wf(),
        ensures
            final(self).wf(),
            final(self).same_records(old(self)),
            old(self).failure() matches Some(e) ==> r == Action::Abort(e) && *final(self) == *old(self),
            old(self).failure() is None && old(self).next_write() == old(self).total() ==> {
                &&& r is Complete
                &&& *final(self) == *old(self)
            },
            old(self).failure() is None && old(self).next_write() < old(self).total()
                && old(self).phases()[old(self).next_write() as int] == Phase::Ready ==> {
                &&& r matches Action::Write { index, payload }
                &&& index == old(self).next_write()
                &&& payload@ == old(self).payloads()[index as int]
                &&& final(self).phases() == old(self).phases().update(index as int, Phase::Writing)
                &&& final(self).admitted() == old(self).admitted()
                &&& final(self).in_flight() == old(self).in_flight()
                &&& final(self).next_write() == old(self).next_write()
            },
            old(self).failure() is None && old(self).next_write() < old(self).total()
                && old(self).phases()[old(self).next_write() as int] != Phase::Ready
                && old(self).admitted() < old(self).total()
                && old(self).in_flight() < old(self).limit() ==> {
                &&& r matches Action::Fetch { index, url }
                &&& index == old(self).admitted()
                &&& url@ == old(self).urls()[index as int]
                &&& final(self).phases() == old(self).phases().update(index as int, Phase::Fetching)
                &&& final(self).admitted() == old(self).admitted() + 1
                &&& final(self).in_flight() == old(self).in_flight() + 1
                &&& final(self).next_write() == old(self).next_write()
            },
            old(self).failure() is None && old(self).next_write() < old(self).total()
                && old(self).phases()[old(self).next_write() as int] != Phase::Ready && !(
            old(self).admitted() < old(self).total() && old(self).in_flight()
                < old(self).limit()) ==> r is Wait,
            r is Wait ==> {
                &&& *final(self) == *old(self)
                &&& old(self).failure() is None
                &&& old(self).next_write() < old(self).total()
                &&& old(self).in_flight() > 0
                    || old(self).phases()[old(self).next_write() as int] == Phase::Writing
            },
    {
        match &self.failure {
            Some(e) => {
                return Action::Abort(e.duplicate());
            },
            None => {},
        }
        let nw = self.next_write;
        if nw == self.tasks.len() {
            return Action::Complete;
        }
        let ready = match &self.slots[nw] {
            Slot::Ready(_) => true,
            _ => false,
        };
        if ready {
            let ghost old_phases = self.phases();
            let mut taken = Slot::Writing;
            self.slots.set_and_swap(nw, &mut taken);
            proof {
                assert(self.phases() =~= old_phases.update(nw as int, Phase::Writing));
                lemma_count_update(old_phases, nw as int, Phase::Writing);
            }
            match taken {
                Slot::Ready(payload) => {
                    return Action::Write { index: nw, payload };
                },
                _ => {
                    proof {
                        assert(false);
                    }
                    return Action::Wait;
                },
            }
        }
        if self.admitted < self.tasks.len() && self.in_flight < self.limit {
            let i = self.admitted;
            let ghost old_phases = self.phases();
            self.slots.set(i, Slot::Fetching);
            proof {
                assert(self.phases() =~= old_phases.update(i as int, Phase::Fetching));
                lemma_count_update(old_phases, i as int, Phase::Fetching);
            }
            self.admitted = i + 1;
            self.in_flight = self.in_flight + 1;
            let url = self.tasks[i].url.clone();
            return Action::Fetch { index: i, url };
        }
        proof {
            if self.phases()[nw as int] == Phase::Fetching {
                lemma_count_positive(self.phases(), nw as int);
            }
        }
        Action::Wait
    }

    /// Whether a report on fragment `index` fits the session's state: no
    /// error has occurred and the fragment is in phase `p`.
    pub open spec fn expects(&self, index: int, p: Phase) -> bool {
        &&& self.failure() is None
        &&& 0 <= index < self.total()
        &&& self.phases()[index] == p
    }

    /// Reports that the fetch of fragment `index` delivered `payload`.
    ///
    /// Accepted only while the fragment's fetch is in flight and no error
    /// has occurred. Anything else (an unknown index, a second result for
    /// the same fragment, a result after an error) is discarded and changes
    /// nothing, so a fragment contributes at most one payload.
    pub fn fetched(&mut self, index: usize, payload: Vec<u8>) -> (accepted: bool)
        requires
            old(self).wf(),
        ensures
            final(self).wf(),
            accepted == old(self).expects(index as int, Phase::Fetching),
            accepted ==> {
                &&& final(self).phases() == old(self).phases().update(index as int, Phase::Ready)
                &&& final(self).payloads() == old(self).payloads().update(index as int, payload@)
                &&& final(self).in_flight() == old(self).in_flight() - 1
                &&& final(self).admitted() == old(self).admitted()
                &&& final(self).next_write() == old(self).next_write()
                &&& final(self).total() == old(self).total()
                &&& final(self).limit() == old(self).limit()
                &&& final(self).urls() == old(self).urls()
                &&& final(self).output() == old(self).output()
                &&& final(self).failure() == old(self).failure()
            },
            !accepted ==> *final(self) == *old(self),
    {
        if !self.accepts(index, Phase::Fetching) {
            return false;
        }
        let ghost old_phases = self.phases();
        let ghost old_payloads = self.payloads@;
        self.slots.set(index, Slot::Ready(payload));
        self.payloads = Ghost(self.payloads@.update(index as int, payload@));
        proof {
            assert(self.phases() =~= old_phases.update(index as int, Phase::Ready));
            lemma_count_update(old_phases, index as int, Phase::Ready);
            lemma_count_positive(old_phases, index as int);
            assert(self.payloads@.take(self.next_write as int) =~= old_payloads.take(
                self.next_write as int,
            ));
        }
        self.in_flight = self.in_flight - 1;
        true
    }

    /// Reports that every allowed attempt to fetch fragment `index` failed,
    /// last with `cause`. Accepted under the same conditions as `fetched`;
    /// the session then fails with `ExhaustedRetries`.
    pub fn fetch_failed(&mut self, index: usize, cause: String) -> (accepted: bool)
        requires
            old(self).wf(),
        ensures
            final(self).wf(),
            accepted == old(self).expects(index as int, Phase::Fetching),
            accepted ==> {
                &&& final(self).failure() == Some(SessionError::ExhaustedRetries { index, cause })
                &&& final(self).phases() == old(self).phases().update(index as int, Phase::Failed)
                &&& final(self).in_flight() == old(self).in_flight() - 1
                &&& final(self).admitted() == old(self).admitted()
                &&& final(self).next_write() == old(self).next_write()
                &&& final(self).total() == old(self).total()
                &&& final(self).limit() == old(self).limit()
                &&& final(self).urls() == old(self).urls()
                &&& final(self).payloads() == old(self).payloads()
                &&& final(self).output() == old(self).output()
            },
            !accepted ==> *final(self) == *old(self),
    {
        if !self.accepts(index, Phase::Fetching) {
            return false;
        }
        let ghost old_phases = self.phases();
        self.slots.set(index, Slot::Failed);
        proof {
            assert(self.phases() =~= old_phases.update(index as int, Phase::Failed));
            lemma_count_update(old_phases, index as int, Phase::Failed);
            lemma_count_positive(old_phases, index as int);
        }
        self.in_flight = self.in_flight - 1;
        self.failure = Some(SessionError::ExhaustedRetries { index, cause });
        true
    }

    /// Reports that the write of fragment `index` completed. Accepted only
    /// while that write is outstanding and no error has occurred; the
    /// fragment's completion signal is then raised, releasing the next one.
    pub fn written(&mut self, index: usize) -> (accepted: bool)
        requires
            old(self).wf(),
        ensures
            final(self).wf(),
            accepted == old(self).expects(index as int, Phase::Writing),
            accepted ==> {
                &&& index == old(self).next_write()
                &&& final(self).next_write() == old(self).next_write() + 1
                &&& final(self).output() == old(self).output() + old(self).payloads()[index as int]
                &&& final(self).phases() == old(self).phases().update(index as int, Phase::Written)
                &&& final(self).in_flight() == old(self).in_flight()
                &&& final(self).admitted() == old(self).admitted()
                &&& final(self).total() == old(self).total()
                &&& final(self).limit() == old(self).limit()
                &&& final(self).urls() == old(self).urls()
                &&& final(self).payloads() == old(self).payloads()
                &&& final(self).failure() == old(self).failure()
            },
            !accepted ==> *final(self) == *old(self),
    {
        if !self.accepts(index, Phase::Writing) {
            return false;
        }
        let ghost old_phases = self.phases();
        let ghost p = self.payloads@;
        self.slots.set(index, Slot::Written);
        proof {
            assert(self.phases() =~= old_phases.update(index as int, Phase::Written));
            lemma_count_update(old_phases, index as int, Phase::Written);
            assert(p.take(index + 1).drop_last() =~= p.take(index as int));
        }
        self.output = Ghost(self.output@ + p[index as int]);
        self.next_write = index + 1;
        true
    }

    /// Reports that the output rejected the write of fragment `index` with
    /// `cause`. Accepted under the same conditions as `written`; the
    /// fragment's completion signal is not raised and the session fails with
    /// `Write`.
    pub fn write_failed(&mut self, index: usize, cause: String) -> (accepted: bool)
        requires
            old(self).wf(),
        ensures
            final(self).wf(),
            accepted == old(self).expects(index as int, Phase::Writing),
            accepted ==> {
                &&& final(self).failure() == Some(SessionError::Write { index, cause })
                &&& final(self).phases() == old(self).phases().update(index as int, Phase::Failed)
                &&& final(self).next_write() == old(self).next_write()
                &&& final(self).in_flight() == old(self).in_flight()
                &&& final(self).admitted() == old(self).admitted()
                &&& final(self).total() == old(self).total()
                &&& final(self).limit() == old(self).limit()
                &&& final(self).urls() == old(self).urls()
                &&& final(self).payloads() == old(self).payloads()
                &&& final(self).output() == old(self).output()
            },
            !accepted ==> *final(self) == *old(self),
    {
        if !self.accepts(index, Phase::Writing) {
            return false;
        }
        let ghost old_phases = self.phases();
        self.slots.set(index, Slot::Failed);
        proof {
            assert(self.phases() =~= old_phases.update(index as int, Phase::Failed));
            lemma_count_update(old_phases, index as int, Phase::Failed);
        }
        self.failure = Some(SessionError::Write { index, cause });
        true
    }

    /// Number of fragments not yet written, for progress reports.
    pub fn remaining(&self) -> (r: usize)
        requires
            self.wf(),
        ensures
            r == self.total() - self.next_write(),
    {
        self.tasks.len() - self.next_write
    }

    fn accepts(&self, index: usize, p: Phase) -> (b: bool)
        requires
            self.wf(),
        ensures
            b == self.expects(index as int, p),
    {
        if self.failure.is_some() || index >= self.slots.len() {
            return false;
        }
        let q = match &self.slots[index] {
            Slot::Pending => Phase::Pending,
            Slot::Fetching => Phase::Fetching,
            Slot::Ready(_) => Phase::Ready,
            Slot::Writing => Phase::Writing,
            Slot::Written => Phase::Written,
            Slot::Failed => Phase::Failed,
        };
        q == p
    }
}

/// Whatever order the fetches complete in, at every point of a session the
/// output is the payloads of the fragments written so far, concatenated in
/// index order; once the session completes, the output is every fragment's
/// payload concatenated in index order.
pub proof fn lemma_order_invariance(s: &Session)
    requires
        s.wf(),
    ensures
        s.output() == concat_all(s.payloads().take(s.next_write() as int)),
        s.is_complete() ==> s.output() == concat_all(s.payloads()),
{
    if s.is_complete() {
        assert(s.payloads().take(s.next_write() as int) =~= s.payloads());
    }
}

/// A fragment whose payload has been delivered, however many attempts its
/// fetch took, takes no second delivery: `fetched` discards it, so the
/// fragment adds exactly one copy of its payload to the output.
pub proof fn lemma_single_delivery(s: &Session, i: int)
    requires
        s.wf(),
        0 <= i < s.total(),
        s.phases()[i] == Phase::Ready || s.phases()[i] == Phase::Writing || s.phases()[i]
            == Phase::Written,
    ensures
        !s.expects(i, Phase::Fetching),
{
}

/// A session over no fragments admits no fetch, is complete from the start,
/// and its output is empty.
pub proof fn lemma_empty_session(s: &Session)
    requires
        s.wf(),
        s.total() == 0,
        s.failure() is None,
    ensures
        s.is_complete(),
        s.admitted() == 0,
        s.in_flight() == 0,
        s.output() == Seq::<u8>::empty(),
{
    reveal_with_fuel(concat_all, 1);
    assert(s.payloads().take(0) =~= Seq::<Seq<u8>>::empty());
}

/// A fragment whose fetch or write failed is never written, nor is any
/// fragment after it: the output is the payloads of the fragments before it
/// that were written, in order, and no more.
pub proof fn lemma_failure_blocks_later_writes(s: &Session, j: int)
    requires
        s.wf(),
        0 <= j < s.total(),
        s.phases()[j] == Phase::Failed,
    ensures
        s.failure() is Some,
        s.next_write() <= j,
        s.output() == concat_all(s.payloads().take(s.next_write() as int)),
        forall|i: int| j <= i < s.total() ==> s.phases()[i] != Phase::Written,
{
}

/// Fragment 0 waits on no predecessor: as soon as it has been fetched, it is
/// the next fragment in order, so `next_action` hands out its write.
pub proof fn lemma_first_fragment_unblocked(s: &Session)
    requires
        s.wf(),
        s.total() >= 1,
        s.phases()[0] == Phase::Ready,
    ensures
        s.next_write() == 0,
{
}

} // verus!
