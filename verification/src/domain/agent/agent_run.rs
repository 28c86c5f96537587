//! The run state machine of a session (idle / running / waiting for
//! approval), its pending approvals and the decisions delivered to them.
//! The cancellation token and the waiting itself belong to the caller; this
//! machine decides.
use vstd::prelude::*;

use crate::domain::agent::permission::ApprovalDecision;
use crate::domain::DomainError;
use crate::text::{owned, str_eq};

verus! {

/// State of a run.
#[derive(Debug, Clone, Copy, PartialEq, Eq, Structural)]
pub enum RunState {
    /// Idle.
    Idle,
    /// Running.
    Running,
    /// Waiting for an approval.
    WaitingApproval,
}

/// A pending approval: the call and the tool context an "always allow"
/// decision derives its rule from.
#[derive(Debug)]
pub struct PendingApproval {
    /// Call id.
    pub call_id: String,
    /// Tool name.
    pub tool: String,
    /// Tool target.
    pub arg: String,
}

/// A pending approval as (call id, tool, target).
pub type Entry = (Seq<char>, Seq<char>, Seq<char>);

/// The views of pending approvals.
pub open spec fn entries(v: Seq<PendingApproval>) -> Seq<Entry> {
    v.map_values(|p: PendingApproval| (p.call_id@, p.tool@, p.arg@))
}

/// The entries without those of call `id`.
pub open spec fn without(s: Seq<Entry>, id: Seq<char>) -> Seq<Entry>
    decreases s.len(),
{
    if s.len() == 0 {
        s
    } else if s[0].0 == id {
        without(s.drop_first(), id)
    } else {
        seq![s[0]] + without(s.drop_first(), id)
    }
}

/// Tool and target of the first pending approval of call `id`.
pub open spec fn lookup(s: Seq<Entry>, id: Seq<char>) -> Option<(Seq<char>, Seq<char>)>
    decreases s.len(),
{
    if s.len() == 0 {
        None
    } else if s[0].0 == id {
        Some((s[0].1, s[0].2))
    } else {
        lookup(s.drop_first(), id)
    }
}

/// A delivered decision: (call id, decision).
pub type Delivery = (Seq<char>, ApprovalDecision);

/// The views of delivered decisions.
pub open spec fn deliveries(v: Seq<(String, ApprovalDecision)>) -> Seq<Delivery> {
    v.map_values(|d: (String, ApprovalDecision)| (d.0@, d.1))
}

/// An abort delivered to every entry, in order.
pub open spec fn aborts(s: Seq<Entry>) -> Seq<Delivery> {
    s.map_values(|e: Entry| (e.0, ApprovalDecision::Abort))
}

/// The index of the first delivery to call `id`, if any.
pub open spec fn first_delivery(s: Seq<Delivery>, id: Seq<char>) -> Option<int> {
    if exists|i: int| 0 <= i < s.len() && (#[trigger] s[i]).0 == id {
        Some(choose|i: int| 0 <= i < s.len() && (#[trigger] s[i]).0 == id && forall|j: int| 0 <= j < i ==> (#[trigger] s[j]).0 != id)
    } else {
        None
    }
}

/// After the entries of `id` are removed, none is found.
pub proof fn lemma_lookup_without(s: Seq<Entry>, id: Seq<char>)
    ensures
        lookup(without(s, id), id) is None,
    decreases s.len(),
{
    if s.len() > 0 {
        lemma_lookup_without(s.drop_first(), id);
        if s[0].0 != id {
            let w = seq![s[0]] + without(s.drop_first(), id);
            assert(w.drop_first() =~= without(s.drop_first(), id));
        }
    }
}

/// With no entry of `id`, removing them changes nothing.
pub proof fn lemma_without_absent(s: Seq<Entry>, id: Seq<char>)
    requires
        lookup(s, id) is None,
    ensures
        without(s, id) == s,
    decreases s.len(),
{
    if s.len() > 0 {
        lemma_without_absent(s.drop_first(), id);
        assert(seq![s[0]] + s.drop_first() =~= s);
    }
}

/// A run of a session (in memory only).
#[derive(Debug)]
pub struct AgentRun {
    session_id: i64,
    state: RunState,
    pending: Vec<PendingApproval>,
    decided: Vec<(String, ApprovalDecision)>,
}

impl AgentRun {
    /// The session.
    pub closed spec fn session(&self) -> i64 {
        self.session_id
    }

    /// The state.
    pub closed spec fn run_state(&self) -> RunState {
        self.state
    }

    /// The pending approvals, oldest first.
    pub closed spec fn pending_entries(&self) -> Seq<Entry> {
        entries(self.pending@)
    }

    /// The decisions delivered and not yet taken by their calls, oldest
    /// first.
    pub closed spec fn delivered(&self) -> Seq<Delivery> {
        deliveries(self.decided@)
    }

    /// A new, idle run with nothing pending.
    pub fn new(session_id: i64) -> (r: AgentRun)
        ensures
            r.session() == session_id,
            r.run_state() == RunState::Idle,
            r.pending_entries().len() == 0,
            r.delivered().len() == 0,
    {
        let r = AgentRun { session_id, state: RunState::Idle, pending: Vec::new(), decided: Vec::new() };
        assert(entries(r.pending@) =~= Seq::<Entry>::empty());
        assert(deliveries(r.decided@) =~= Seq::<Delivery>::empty());
        r
    }

    /// The session.
    pub fn session_id(&self) -> (r: i64)
        ensures
            r == self.session(),
    {
        self.session_id
    }

    /// The state.
    pub fn state(&self) -> (r: RunState)
        ensures
            r == self.run_state(),
    {
        self.state
    }

    /// Idle → running; a run already under way is a conflict.
    pub fn start(&mut self) -> (r: Result<(), DomainError>)
        ensures
            old(self).run_state() == RunState::Idle ==> (r is Ok && final(self).run_state()
                == RunState::Running),
            old(self).run_state() != RunState::Idle ==> (r matches Err(DomainError::Conflict(m))
                && m@ == "当前会话已有运行中的任务"@ && final(self).run_state() == old(self).run_state()),
            final(self).pending_entries() == old(self).pending_entries(),
            final(self).delivered() == old(self).delivered(),
            final(self).session() == old(self).session(),
    {
        if self.state != RunState::Idle {
            return Err(DomainError::Conflict(owned("当前会话已有运行中的任务")));
        }
        self.state = RunState::Running;
        Ok(())
    }

    /// Removes the pending approvals of `call_id`, returning the tool and
    /// target of the first.
    fn take_pending(&mut self, call_id: &str) -> (r: Option<(String, String)>)
        ensures
            match r {
                Some(p) => lookup(old(self).pending_entries(), call_id@) == Some((p.0@, p.1@)),
                None => lookup(old(self).pending_entries(), call_id@) is None,
            },
            final(self).pending_entries() == without(old(self).pending_entries(), call_id@),
            final(self).run_state() == old(self).run_state(),
            final(self).delivered() == old(self).delivered(),
            final(self).session() == old(self).session(),
    {
        let ghost orig = entries(self.pending@);
        let mut rest: Vec<PendingApproval> = Vec::new();
        std::mem::swap(&mut rest, &mut self.pending);
        let mut found: Option<(String, String)> = None;
        assert(entries(self.pending@) =~= Seq::<Entry>::empty());
        while rest.len() > 0
            invariant
                self.state == old(self).state,
                self.session_id == old(self).session_id,
                self.decided@ == old(self).decided@,
                without(orig, call_id@) == entries(self.pending@) + without(entries(rest@), call_id@),
                match found {
                    Some(p) => lookup(orig, call_id@) == Some((p.0@, p.1@)),
                    None => lookup(orig, call_id@) == lookup(entries(rest@), call_id@),
                },
            decreases rest.len(),
        {
            let ghost before = entries(rest@);
            let p = rest.remove(0);
            assert(entries(rest@) =~= before.drop_first());
            if str_eq(p.call_id.as_str(), call_id) {
                if found.is_none() {
                    found = Some((p.tool, p.arg));
                }
            } else {
                let ghost kept = entries(self.pending@);
                self.pending.push(p);
                assert(entries(self.pending@) =~= kept.push(before[0]));
                assert(kept.push(before[0]) + without(before.drop_first(), call_id@) =~= kept + (seq![
                    before[0],
                ] + without(before.drop_first(), call_id@)));
            }
        }
        assert(without(entries(rest@), call_id@) =~= Seq::<Entry>::empty());
        assert(entries(self.pending@) + Seq::<Entry>::empty() =~= entries(self.pending@));
        found
    }

    /// Registers a pending approval for a call: running → waiting for
    /// approval. A pending approval of the same call is replaced. When the
    /// run is not running (it was interrupted), nothing is registered (and an
    /// earlier approval of the call is dropped) and the request is refused.
    pub fn request_approval(&mut self, call_id: &str, tool: &str, arg: &str) -> (r: Result<(), DomainError>)
        ensures
            old(self).run_state() == RunState::Running ==> (r is Ok && final(self).run_state()
                == RunState::WaitingApproval && final(self).pending_entries() == without(
                old(self).pending_entries(),
                call_id@,
            ).push((call_id@, tool@, arg@))),
            old(self).run_state() != RunState::Running ==> (r matches Err(DomainError::State(m))
                && m@ == "运行已结束，无法发起审批"@ && final(self).run_state() == old(self).run_state()
                && final(self).pending_entries() == without(old(self).pending_entries(), call_id@)),
            final(self).delivered() == old(self).delivered(),
            final(self).session() == old(self).session(),
    {
        let _ = self.take_pending(call_id);
        if self.state != RunState::Running {
            return Err(DomainError::State(owned("运行已结束，无法发起审批")));
        }
        let ghost before = entries(self.pending@);
        self.pending.push(PendingApproval { call_id: owned(call_id), tool: owned(tool), arg: owned(arg) });
        assert(entries(self.pending@) =~= before.push((call_id@, tool@, arg@)));
        self.state = RunState::WaitingApproval;
        Ok(())
    }

    /// Delivers the decision on a pending call: waiting for approval →
    /// running, the decision is handed to the call (see
    /// [`AgentRun::take_decision`]), and the call's tool and target come back
    /// for rule derivation. A call that is not pending (already decided, or
    /// interrupted) gives `None` and changes nothing.
    pub fn approve(&mut self, call_id: &str, decision: ApprovalDecision) -> (r: Option<(String, String)>)
        ensures
            match r {
                Some(p) => lookup(old(self).pending_entries(), call_id@) == Some((p.0@, p.1@))
                    && final(self).pending_entries() == without(old(self).pending_entries(), call_id@)
                    && final(self).delivered() == old(self).delivered().push((call_id@, decision))
                    && final(self).run_state() == (if old(self).run_state() == RunState::WaitingApproval {
                    RunState::Running
                } else {
                    old(self).run_state()
                }),
                None => lookup(old(self).pending_entries(), call_id@) is None
                    && final(self).pending_entries() == old(self).pending_entries()
                    && final(self).delivered() == old(self).delivered()
                    && final(self).run_state() == old(self).run_state(),
            },
            final(self).session() == old(self).session(),
    {
        let r = self.take_pending(call_id);
        match r {
            Some(p) => {
                if self.state == RunState::WaitingApproval {
                    self.state = RunState::Running;
                }
                let ghost before = deliveries(self.decided@);
                self.decided.push((owned(call_id), decision));
                assert(deliveries(self.decided@) =~= before.push((call_id@, decision)));
                Some(p)
            },
            None => {
                proof {
                    lemma_without_absent(old(self).pending_entries(), call_id@);
                }
                None
            },
        }
    }

    /// The decision delivered to a call, taken (the first one, if several);
    /// `None` while none has been delivered.
    pub fn take_decision(&mut self, call_id: &str) -> (r: Option<ApprovalDecision>)
        ensures
            match first_delivery(old(self).delivered(), call_id@) {
                Some(i) => r == Some(old(self).delivered()[i].1)
                    && final(self).delivered() == old(self).delivered().remove(i),
                None => r is None && final(self).delivered() == old(self).delivered(),
            },
            final(self).pending_entries() == old(self).pending_entries(),
            final(self).run_state() == old(self).run_state(),
            final(self).session() == old(self).session(),
    {
        let ghost d = deliveries(self.decided@);
        let mut i: usize = 0;
        while i < self.decided.len()
            invariant
                d == deliveries(self.decided@),
                d == old(self).delivered(),
                forall|j: int| 0 <= j < i ==> (#[trigger] d[j]).0 != call_id@,
                i <= self.decided.len(),
                self.pending@ == old(self).pending@,
                self.state == old(self).state,
                self.session_id == old(self).session_id,
            decreases self.decided.len() - i,
        {
            if str_eq(self.decided[i].0.as_str(), call_id) {
                assert(d[i as int].0 == call_id@);
                proof {
                    let c = choose|c: int| 0 <= c < d.len() && (#[trigger] d[c]).0 == call_id@ && forall|j: int| 0 <= j < c ==> (#[trigger] d[j]).0 != call_id@;
                    assert(0 <= c < d.len() && d[c].0 == call_id@ && forall|j: int| 0 <= j < c ==> (#[trigger] d[j]).0 != call_id@);
                    if c < i {
                        assert(d[c].0 != call_id@);
                    }
                    if c > i {
                        assert(d[i as int].0 != call_id@);
                    }
                    assert(first_delivery(d, call_id@) == Some(i as int));
                }
                let (_, decision) = self.decided.remove(i);
                assert(deliveries(self.decided@) =~= d.remove(i as int));
                return Some(decision);
            }
            i = i + 1;
        }
        proof {
            if first_delivery(d, call_id@) is Some {
                let k = choose|k: int| 0 <= k < d.len() && (#[trigger] d[k]).0 == call_id@;
                assert(d[k].0 != call_id@);
            }
        }
        None
    }

    /// Empties the pending approvals, oldest first.
    fn drain_pending(&mut self) -> (r: Vec<PendingApproval>)
        ensures
            entries(r@) == old(self).pending_entries(),
            final(self).pending_entries().len() == 0,
            final(self).run_state() == old(self).run_state(),
            final(self).delivered() == old(self).delivered() + aborts(old(self).pending_entries()),
            final(self).session() == old(self).session(),
    {
        let mut r: Vec<PendingApproval> = Vec::new();
        std::mem::swap(&mut r, &mut self.pending);
        assert(entries(self.pending@) =~= Seq::<Entry>::empty());
        let ghost start = deliveries(self.decided@);
        for k in 0..r.len()
            invariant
                deliveries(self.decided@) == start + aborts(entries(r@).take(k as int)),
                entries(self.pending@).len() == 0,
                self.state == old(self).state,
                self.session_id == old(self).session_id,
        {
            let ghost before = deliveries(self.decided@);
            self.decided.push((r[k].call_id.clone(), ApprovalDecision::Abort));
            assert(entries(r@).take(k + 1) =~= entries(r@).take(k as int).push(entries(r@)[k as int]));
            assert(aborts(entries(r@).take(k + 1)) =~= aborts(entries(r@).take(k as int)).push((r@[k as int].call_id@, ApprovalDecision::Abort)));
            assert(deliveries(self.decided@) =~= before.push((r@[k as int].call_id@, ApprovalDecision::Abort)));
        }
        assert(entries(r@).take(r@.len() as int) =~= entries(r@));
        r
    }

    /// Interruption: back to idle; every pending approval is answered with
    /// an abort and handed back (the caller cancels the run's token).
    pub fn interrupt(&mut self) -> (r: Vec<PendingApproval>)
        ensures
            entries(r@) == old(self).pending_entries(),
            final(self).pending_entries().len() == 0,
            final(self).run_state() == RunState::Idle,
            final(self).delivered() == old(self).delivered() + aborts(old(self).pending_entries()),
            final(self).session() == old(self).session(),
    {
        let r = self.drain_pending();
        self.state = RunState::Idle;
        r
    }

    /// Normal end: back to idle; leftover pending approvals are answered
    /// with an abort and handed back.
    pub fn finish(&mut self) -> (r: Vec<PendingApproval>)
        ensures
            entries(r@) == old(self).pending_entries(),
            final(self).pending_entries().len() == 0,
            final(self).run_state() == RunState::Idle,
            final(self).delivered() == old(self).delivered() + aborts(old(self).pending_entries()),
            final(self).session() == old(self).session(),
    {
        let r = self.drain_pending();
        self.state = RunState::Idle;
        r
    }
}

} // verus!
