//! The team protocol: request/response exchanges (shutdown handshakes, plan
//! approvals) tracked by request id. A response must name the request's type
//! and is accepted once.

use vstd::prelude::*;

use crate::ids::random_hex_id;
use crate::text::{append, owned, str_eq};

verus! {

/// The state of a request.
#[derive(Debug, Clone, Copy, PartialEq, Eq, Structural)]
pub enum ProtocolStatus {
    Pending,
    Approved,
    Rejected,
}

/// One request.
#[derive(Debug, Clone)]
pub struct ProtocolState {
    pub request_id: String,
    /// `shutdown` or `plan_approval`.
    pub ptype: String,
    pub sender: String,
    pub target: String,
    pub status: ProtocolStatus,
    pub payload: String,
}

/// The value of a request.
pub struct ProtocolStateView {
    pub request_id: Seq<char>,
    pub ptype: Seq<char>,
    pub sender: Seq<char>,
    pub target: Seq<char>,
    pub status: ProtocolStatus,
    pub payload: Seq<char>,
}

impl View for ProtocolState {
    type V = ProtocolStateView;

    open spec fn view(&self) -> ProtocolStateView {
        ProtocolStateView {
            request_id: self.request_id@,
            ptype: self.ptype@,
            sender: self.sender@,
            target: self.target@,
            status: self.status,
            payload: self.payload@,
        }
    }
}

impl ProtocolState {
    /// A copy of this request.
    pub fn duplicate(&self) -> (r: ProtocolState)
        ensures
            r@ == self@,
    {
        ProtocolState {
            request_id: self.request_id.clone(),
            ptype: self.ptype.clone(),
            sender: self.sender.clone(),
            target: self.target.clone(),
            status: self.status,
            payload: self.payload.clone(),
        }
    }
}

/// The requests, each id at most once.
pub struct ProtocolRegistry {
    pending: Vec<ProtocolState>,
}

/// The values of a list of requests.
pub open spec fn states_view(v: Seq<ProtocolState>) -> Seq<ProtocolStateView> {
    v.map_values(|s: ProtocolState| s@)
}

/// No id occurs twice.
pub open spec fn unique_ids(s: Seq<ProtocolStateView>) -> bool {
    forall|a: int, b: int|
        0 <= a < s.len() && 0 <= b < s.len() && a != b ==> s[a].request_id != s[b].request_id
}

/// The position of the request with id `id`, if any.
pub open spec fn position_of(s: Seq<ProtocolStateView>, id: Seq<char>) -> Option<int> {
    if exists|i: int| 0 <= i < s.len() && (#[trigger] s[i]).request_id == id {
        Some(choose|i: int| 0 <= i < s.len() && (#[trigger] s[i]).request_id == id)
    } else {
        None
    }
}

/// The requests after storing `st` (replacing the request with its id).
pub open spec fn stored(s: Seq<ProtocolStateView>, st: ProtocolStateView) -> Seq<
    ProtocolStateView,
> {
    match position_of(s, st.request_id) {
        Some(i) => s.update(i, st),
        None => s.push(st),
    }
}

/// The outcome of a response to request `id` claiming type `expected`:
/// the error text or nothing, and the requests afterwards.
pub open spec fn respond(
    s: Seq<ProtocolStateView>,
    id: Seq<char>,
    expected: Seq<char>,
    approved: bool,
) -> (Option<Seq<char>>, Seq<ProtocolStateView>) {
    match position_of(s, id) {
        None => (Some("未知 request_id"@), s),
        Some(i) => if s[i].ptype != expected {
            (Some("协议类型不匹配: 期望 "@ + expected + "，实际 "@ + s[i].ptype), s)
        } else if s[i].status != ProtocolStatus::Pending {
            (Some("请求已被处理 (防重复)"@), s)
        } else {
            (
                None,
                s.update(
                    i,
                    ProtocolStateView {
                        status: if approved {
                            ProtocolStatus::Approved
                        } else {
                            ProtocolStatus::Rejected
                        },
                        ..s[i]
                    },
                ),
            )
        },
    }
}

impl ProtocolRegistry {
    /// The requests.
    pub closed spec fn entries(&self) -> Seq<ProtocolStateView> {
        states_view(self.pending@)
    }

    /// Ids are unique.
    pub open spec fn wf(&self) -> bool {
        unique_ids(self.entries())
    }

    /// An empty registry.
    pub fn new() -> (r: ProtocolRegistry)
        ensures
            r.wf(),
            r.entries().len() == 0,
    {
        ProtocolRegistry { pending: Vec::new() }
    }

    fn find(&self, id: &str) -> (r: Option<usize>)
        requires
            self.wf(),
        ensures
            match r {
                Some(i) => position_of(self.entries(), id@) == Some(i as int),
                None => position_of(self.entries(), id@) is None,
            },
    {
        let mut i: usize = 0;
        while i < self.pending.len()
            invariant
                i <= self.pending@.len(),
                self.wf(),
                forall|k: int| 0 <= k < i ==> (#[trigger] self.entries()[k]).request_id != id@,
            decreases self.pending@.len() - i,
        {
            if str_eq(self.pending[i].request_id.as_str(), id) {
                assert(self.entries()[i as int].request_id == id@);
                let ghost c = choose|k: int|
                    0 <= k < self.entries().len() && (#[trigger] self.entries()[k]).request_id
                        == id@;
                assert(c == i);
                return Some(i);
            }
            i += 1;
        }
        None
    }

    /// Stores a request under a given id, replacing any request with that id,
    /// and returns the id.
    pub fn create_with_id(
        &mut self,
        request_id: String,
        ptype: &str,
        sender: &str,
        target: &str,
        payload: &str,
    ) -> (r: String)
        requires
            old(self).wf(),
        ensures
            final(self).wf(),
            r@ == request_id@,
            final(self).entries() == stored(
                old(self).entries(),
                ProtocolStateView {
                    request_id: request_id@,
                    ptype: ptype@,
                    sender: sender@,
                    target: target@,
                    status: ProtocolStatus::Pending,
                    payload: payload@,
                },
            ),
    {
        let st = ProtocolState {
            request_id: request_id.clone(),
            ptype: owned(ptype),
            sender: owned(sender),
            target: owned(target),
            status: ProtocolStatus::Pending,
            payload: owned(payload),
        };
        let ghost sv = st@;
        match self.find(request_id.as_str()) {
            Some(i) => {
                self.pending.set(i, st);
                assert(self.entries() =~= old(self).entries().update(i as int, sv));
            },
            None => {
                self.pending.push(st);
                assert(self.entries() =~= old(self).entries().push(sv));
            },
        }
        request_id
    }

    /// Opens a request of type `ptype` from `sender` to `target` under a fresh
    /// random id `req-<32 hex digits>` and returns the id.
    pub fn create(&mut self, ptype: &str, sender: &str, target: &str, payload: &str) -> (r:
        String)
        requires
            old(self).wf(),
        ensures
            final(self).wf(),
            r@.len() == 36,
            crate::text::seq_starts_with(r@, "req-"@),
            final(self).entries() == stored(
                old(self).entries(),
                ProtocolStateView {
                    request_id: r@,
                    ptype: ptype@,
                    sender: sender@,
                    target: target@,
                    status: ProtocolStatus::Pending,
                    payload: payload@,
                },
            ),
    {
        let mut id = owned("req-");
        let hex = random_hex_id();
        append(&mut id, hex.as_str());
        proof {
            reveal_strlit("req-");
            assert(id@.subrange(0, 4) =~= "req-"@);
        }
        self.create_with_id(id, ptype, sender, target, payload)
    }

    /// Accepts the response to request `request_id`: it must exist, carry the
    /// expected type and still be pending; it then becomes approved or rejected.
    pub fn match_response(&mut self, request_id: &str, expected_type: &str, approved: bool) -> (r:
        Result<(), String>)
        requires
            old(self).wf(),
        ensures
            final(self).wf(),
            final(self).entries() == respond(
                old(self).entries(),
                request_id@,
                expected_type@,
                approved,
            ).1,
            match respond(old(self).entries(), request_id@, expected_type@, approved).0 {
                Some(e) => r matches Err(m) && m@ == e,
                None => r is Ok,
            },
    {
        let i = match self.find(request_id) {
            Some(i) => i,
            None => {
                return Err(owned("未知 request_id"));
            },
        };
        let st = &self.pending[i];
        if !str_eq(st.ptype.as_str(), expected_type) {
            let mut m = owned("协议类型不匹配: 期望 ");
            append(&mut m, expected_type);
            append(&mut m, "，实际 ");
            append(&mut m, st.ptype.as_str());
            return Err(m);
        }
        if st.status != ProtocolStatus::Pending {
            return Err(owned("请求已被处理 (防重复)"));
        }
        let mut nst = st.duplicate();
        nst.status = if approved {
            ProtocolStatus::Approved
        } else {
            ProtocolStatus::Rejected
        };
        let ghost nv = nst@;
        self.pending.set(i, nst);
        assert(self.entries() =~= old(self).entries().update(i as int, nv));
        Ok(())
    }

    /// The request with id `request_id`.
    pub fn get(&self, request_id: &str) -> (r: Option<ProtocolState>)
        requires
            self.wf(),
        ensures
            match position_of(self.entries(), request_id@) {
                Some(i) => r matches Some(s) && s@ == self.entries()[i],
                None => r is None,
            },
    {
        match self.find(request_id) {
            Some(i) => Some(self.pending[i].duplicate()),
            None => None,
        }
    }

    /// All requests.
    pub fn list(&self) -> (r: Vec<ProtocolState>)
        ensures
            states_view(r@) == self.entries(),
    {
        let mut out: Vec<ProtocolState> = Vec::new();
        let mut i: usize = 0;
        while i < self.pending.len()
            invariant
                i <= self.pending@.len(),
                states_view(out@) == self.entries().take(i as int),
            decreases self.pending@.len() - i,
        {
            let ghost prev = out@;
            out.push(self.pending[i].duplicate());
            assert(states_view(out@) =~= states_view(prev).push(self.entries()[i as int]));
            assert(self.entries().take(i + 1) =~= self.entries().take(i as int).push(
                self.entries()[i as int],
            ));
            i += 1;
        }
        assert(self.entries().take(self.entries().len() as int) =~= self.entries());
        out
    }
}

/// A request is answered at most once: after an accepted response, any
/// further response to the same request is refused and changes nothing.
pub proof fn law_answer_once(
    s: Seq<ProtocolStateView>,
    id: Seq<char>,
    ty: Seq<char>,
    a1: bool,
    ty2: Seq<char>,
    a2: bool,
)
    requires
        unique_ids(s),
        respond(s, id, ty, a1).0 is None,
    ensures
        respond(respond(s, id, ty, a1).1, id, ty2, a2).0 is Some,
        respond(respond(s, id, ty, a1).1, id, ty2, a2).1 == respond(s, id, ty, a1).1,
{
    let i = position_of(s, id)->0;
    let t = respond(s, id, ty, a1).1;
    assert(t[i].request_id == id);
    let j = position_of(t, id)->0;
    assert(t.len() == s.len());
    assert(j == i) by {
        assert(t[j].request_id == id);
        assert(s[j].request_id == t[j].request_id);
    }
}

/// A response naming the wrong type is refused and changes nothing.
pub proof fn law_type_mismatch_refused(
    s: Seq<ProtocolStateView>,
    id: Seq<char>,
    ty: Seq<char>,
    a: bool,
)
    requires
        position_of(s, id) matches Some(i) && s[i].ptype != ty,
    ensures
        respond(s, id, ty, a).0 is Some,
        respond(s, id, ty, a).1 == s,
{
}

} // verus!
