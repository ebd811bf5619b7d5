//! Permissions to connect, each for one request, for a while.

use crate::strmap;
use crate::strmap::StrMap;
use crate::text;
use vstd::prelude::*;

verus! {

/// A permission for one peer to connect and use one model.
#[derive(Debug, PartialEq, Eq)]
pub struct ConnectionAllowance {
    pub requester_peer_id: String,
    pub model: String,
    /// When the permission ends, in milliseconds.
    pub expires_at: u64,
}

/// The permissions that were given, by the request that asked for them.
#[derive(Debug)]
pub struct ConnectionAllowanceStore {
    pub allowances: StrMap<ConnectionAllowance>,
    /// How many milliseconds a permission lasts.
    pub ttl: u64,
}

/// The permissions that still hold at `now`.
pub open spec fn unexpired(m: Map<Seq<char>, ConnectionAllowance>, now: u64) -> Map<
    Seq<char>,
    ConnectionAllowance,
> {
    Map::new(|k: Seq<char>| m.dom().contains(k) && m[k].expires_at > now, |k: Seq<char>| m[k])
}

/// When a permission of `now` ends.
pub open spec fn end_of(now: u64, ttl: u64) -> u64 {
    if now + ttl > u64::MAX {
        u64::MAX
    } else {
        (now + ttl) as u64
    }
}

/// What the peer `requester` gets for the request `req` at `now`.
pub open spec fn consumed(
    m: Map<Seq<char>, ConnectionAllowance>,
    req: Seq<char>,
    requester: Seq<char>,
    now: u64,
) -> Option<Seq<char>> {
    if m.dom().contains(req) && m[req].expires_at > now && m[req].requester_peer_id@
        == requester {
        Some(m[req].model@)
    } else {
        None
    }
}

impl ConnectionAllowanceStore {
    /// Whether no request has two permissions.
    pub open spec fn wf(self) -> bool {
        self.allowances.wf()
    }

    /// No permissions; those to come last `ttl` milliseconds.
    pub fn new(ttl: u64) -> (r: Self)
        ensures
            r.wf(),
            r.allowances@ == Map::<Seq<char>, ConnectionAllowance>::empty(),
            r.ttl == ttl,
    {
        ConnectionAllowanceStore { allowances: StrMap::new(), ttl }
    }

    /// Gives `requester_peer_id` the permission to use `model`, for the request
    /// `req_id`, at `now` milliseconds of a clock that never goes back.
    pub fn grant(&mut self, req_id: String, requester_peer_id: String, model: String, now: u64)
        requires
            old(self).wf(),
        ensures
            final(self).wf(),
            final(self).ttl == old(self).ttl,
            final(self).allowances@ == unexpired(old(self).allowances@, now).insert(
                req_id@,
                ConnectionAllowance {
                    requester_peer_id,
                    model,
                    expires_at: end_of(now, old(self).ttl),
                },
            ),
    {
        self.purge_expired(now);
        let expires_at: u64 = if self.ttl > u64::MAX - now {
            u64::MAX
        } else {
            now + self.ttl
        };
        self.allowances.insert(
            req_id,
            ConnectionAllowance { requester_peer_id, model, expires_at },
        );
    }

    /// Takes the permission for the request `req_id` away, and returns the model
    /// that it is for, where it holds at `now` and is for `requester_peer_id`.
    pub fn validate_and_consume(
        &mut self,
        req_id: &str,
        requester_peer_id: &str,
        now: u64,
    ) -> (r: Option<String>)
        requires
            old(self).wf(),
        ensures
            final(self).wf(),
            final(self).ttl == old(self).ttl,
            final(self).allowances@ == unexpired(old(self).allowances@, now).remove(req_id@),
            text::opt_view(r) == consumed(
                old(self).allowances@,
                req_id@,
                requester_peer_id@,
                now,
            ),
    {
        self.purge_expired(now);
        let allowance = match self.allowances.remove(req_id) {
            Some(a) => a,
            None => {
                return None;
            },
        };
        if allowance.expires_at <= now {
            return None;
        }
        if !text::str_eq(&allowance.requester_peer_id, requester_peer_id) {
            return None;
        }
        Some(allowance.model)
    }

    /// Takes away the permissions that ended.
    pub fn purge_expired(&mut self, now: u64)
        requires
            old(self).wf(),
        ensures
            final(self).wf(),
            final(self).ttl == old(self).ttl,
            final(self).allowances@ == unexpired(old(self).allowances@, now),
    {
        let ghost m = self.allowances@;
        let mut i: usize = 0;
        while i < self.allowances.entries.len()
            invariant
                self.wf(),
                self.ttl == old(self).ttl,
                i <= self.allowances.entries@.len(),
                forall|j: int|
                    0 <= j < i ==> (#[trigger] self.allowances.entries@[j]).1.expires_at > now,
                forall|k: Seq<char>|
                    #[trigger] self.allowances@.dom().contains(k) ==> m.dom().contains(k)
                        && self.allowances@[k] == m[k],
                forall|k: Seq<char>|
                    #[trigger] m.dom().contains(k) ==> self.allowances@.dom().contains(k)
                        || m[k].expires_at <= now,
            decreases self.allowances.entries.len() - i,
        {
            if self.allowances.entries[i].1.expires_at <= now {
                proof {
                    strmap::lemma_value(self.allowances.entries@, i as int);
                    strmap::lemma_remove(self.allowances.entries@, i as int);
                }
                let ghost before = self.allowances@;
                let ghost key = self.allowances.entries@[i as int].0@;
                self.allowances.entries.remove(i);
                assert(self.allowances@ == before.remove(key));
            } else {
                i += 1;
            }
        }
        proof {
            let e = self.allowances.entries@;
            assert forall|k: Seq<char>| #[trigger] self.allowances@.dom().contains(k) implies
                m[k].expires_at > now by {
                strmap::lemma_keys(e, k);
                let j = choose|j: int| 0 <= j < e.len() && (#[trigger] e[j]).0@ == k;
                strmap::lemma_value(e, j);
            }
            assert(self.allowances@ =~= unexpired(m, now));
        }
    }
}

/// A permission is good for one time only: once asked for, whatever came of it,
/// the request has none any more, at any later time.
pub proof fn law_permission_is_used_once(
    m: Map<Seq<char>, ConnectionAllowance>,
    req: Seq<char>,
    requester: Seq<char>,
    now: u64,
    later: u64,
)
    ensures
        consumed(unexpired(m, now).remove(req), req, requester, later) is None,
{
}

/// A permission that was given serves the peer it was given to, until it ends,
/// and nobody else.
pub proof fn law_permission_serves_its_peer(
    m: Map<Seq<char>, ConnectionAllowance>,
    req: Seq<char>,
    a: ConnectionAllowance,
    now: u64,
    requester: Seq<char>,
    later: u64,
)
    ensures
        consumed(unexpired(m, now).insert(req, a), req, requester, later) == if requester
            == a.requester_peer_id@ && later < a.expires_at {
            Some(a.model@)
        } else {
            None
        },
{
}

/// Taking ended permissions away changes nothing for anyone who asks.
pub proof fn law_purge_changes_no_answer(
    m: Map<Seq<char>, ConnectionAllowance>,
    now: u64,
    later: u64,
    req: Seq<char>,
    requester: Seq<char>,
)
    requires
        now <= later,
    ensures
        consumed(unexpired(m, now), req, requester, later) == consumed(m, req, requester, later),
{
}

/// A permission lasts as long as it was given for: its peer can use it, for its model,
/// until then and not after; nobody else can.
pub proof fn law_permission_lasts(
    m: Map<Seq<char>, ConnectionAllowance>,
    req: Seq<char>,
    requester: String,
    model: String,
    now: u64,
    ttl: u64,
    other: Seq<char>,
    later: u64,
)
    requires
        now + ttl <= u64::MAX,
    ensures
        ({
            let given = unexpired(m, now).insert(
                req,
                ConnectionAllowance {
                    requester_peer_id: requester,
                    model,
                    expires_at: end_of(now, ttl),
                },
            );
            &&& later < now + ttl ==> consumed(given, req, requester@, later) == Some(model@)
            &&& later >= now + ttl ==> consumed(given, req, requester@, later) is None
            &&& other != requester@ ==> consumed(given, req, other, later) is None
        }),
{
}

/// A permission that was not given, or that was taken away, cannot be used; one for
/// another request is not touched by either.
pub proof fn law_other_permissions_stay(
    m: Map<Seq<char>, ConnectionAllowance>,
    req: Seq<char>,
    other: Seq<char>,
    a: ConnectionAllowance,
    requester: Seq<char>,
    now: u64,
    later: u64,
)
    requires
        req != other,
        now <= later,
    ensures
        !m.dom().contains(req) ==> consumed(m, req, requester, later) is None,
        consumed(unexpired(m, now).insert(other, a), req, requester, later) == consumed(
            m,
            req,
            requester,
            later,
        ),
        consumed(unexpired(m, now).remove(other), req, requester, later) == consumed(
            m,
            req,
            requester,
            later,
        ),
{
}

} // verus!
