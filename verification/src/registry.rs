//! The running generations: at most one per session, indexed by session and by request,
//! and no new one once the application is shutting down. (The cancellation tokens and the
//! lock around this registry are the caller's.)

use vstd::prelude::*;
use vstd::std_specs::hash::group_hash_axioms;

use std::collections::HashMap;

use crate::app_error::{plain_app_error, AppError};
use crate::text::owned;

verus! {

broadcast use group_hash_axioms;

/// The registry of running generations.
pub struct GenerationRegistry {
    accepting: bool,
    /// Session → its running request.
    by_session: HashMap<u128, u128>,
    /// Request → its session.
    by_request: HashMap<u128, u128>,
}

impl GenerationRegistry {
    /// Whether new generations are accepted.
    pub closed spec fn is_accepting(&self) -> bool {
        self.accepting
    }

    /// Each session with its running request.
    pub closed spec fn sessions(&self) -> Map<u128, u128> {
        self.by_session@
    }

    /// Each running request with its session.
    pub closed spec fn requests(&self) -> Map<u128, u128> {
        self.by_request@
    }

    /// An empty registry that accepts generations.
    pub fn new() -> (r: Self)
        ensures
            r.is_accepting(),
            r.sessions() == Map::<u128, u128>::empty(),
            r.requests() == Map::<u128, u128>::empty(),
    {
        GenerationRegistry { accepting: true, by_session: HashMap::new(), by_request: HashMap::new() }
    }

    /// Register a generation of `request_id` for `session_id`: refused while shutting
    /// down, and while the session already has one running.
    pub fn register(&mut self, session_id: u128, request_id: u128) -> (r: Result<(), AppError>)
        ensures
            !old(self).is_accepting() ==> (r matches Err(e) && plain_app_error(
                e,
                "conflict"@,
                "应用正在退出，不能开始新的生成"@,
                false,
            )) && *final(self) == *old(self),
            old(self).is_accepting() && old(self).sessions().contains_key(session_id) ==> (r matches Err(
                e,
            ) && plain_app_error(e, "conflict"@, "generation_already_running"@, false)) && *final(self)
                == *old(self),
            old(self).is_accepting() && !old(self).sessions().contains_key(session_id) ==> {
                &&& r is Ok
                &&& final(self).is_accepting()
                &&& final(self).sessions() == old(self).sessions().insert(session_id, request_id)
                &&& final(self).requests() == old(self).requests().insert(request_id, session_id)
            },
    {
        if !self.accepting {
            return Err(AppError::conflict(owned("应用正在退出，不能开始新的生成")));
        }
        if self.by_session.contains_key(&session_id) {
            return Err(AppError::conflict(owned("generation_already_running")));
        }
        self.by_session.insert(session_id, request_id);
        self.by_request.insert(request_id, session_id);
        Ok(())
    }

    /// Remove a finished generation: each index entry goes only when it still names
    /// this pair.
    pub fn unregister(&mut self, session_id: u128, request_id: u128)
        ensures
            final(self).is_accepting() == old(self).is_accepting(),
            final(self).sessions() == (if old(self).sessions().contains_key(session_id) && old(
                self,
            ).sessions()[session_id] == request_id {
                old(self).sessions().remove(session_id)
            } else {
                old(self).sessions()
            }),
            final(self).requests() == (if old(self).requests().contains_key(request_id) && old(
                self,
            ).requests()[request_id] == session_id {
                old(self).requests().remove(request_id)
            } else {
                old(self).requests()
            }),
    {
        let s = match self.by_session.get(&session_id) {
            Some(r) => *r == request_id,
            None => false,
        };
        if s {
            self.by_session.remove(&session_id);
        }
        let q = match self.by_request.get(&request_id) {
            Some(x) => *x == session_id,
            None => false,
        };
        if q {
            self.by_request.remove(&request_id);
        }
    }

    /// Whether `request_id` is running (its generation is then cancelled by the caller).
    pub fn is_running(&self, request_id: u128) -> (b: bool)
        ensures
            b == self.requests().contains_key(request_id),
    {
        self.by_request.contains_key(&request_id)
    }

    /// The number of running generations.
    pub fn running_count(&self) -> (n: usize)
        ensures
            n == self.requests().len(),
    {
        self.by_request.len()
    }

    /// Stop accepting new generations.
    pub fn stop_accepting(&mut self)
        ensures
            !final(self).is_accepting(),
            final(self).sessions() == old(self).sessions(),
            final(self).requests() == old(self).requests(),
    {
        self.accepting = false;
    }
}

/// Registering a generation and then unregistering it leaves the indexes as they were,
/// when neither its session nor its request was there before.
pub proof fn law_register_then_unregister(
    sessions: Map<u128, u128>,
    requests: Map<u128, u128>,
    session_id: u128,
    request_id: u128,
)
    requires
        !sessions.contains_key(session_id),
        !requests.contains_key(request_id),
    ensures
        ({
            let s1 = sessions.insert(session_id, request_id);
            let r1 = requests.insert(request_id, session_id);
            &&& (if s1.contains_key(session_id) && s1[session_id] == request_id {
                s1.remove(session_id)
            } else {
                s1
            }) == sessions
            &&& (if r1.contains_key(request_id) && r1[request_id] == session_id {
                r1.remove(request_id)
            } else {
                r1
            }) == requests
        }),
{
    assert(sessions.insert(session_id, request_id).remove(session_id) =~= sessions);
    assert(requests.insert(request_id, session_id).remove(request_id) =~= requests);
}

/// Cancelling is idempotent: while a registered generation runs, its request is running
/// (the first cancel reports `true`); once the cancelled generation has ended and been
/// unregistered, the request is no longer running (a repeated cancel reports `false`) and
/// the running count is back where it was.
pub proof fn law_cancel_idempotent(
    sessions: Map<u128, u128>,
    requests: Map<u128, u128>,
    session_id: u128,
    request_id: u128,
)
    requires
        !sessions.contains_key(session_id),
        !requests.contains_key(request_id),
        requests.dom().finite(),
    ensures
        ({
            let r1 = requests.insert(request_id, session_id);
            let r2 = if r1.contains_key(request_id) && r1[request_id] == session_id {
                r1.remove(request_id)
            } else {
                r1
            };
            &&& r1.contains_key(request_id)
            &&& r1.len() == requests.len() + 1
            &&& !r2.contains_key(request_id)
            &&& r2.len() == requests.len()
        }),
{
    let r1 = requests.insert(request_id, session_id);
    assert(r1.remove(request_id) =~= requests);
    assert(r1.dom() == requests.dom().insert(request_id));
}

} // verus!
