//! The firewall: the table of client records and the two operations on it,
//! a request and the expiry of a record.

use crate::record::{ban_deadline, spec_ban_deadline, ClientId, ClientRecord};
use crate::verdict::{Decision, Verdict};
use std::collections::HashMap;
use vstd::prelude::*;

verus! {

broadcast use vstd::std_specs::hash::group_hash_axioms;

/// The table of a firewall: the record of every client that has made a request
/// since its record was last expired.
pub type Table = Map<ClientId, ClientRecord>;

/// The record from which the next request of `client` counts on: the one in
/// the table, or a fresh one where the table has none.
pub open spec fn record_or_fresh(table: Table, client: ClientId) -> ClientRecord {
    if table.contains_key(client) {
        table[client]
    } else {
        ClientRecord::spec_fresh(client)
    }
}

/// The verdict on the next request of `client`: denied exactly when the
/// request takes the client's count over `threshold`.
pub open spec fn verdict_for(table: Table, threshold: u64, client: ClientId) -> Verdict {
    if record_or_fresh(table, client).spec_breaches(threshold) {
        Verdict::Denied
    } else {
        Verdict::Allowed
    }
}

/// The decision on the next request of `client`: its verdict, and with every
/// denial one expiry to arm, `ban_duration` from now.
pub open spec fn decision_for(
    table: Table,
    threshold: u64,
    ban_duration: u64,
    client: ClientId,
) -> Decision {
    match verdict_for(table, threshold, client) {
        Verdict::Allowed => Decision { verdict: Verdict::Allowed, expire_after: None },
        Verdict::Denied => Decision { verdict: Verdict::Denied, expire_after: Some(ban_duration) },
    }
}

/// The table after a request of `client` at time `now`: the client's record
/// has counted the request, every other record is as it was.
pub open spec fn table_after_request(
    table: Table,
    threshold: u64,
    ban_duration: u64,
    client: ClientId,
    now: u64,
) -> Table {
    table.insert(
        client,
        record_or_fresh(table, client).spec_bump(threshold, spec_ban_deadline(now, ban_duration)),
    )
}

/// The table after the record of `client` has been expired: that record is
/// gone, whatever it held, and every other record is as it was.
pub open spec fn table_after_expiry(table: Table, client: ClientId) -> Table {
    table.remove(client)
}

/// Every record of the table is well formed under `threshold`, and filed
/// under its own client.
pub open spec fn table_wf(table: Table, threshold: u64) -> bool {
    forall|client: ClientId| #[trigger]
        table.contains_key(client) ==> table[client].wf(client, threshold)
}

/// A firewall. It counts the requests of each client and denies a
/// client whose count has gone over the threshold, until the client's record
/// is expired.
///
/// Every denial asks for one expiry, `ban_duration` later, and an expiry
/// removes the record without looking at it. So a ban ends with the expiry
/// that the first denial asked for; an expiry that a later denial asked for
/// removes whatever record the client has by then.
pub struct Firewall {
    rules: HashMap<ClientId, ClientRecord>,
    threshold: u64,
    ban_duration: u64,
}

impl View for Firewall {
    type V = Table;

    closed spec fn view(&self) -> Table {
        self.rules@
    }
}

impl Firewall {
    /// Holds of every firewall at every call: its table is well formed
    /// under its threshold.
    #[verifier::type_invariant]
    spec fn inv(self) -> bool {
        table_wf(self.rules@, self.threshold)
    }

    /// The number of requests that a client may make before it is denied.
    pub closed spec fn spec_threshold(&self) -> u64 {
        self.threshold
    }

    /// How long a client stays denied, in milliseconds.
    pub closed spec fn spec_ban_duration(&self) -> u64 {
        self.ban_duration
    }

    /// Makes a firewall that knows no client. `threshold` is the number of
    /// requests that a client may make before it is denied, `ban_duration`
    /// the time in milliseconds for which it then stays denied.
    pub fn new(threshold: u64, ban_duration: u64) -> (firewall: Firewall)
        ensures
            firewall@ == Table::empty(),
            firewall.spec_threshold() == threshold,
            firewall.spec_ban_duration() == ban_duration,
    {
        Firewall { rules: HashMap::new(), threshold, ban_duration }
    }

    /// Returns the number of requests that a client may make before it is
    /// denied.
    #[verifier::when_used_as_spec(spec_threshold)]
    pub fn threshold(&self) -> (threshold: u64)
        ensures
            threshold == self.spec_threshold(),
    {
        self.threshold
    }

    /// Returns how long a client stays denied, in milliseconds.
    #[verifier::when_used_as_spec(spec_ban_duration)]
    pub fn ban_duration(&self) -> (ban_duration: u64)
        ensures
            ban_duration == self.spec_ban_duration(),
    {
        self.ban_duration
    }

    /// Returns the record that is kept for `client`, if there is one. A
    /// record that is kept is well formed.
    pub fn record(&self, client: ClientId) -> (record: Option<ClientRecord>)
        ensures
            record == self@.get(client),
            table_wf(self@, self.spec_threshold()),
    {
        proof {
            use_type_invariant(self);
        }
        match self.rules.get(&client) {
            Some(record) => Some(*record),
            None => None,
        }
    }

    /// Evaluates one request of the client `ip`, made at time `now` (in
    /// milliseconds on the caller's clock).
    ///
    /// The request is counted in the client's record, which is made first
    /// where the client has none. It is denied exactly when it takes the count
    /// over the threshold; the first such request sets the end of the ban, so
    /// a client is denied exactly while its record holds one.
    /// With every denial the caller has to arm one expiry: after
    /// `expire_after` milliseconds it calls [`Firewall::expire`] for `ip`.
    /// No other client's record changes.
    pub fn allow(&mut self, ip: ClientId, now: u64) -> (decision: Decision)
        ensures
            final(self).spec_threshold() == old(self).spec_threshold(),
            final(self).spec_ban_duration() == old(self).spec_ban_duration(),
            final(self)@ == table_after_request(
                old(self)@,
                old(self).spec_threshold(),
                old(self).spec_ban_duration(),
                ip,
                now,
            ),
            decision == decision_for(
                old(self)@,
                old(self).spec_threshold(),
                old(self).spec_ban_duration(),
                ip,
            ),
            decision.verdict == Verdict::Denied <==> final(self)@[ip].banned_until is Some,
            table_wf(final(self)@, final(self).spec_threshold()),
    {
        proof {
            use_type_invariant(&*self);
        }
        let prior = match self.rules.get(&ip) {
            Some(record) => *record,
            None => ClientRecord::fresh(ip),
        };
        let denied = prior.breaches(self.threshold);
        let next = prior.bump(self.threshold, ban_deadline(now, self.ban_duration));
        // The table is taken out while it changes and put back changed, so
        // that the firewall is well formed at every point of the call.
        let mut rules = HashMap::new();
        std::mem::swap(&mut self.rules, &mut rules);
        rules.insert(ip, next);
        std::mem::swap(&mut self.rules, &mut rules);
        if denied {
            Decision { verdict: Verdict::Denied, expire_after: Some(self.ban_duration) }
        } else {
            Decision { verdict: Verdict::Allowed, expire_after: None }
        }
    }

    /// Expires the record of the client `ip`: the record is removed, whatever
    /// it holds, and the client's next request starts a new one. Where the
    /// client has no record nothing changes.
    pub fn expire(&mut self, ip: ClientId)
        ensures
            final(self).spec_threshold() == old(self).spec_threshold(),
            final(self).spec_ban_duration() == old(self).spec_ban_duration(),
            final(self)@ == table_after_expiry(old(self)@, ip),
            table_wf(final(self)@, final(self).spec_threshold()),
    {
        proof {
            use_type_invariant(&*self);
        }
        // Taken out and put back, as in `allow`.
        let mut rules = HashMap::new();
        std::mem::swap(&mut self.rules, &mut rules);
        rules.remove(&ip);
        std::mem::swap(&mut self.rules, &mut rules);
    }
}

} // verus!
