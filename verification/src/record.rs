//! What the firewall remembers of one client.

use vstd::prelude::*;

verus! {

/// Identifies a client. The caller derives it from where a request comes
/// from; the firewall only compares identifiers.
pub type ClientId = u128;

/// The counting state of one client, from its first request until its record
/// is expired.
#[derive(Clone, Copy, Debug, PartialEq, Eq)]
pub struct ClientRecord {
    /// The client that the record belongs to.
    pub client: ClientId,
    /// The number of requests seen since the record was created. It stops at
    /// `u64::MAX`.
    pub count: u64,
    /// The time at which the ban that the first breach started runs out.
    /// Present exactly when the client is being denied.
    pub banned_until: Option<u64>,
}

/// The time at which a ban that starts at `now` runs out: `ban_duration`
/// later, or `u64::MAX` where that is beyond the clock's range.
pub open spec fn spec_ban_deadline(now: u64, ban_duration: u64) -> u64 {
    if now + ban_duration > u64::MAX {
        u64::MAX
    } else {
        (now + ban_duration) as u64
    }
}

/// Computes the time at which a ban that starts at `now` runs out.
#[verifier::when_used_as_spec(spec_ban_deadline)]
pub fn ban_deadline(now: u64, ban_duration: u64) -> (deadline: u64)
    ensures
        deadline == spec_ban_deadline(now, ban_duration),
{
    now.saturating_add(ban_duration)
}

impl ClientRecord {
    /// The record of a client of which no request has been counted yet.
    pub open spec fn spec_fresh(client: ClientId) -> ClientRecord {
        ClientRecord { client, count: 0, banned_until: None }
    }

    /// Whether one more request takes the count over `threshold`.
    pub open spec fn spec_breaches(self, threshold: u64) -> bool {
        self.count + 1 > threshold
    }

    /// The record after one more request: the count goes up by one, and the
    /// first request over `threshold` sets the end of the ban to `deadline`.
    /// A ban that is already running keeps its end.
    pub open spec fn spec_bump(self, threshold: u64, deadline: u64) -> ClientRecord {
        ClientRecord {
            client: self.client,
            count: if self.count < u64::MAX {
                (self.count + 1) as u64
            } else {
                u64::MAX
            },
            banned_until: if self.spec_breaches(threshold) && self.banned_until is None {
                Some(deadline)
            } else {
                self.banned_until
            },
        }
    }

    /// What holds of every record that the firewall keeps for `client` under
    /// `threshold`: at least one request was counted, and the ban is set
    /// exactly when the count went over the threshold. Only a count that
    /// stopped at `u64::MAX` cannot tell by itself whether it did.
    pub open spec fn wf(self, client: ClientId, threshold: u64) -> bool {
        &&& self.client == client
        &&& self.count >= 1
        &&& self.count > threshold ==> self.banned_until is Some
        &&& self.banned_until is Some ==> self.count > threshold || self.count == u64::MAX
    }

    /// Makes the record of a client of which no request has been counted yet.
    #[verifier::when_used_as_spec(spec_fresh)]
    pub fn fresh(client: ClientId) -> (record: ClientRecord)
        ensures
            record == ClientRecord::spec_fresh(client),
    {
        ClientRecord { client, count: 0, banned_until: None }
    }

    /// Tells whether one more request takes the count over `threshold`.
    #[verifier::when_used_as_spec(spec_breaches)]
    pub fn breaches(self, threshold: u64) -> (over: bool)
        ensures
            over == self.spec_breaches(threshold),
    {
        self.count >= threshold
    }

    /// Counts one more request.
    #[verifier::when_used_as_spec(spec_bump)]
    pub fn bump(self, threshold: u64, deadline: u64) -> (next: ClientRecord)
        ensures
            next == self.spec_bump(threshold, deadline),
    {
        let banned_until = if self.breaches(threshold) && self.banned_until.is_none() {
            Some(deadline)
        } else {
            self.banned_until
        };
        ClientRecord { client: self.client, count: self.count.saturating_add(1), banned_until }
    }
}

/// A request keeps a record well formed, whether the record was kept before
/// or has just been made.
pub proof fn lemma_bump_keeps_wf(record: ClientRecord, client: ClientId, threshold: u64, deadline: u64)
    requires
        record.wf(client, threshold) || record == ClientRecord::spec_fresh(client),
    ensures
        record.spec_bump(threshold, deadline).wf(client, threshold),
{
}

} // verus!
