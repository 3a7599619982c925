//! Histories of requests and expiries, and what holds of the firewall over
//! them.
//!
//! A history is a sequence of events, applied to a table one after the
//! other. The operations of the firewall are stated over the same functions on
//! tables, so what is proved here of a history holds of every sequence of
//! calls that makes it.

use crate::admission::{
    decision_for, record_or_fresh, table_after_expiry, table_after_request, table_wf, verdict_for,
    Table,
};
use crate::record::{lemma_bump_keeps_wf, spec_ban_deadline, ClientId, ClientRecord};
use crate::verdict::Verdict;
use vstd::prelude::*;

verus! {

/// One step of a history.
pub enum Event {
    /// The client made a request at time `now`.
    Request { client: ClientId, now: u64 },
    /// The record of the client was expired.
    Expiry { client: ClientId },
}

impl Event {
    /// The client that the event concerns.
    pub open spec fn client(self) -> ClientId {
        match self {
            Event::Request { client, .. } => client,
            Event::Expiry { client } => client,
        }
    }
}

/// The table after one event.
pub open spec fn table_after_event(
    table: Table,
    threshold: u64,
    ban_duration: u64,
    event: Event,
) -> Table {
    match event {
        Event::Request { client, now } => table_after_request(
            table,
            threshold,
            ban_duration,
            client,
            now,
        ),
        Event::Expiry { client } => table_after_expiry(table, client),
    }
}

/// The table after a history, applied from its first event to its last.
pub open spec fn table_after(
    table: Table,
    threshold: u64,
    ban_duration: u64,
    events: Seq<Event>,
) -> Table
    decreases events.len(),
{
    if events.len() == 0 {
        table
    } else {
        table_after_event(
            table_after(table, threshold, ban_duration, events.drop_last()),
            threshold,
            ban_duration,
            events.last(),
        )
    }
}

/// Tells the events that concern `client` from the others.
pub open spec fn concerns(client: ClientId) -> spec_fn(Event) -> bool {
    |event: Event| event.client() == client
}

/// The part of a history that concerns `client`, in the order of the history.
pub open spec fn events_of(events: Seq<Event>, client: ClientId) -> Seq<Event> {
    events.filter(concerns(client))
}

/// Every event of the history is a request of `client`.
pub open spec fn only_requests_of(events: Seq<Event>, client: ClientId) -> bool {
    forall|i: int|
        0 <= i < events.len() ==> (#[trigger] events[i]) is Request && events[i].client() == client
}

/// The history holds no expiry of the record of `client`.
pub open spec fn no_expiry_of(events: Seq<Event>, client: ClientId) -> bool {
    forall|i: int| 0 <= i < events.len() ==> #[trigger] events[i] != (Event::Expiry { client })
}

/// The count that a record shows after `requests` requests in all.
pub open spec fn capped(requests: int) -> u64 {
    if requests > u64::MAX {
        u64::MAX
    } else {
        requests as u64
    }
}

/// Every request adds exactly one to the count of its client, up to the
/// point where the count stops: after a history of `n` requests of one
/// client and nothing else, the client's count is `n` more than before.
pub proof fn lemma_count_tracks_requests(
    table: Table,
    threshold: u64,
    ban_duration: u64,
    client: ClientId,
    events: Seq<Event>,
)
    requires
        only_requests_of(events, client),
    ensures
        record_or_fresh(table_after(table, threshold, ban_duration, events), client).count
            == capped(record_or_fresh(table, client).count + events.len()),
        events.len() > 0 ==> table_after(table, threshold, ban_duration, events).contains_key(
            client,
        ),
    decreases events.len(),
{
    if events.len() > 0 {
        let earlier = events.drop_last();
        assert(only_requests_of(earlier, client)) by {
            assert forall|i: int| 0 <= i < earlier.len() implies (#[trigger] earlier[i]) is Request
                && earlier[i].client() == client by {
                assert(earlier[i] == events[i]);
            }
        }
        lemma_count_tracks_requests(table, threshold, ban_duration, client, earlier);
        assert(events.last() == events[events.len() - 1]);
    }
}

/// The threshold rule. Of a client that the table does not know, the first
/// `threshold` requests are allowed and every request after them is denied:
/// the request that follows `n` requests of the client is denied exactly
/// when `n` has reached the threshold.
pub proof fn lemma_unseen_client_is_denied_past_threshold(
    table: Table,
    threshold: u64,
    ban_duration: u64,
    client: ClientId,
    events: Seq<Event>,
)
    requires
        !table.contains_key(client),
        only_requests_of(events, client),
    ensures
        verdict_for(table_after(table, threshold, ban_duration, events), threshold, client) == (
        if events.len() < threshold {
            Verdict::Allowed
        } else {
            Verdict::Denied
        }),
{
    lemma_count_tracks_requests(table, threshold, ban_duration, client, events);
}

/// Clients do not affect each other. What a history leaves of the record of
/// `client`, and so the verdict on the client's next request, is what the
/// client's own events leave of it: the events of other clients can be
/// taken out of the history, and the records of other clients can differ at
/// its start.
pub proof fn lemma_clients_are_independent(
    table: Table,
    other: Table,
    threshold: u64,
    ban_duration: u64,
    client: ClientId,
    events: Seq<Event>,
)
    requires
        table.get(client) == other.get(client),
    ensures
        table_after(table, threshold, ban_duration, events).get(client) == table_after(
            other,
            threshold,
            ban_duration,
            events_of(events, client),
        ).get(client),
        verdict_for(table_after(table, threshold, ban_duration, events), threshold, client)
            == verdict_for(
            table_after(other, threshold, ban_duration, events_of(events, client)),
            threshold,
            client,
        ),
    decreases events.len(),
{
    reveal(Seq::filter);
    if events.len() > 0 {
        let earlier = events.drop_last();
        lemma_clients_are_independent(table, other, threshold, ban_duration, client, earlier);
        if events.last().client() == client {
            let own = events_of(earlier, client).push(events.last());
            assert(events_of(events, client) == own);
            assert(own.drop_last() == events_of(earlier, client));
            assert(own.last() == events.last());
        } else {
            assert(events_of(events, client) == events_of(earlier, client));
        }
    }
}

/// The threshold rule among other clients. Whatever the other clients do
/// meanwhile, a client that the table does not know and whose record is not
/// expired is allowed its first `threshold` requests and denied every
/// request after them.
pub proof fn lemma_threshold_counts_own_requests(
    table: Table,
    threshold: u64,
    ban_duration: u64,
    client: ClientId,
    events: Seq<Event>,
)
    requires
        !table.contains_key(client),
        no_expiry_of(events, client),
    ensures
        verdict_for(table_after(table, threshold, ban_duration, events), threshold, client) == (
        if events_of(events, client).len() < threshold {
            Verdict::Allowed
        } else {
            Verdict::Denied
        }),
{
    let own = events_of(events, client);
    assert(only_requests_of(own, client)) by {
        assert forall|i: int| 0 <= i < own.len() implies (#[trigger] own[i]) is Request
            && own[i].client() == client by {
            events.lemma_filter_pred(concerns(client), i);
            assert(own.contains(own[i]));
            events.lemma_filter_contains_rev(concerns(client), own[i]);
            let j = choose|j: int| 0 <= j < events.len() && events[j] == own[i];
            assert(events[j] != (Event::Expiry { client }));
        }
    }
    lemma_clients_are_independent(table, table, threshold, ban_duration, client, events);
    lemma_unseen_client_is_denied_past_threshold(table, threshold, ban_duration, client, own);
}

/// An expiry starts the client afresh. Whatever the table held of `client`,
/// the request that follows the expiry of its record is counted as the
/// first of a new record, and it is allowed unless the threshold is zero.
pub proof fn lemma_expiry_starts_afresh(
    table: Table,
    threshold: u64,
    ban_duration: u64,
    client: ClientId,
    now: u64,
)
    ensures
        !table_after_expiry(table, client).contains_key(client),
        verdict_for(table_after_expiry(table, client), threshold, client) == (if threshold > 0 {
            Verdict::Allowed
        } else {
            Verdict::Denied
        }),
        table_after_request(
            table_after_expiry(table, client),
            threshold,
            ban_duration,
            client,
            now,
        )[client] == (ClientRecord {
            client,
            count: 1,
            banned_until: if threshold > 0 {
                None
            } else {
                Some(spec_ban_deadline(now, ban_duration))
            },
        }),
{
}

/// Expiry is idempotent: a second expiry of the same record changes
/// nothing, and after either the table holds no record of the client.
pub proof fn lemma_expiry_is_idempotent(table: Table, client: ClientId)
    ensures
        table_after_expiry(table_after_expiry(table, client), client) == table_after_expiry(
            table,
            client,
        ),
        !table_after_expiry(table, client).contains_key(client),
        !table.contains_key(client) ==> table_after_expiry(table, client) == table,
{
}

/// A record is kept exactly from a request of its client to the next expiry
/// of the record: after a history, the table holds a record of `client`
/// exactly when the last event that concerns the client is a request, or,
/// where no event concerns it, when the table held one before.
pub proof fn lemma_record_exists_since_last_expiry(
    table: Table,
    threshold: u64,
    ban_duration: u64,
    client: ClientId,
    events: Seq<Event>,
)
    ensures
        table_after(table, threshold, ban_duration, events).contains_key(client) == (if events_of(
            events,
            client,
        ).len() == 0 {
            table.contains_key(client)
        } else {
            events_of(events, client).last() is Request
        }),
    decreases events.len(),
{
    reveal(Seq::filter);
    if events.len() > 0 {
        let earlier = events.drop_last();
        lemma_record_exists_since_last_expiry(table, threshold, ban_duration, client, earlier);
        if events.last().client() == client {
            assert(events_of(events, client) == events_of(earlier, client).push(events.last()));
        } else {
            assert(events_of(events, client) == events_of(earlier, client));
        }
    }
}

/// Between its creation and its expiry a record only counts upwards: while
/// the history holds no expiry of the record of `client`, the record stays
/// in the table and its count never goes down.
pub proof fn lemma_count_never_goes_down(
    table: Table,
    threshold: u64,
    ban_duration: u64,
    client: ClientId,
    events: Seq<Event>,
)
    requires
        table.contains_key(client),
        no_expiry_of(events, client),
    ensures
        table_after(table, threshold, ban_duration, events).contains_key(client),
        table_after(table, threshold, ban_duration, events)[client].count >= table[client].count,
    decreases events.len(),
{
    if events.len() > 0 {
        let earlier = events.drop_last();
        lemma_no_expiry_in_prefix(events, client);
        lemma_count_never_goes_down(table, threshold, ban_duration, client, earlier);
        assert(events.last() == events[events.len() - 1]);
    }
}

/// A history without an expiry of the record of `client` has none in its
/// earlier part either.
proof fn lemma_no_expiry_in_prefix(events: Seq<Event>, client: ClientId)
    requires
        events.len() > 0,
        no_expiry_of(events, client),
    ensures
        no_expiry_of(events.drop_last(), client),
{
    let earlier = events.drop_last();
    assert forall|i: int| 0 <= i < earlier.len() implies #[trigger] earlier[i] != (Event::Expiry {
        client,
    }) by {
        assert(earlier[i] == events[i]);
    }
}

/// Every denial arms one expiry, a ban duration later, and the first denial
/// of a client sets the end of its ban, which later denials leave as it is.
pub proof fn lemma_denial_arms_expiry(
    table: Table,
    threshold: u64,
    ban_duration: u64,
    client: ClientId,
    now: u64,
)
    requires
        table_wf(table, threshold),
        verdict_for(table, threshold, client) == Verdict::Denied,
    ensures
        decision_for(table, threshold, ban_duration, client).expire_after == Some(ban_duration),
        table_after_request(table, threshold, ban_duration, client, now)[client].banned_until == (
        if record_or_fresh(table, client).banned_until is Some {
            record_or_fresh(table, client).banned_until
        } else {
            Some(spec_ban_deadline(now, ban_duration))
        }),
{
}

/// No history takes a well-formed table to one that is not.
pub proof fn lemma_history_keeps_wf(
    table: Table,
    threshold: u64,
    ban_duration: u64,
    events: Seq<Event>,
)
    requires
        table_wf(table, threshold),
    ensures
        table_wf(table_after(table, threshold, ban_duration, events), threshold),
    decreases events.len(),
{
    if events.len() > 0 {
        let before = table_after(table, threshold, ban_duration, events.drop_last());
        lemma_history_keeps_wf(table, threshold, ban_duration, events.drop_last());
        match events.last() {
            Event::Request { client, now } => {
                lemma_bump_keeps_wf(
                    record_or_fresh(before, client),
                    client,
                    threshold,
                    spec_ban_deadline(now, ban_duration),
                );
            },
            Event::Expiry { client } => {},
        }
    }
}

/// A ban lasts until the record is expired. While the history holds no
/// expiry of the record of a denied client, the client stays denied, its
/// count never goes down, and the end of its ban stays where the first
/// breach put it.
pub proof fn lemma_denied_until_expiry(
    table: Table,
    threshold: u64,
    ban_duration: u64,
    client: ClientId,
    events: Seq<Event>,
)
    requires
        table_wf(table, threshold),
        table.contains_key(client),
        table[client].banned_until is Some,
        no_expiry_of(events, client),
    ensures
        table_after(table, threshold, ban_duration, events).contains_key(client),
        table_after(table, threshold, ban_duration, events)[client].banned_until
            == table[client].banned_until,
        table_after(table, threshold, ban_duration, events)[client].count >= table[client].count,
        verdict_for(table_after(table, threshold, ban_duration, events), threshold, client)
            == Verdict::Denied,
    decreases events.len(),
{
    if events.len() > 0 {
        let earlier = events.drop_last();
        lemma_no_expiry_in_prefix(events, client);
        lemma_denied_until_expiry(table, threshold, ban_duration, client, earlier);
        assert(events.last() == events[events.len() - 1]);
    }
}

} // verus!
