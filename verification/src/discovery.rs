//! Rendezvous: how a peer finds the devices on its own network, and how it
//! finds one device through a discovery identifier that the device has
//! published.
//!
//! Two parties that are seen under the same public address are taken to
//! share a network. A peer that shares the owner's network is sent to the
//! owner's local name; any other peer is sent to its public name.

use crate::error::Error;
use crate::record::{Discovered, DiscoveredView, DomainRecord, RecordView};
use crate::store::{record_views, Store, StoreView};
use vstd::prelude::*;
use vstd::string::*;

verus! {

/// The records of one token.
pub open spec fn owned_by(token: Seq<char>) -> spec_fn(RecordView) -> bool {
    |r: RecordView| r.token == token
}

/// For each record, what a peer on its network is told.
pub open spec fn local_endpoints(records: Seq<RecordView>) -> Seq<DiscoveredView> {
    records.map_values(|r: RecordView| r.local_endpoint())
}

/// The contents of a sequence of answers.
pub open spec fn discovered_views(found: Seq<Discovered>) -> Seq<DiscoveredView> {
    found.map_values(|d: Discovered| d@)
}

/// What a peer seen under `public_ip` learns from a ping: every device
/// with that public address, the peer's own included, in the store's
/// order.
pub open spec fn ping_result(s: StoreView, public_ip: Seq<char>) -> Seq<DiscoveredView> {
    local_endpoints(s.at_public_ip(public_ip))
}

/// Why binding or unbinding a discovery identifier in the name of `token`
/// fails, if it does.
pub open spec fn adddiscovery_error(s: StoreView, token: Seq<char>, id: Seq<char>) -> Option<
    Error,
> {
    if !s.has_token(token) {
        Some(Error::NotFound)
    } else if s.discoveries.dom().contains(id) {
        Some(Error::StoreFailure)
    } else {
        None
    }
}

/// The store after `token` asked to bind `id`.
pub open spec fn after_adddiscovery(s: StoreView, token: Seq<char>, id: Seq<char>) -> StoreView {
    if adddiscovery_error(s, token, id) is None {
        s.bind(id, token)
    } else {
        s
    }
}

/// The store after `token` asked to unbind `id`.
pub open spec fn after_revokediscovery(s: StoreView, token: Seq<char>, id: Seq<char>) -> StoreView {
    if s.has_token(token) {
        s.unbind(id)
    } else {
        s
    }
}

/// The devices of `owner` among those seen under `public_ip`, each by its
/// local name.
pub open spec fn near_endpoints(s: StoreView, owner: Seq<char>, public_ip: Seq<char>) -> Seq<
    DiscoveredView,
> {
    local_endpoints(s.at_public_ip(public_ip).filter(owned_by(owner)))
}

/// What a peer seen under `public_ip` learns from the discovery identifier
/// `id`.
pub open spec fn discovery_result(s: StoreView, id: Seq<char>, public_ip: Seq<char>) -> Result<
    Seq<DiscoveredView>,
    Error,
> {
    if !s.discoveries.dom().contains(id) {
        Err(Error::NotFound)
    } else {
        let owner = s.discoveries[id];
        let near = near_endpoints(s, owner, public_ip);
        if near.len() > 0 {
            Ok(near)
        } else if s.has_token(owner) {
            Ok(seq![s.record(owner).remote_endpoint()])
        } else {
            Err(Error::NotFound)
        }
    }
}

/// The local endpoint of each record.
fn endpoints(records: &Vec<DomainRecord>) -> (found: Vec<Discovered>)
    ensures
        discovered_views(found@) == local_endpoints(record_views(records@)),
{
    let mut found: Vec<Discovered> = Vec::new();
    let mut i: usize = 0;
    while i < records.len()
        invariant
            i <= records.len(),
            found.len() == i,
            forall|j: int| 0 <= j < i ==> (#[trigger] found[j])@ == records[j]@.local_endpoint(),
        decreases records.len() - i,
    {
        found.push(records[i].local_endpoint());
        i += 1;
    }
    assert(discovered_views(found@) =~= local_endpoints(record_views(records@)));
    found
}

/// The records of `owner` among `records`, in their order.
fn records_of(records: Vec<DomainRecord>, owner: &String) -> (kept: Vec<DomainRecord>)
    ensures
        record_views(kept@) == record_views(records@).filter(owned_by(owner@)),
{
    let ghost all = record_views(records@);
    let mut kept: Vec<DomainRecord> = Vec::new();
    let mut i: usize = 0;
    assert(all.take(0) =~= Seq::empty());
    while i < records.len()
        invariant
            i <= records.len(),
            all == record_views(records@),
            record_views(kept@) =~= all.take(i as int).filter(owned_by(owner@)),
        decreases records.len() - i,
    {
        let ghost before = kept@;
        if records[i].token == *owner {
            kept.push(records[i].clone());
            assert(record_views(kept@) =~= record_views(before).push(all[i as int]));
        }
        proof {
            assert(all.take(i + 1) =~= all.take(i as int).push(all[i as int]));
            all.take(i as int).lemma_filter_push(all[i as int], owned_by(owner@));
        }
        i += 1;
    }
    assert(all.take(i as int) =~= all);
    kept
}

/// Every device seen under the caller's public address, each by its local
/// name. The caller's own device is not left out.
pub fn ping(store: &Store, public_ip: &str) -> (found: Vec<Discovered>)
    ensures
        store@.well_formed(),
        discovered_views(found@) == ping_result(store@, public_ip@),
{
    let records = store.get_records_by_public_ip(public_ip);
    endpoints(&records)
}

/// Binds the discovery identifier `disco` to the device with `token`.
///
/// Fails with `NotFound` where no record has the token, and with
/// `StoreFailure` where the identifier is bound already, to this token or
/// to another. A failure changes nothing.
pub fn adddiscovery(store: &mut Store, token: &str, disco: &str) -> (r: Result<(), Error>)
    ensures
        final(store)@.well_formed(),
        final(store)@ == after_adddiscovery(old(store)@, token@, disco@),
        match r {
            Ok(()) => adddiscovery_error(old(store)@, token@, disco@) is None,
            Err(e) => adddiscovery_error(old(store)@, token@, disco@) == Some(e),
        },
{
    match store.get_record_by_token(token) {
        Ok(_) => match store.add_discovery(token, disco) {
            Ok(()) => Ok(()),
            Err(_) => Err(Error::StoreFailure),
        },
        Err(e) => Err(Error::from_store(e)),
    }
}

/// Unbinds the discovery identifier `disco` in the name of the device with
/// `token`.
///
/// Fails with `NotFound`, and changes nothing, where no record has the
/// token. Any subscribed device may unbind any identifier: whether `disco`
/// is bound to `token`, or bound at all, is not looked at.
pub fn revokediscovery(store: &mut Store, token: &str, disco: &str) -> (r: Result<(), Error>)
    ensures
        final(store)@.well_formed(),
        final(store)@ == after_revokediscovery(old(store)@, token@, disco@),
        r == if old(store)@.has_token(token@) {
            Ok::<(), Error>(())
        } else {
            Err::<(), Error>(Error::NotFound)
        },
{
    match store.get_record_by_token(token) {
        Ok(_) => {
            store.delete_discovery(disco);
            Ok(())
        },
        Err(e) => Err(Error::from_store(e)),
    }
}

/// Where the caller, seen under `public_ip`, reaches the device that
/// published the discovery identifier `disco`.
///
/// The identifier is resolved to its owner's token. The owner's records
/// among those seen under the caller's address are answered by their local
/// names. Where there is none, the owner is on another network and the
/// answer is its public name. Fails with `NotFound` where the identifier
/// is not bound, or the owner has no record left.
pub fn discovery(store: &Store, disco: &str, public_ip: &str) -> (r: Result<Vec<Discovered>, Error>)
    ensures
        store@.well_formed(),
        match r {
            Ok(found) => discovery_result(store@, disco@, public_ip@) == Ok::<
                Seq<DiscoveredView>,
                Error,
            >(discovered_views(found@)),
            Err(e) => discovery_result(store@, disco@, public_ip@) == Err::<
                Seq<DiscoveredView>,
                Error,
            >(e),
        },
{
    match store.get_token_for_discovery(disco) {
        Ok(token) => {
            let records = store.get_records_by_public_ip(public_ip);
            let results = endpoints(&records_of(records, &token));
            if results.len() == 0 {
                match store.get_record_by_token(token.as_str()) {
                    Ok(record) => {
                        let mut result: Vec<Discovered> = Vec::new();
                        result.push(record.remote_endpoint());
                        assert(discovered_views(result@) =~= seq![
                            store@.record(token@).remote_endpoint(),
                        ]);
                        Ok(result)
                    },
                    Err(_) => Err(Error::NotFound),
                }
            } else {
                Ok(results)
            }
        },
        Err(e) => Err(Error::from_store(e)),
    }
}

} // verus!
