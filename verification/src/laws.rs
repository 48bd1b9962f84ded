//! What holds of the registry whatever it stores: laws that relate its
//! operations to each other, each proved from the operations' own
//! contracts.
//!
//! The laws speak of the contents of a store and of the `after_..`
//! functions by which the operations say what they leave behind.

use crate::discovery::{
    adddiscovery_error, after_adddiscovery, after_revokediscovery, discovery_result,
    near_endpoints, owned_by, ping_result,
};
use crate::error::Error;
use crate::lifecycle::{
    addresses_of, after_dnsconfig, after_register, after_subscribe, after_unsubscribe,
    challenge_of, fresh_record, holds_minted_token, remote_name_of, subscribe_error,
};
use crate::record::{DiscoveredView, RecordView};
use crate::store::{at_ip, StoreView};
use vstd::prelude::*;

verus! {

/// A name is subscribed once: after a subscription under `name` has
/// succeeded, a subscription that leads to the same public name fails with
/// `NameUnavailable`, whatever its token and label. This holds of `name`
/// itself, and of every other way to write it that differs only in what
/// lower-casing removes.
pub proof fn law_subscribed_name_is_taken(
    s: StoreView,
    name: Seq<char>,
    domain: Seq<char>,
    desc: Option<Seq<char>>,
    token: Seq<char>,
    later_name: Seq<char>,
    later_token: Seq<char>,
)
    requires
        subscribe_error(s, name, domain, token) is None,
        remote_name_of(later_name, domain) == remote_name_of(name, domain),
    ensures
        subscribe_error(
            after_subscribe(s, name, domain, desc, token),
            later_name,
            domain,
            later_token,
        ) == Some(Error::NameUnavailable),
        subscribe_error(after_subscribe(s, name, domain, desc, token), name, domain, later_token)
            == Some(Error::NameUnavailable),
{
    let after = after_subscribe(s, name, domain, desc, token);
    let last = s.records.len() as int;
    assert(after.records[last].remote_name == remote_name_of(name, domain));
}

/// The first subscription succeeds: in a store without records no name is
/// taken and no token is in use, whatever token is minted.
pub proof fn law_first_subscription_succeeds(
    name: Seq<char>,
    domain: Seq<char>,
    token: Seq<char>,
)
    ensures
        subscribe_error(StoreView::empty(), name, domain, token) is None,
        !holds_minted_token(StoreView::empty()),
{
}

/// A subscription stores the subscriber's record under its token, and
/// leaves the store well formed.
pub proof fn law_subscriber_is_known(
    s: StoreView,
    name: Seq<char>,
    domain: Seq<char>,
    desc: Option<Seq<char>>,
    token: Seq<char>,
)
    requires
        s.well_formed(),
        subscribe_error(s, name, domain, token) is None,
    ensures
        after_subscribe(s, name, domain, desc, token).well_formed(),
        after_subscribe(s, name, domain, desc, token).has_token(token),
        after_subscribe(s, name, domain, desc, token).record(token) == fresh_record(
            token,
            name,
            domain,
            desc,
        ),
{
    s.lemma_insert(fresh_record(token, name, domain, desc), token);
}

/// An unknown token changes nothing: where no record has the token, a
/// registration, the setting of a challenge and the end of a subscription
/// leave the store as it was, as do the binding and the unbinding of a
/// discovery identifier in the token's name.
pub proof fn law_unknown_token_changes_nothing(
    s: StoreView,
    token: Seq<char>,
    challenge: Seq<char>,
    local_ip: Seq<char>,
    public_ip: Seq<char>,
    timestamp: int,
    id: Seq<char>,
)
    requires
        !s.has_token(token),
    ensures
        after_register(s, token, local_ip, public_ip, timestamp) == s,
        after_dnsconfig(s, token, challenge) == s,
        after_unsubscribe(s, token) == s,
        after_adddiscovery(s, token, id) == s,
        adddiscovery_error(s, token, id) == Some(Error::NotFound),
        after_revokediscovery(s, token, id) == s,
{
}

/// No update is lost to a registration: after a challenge was set and the
/// device then registered, the record holds the challenge, the addresses
/// and the time.
pub proof fn law_registration_keeps_challenge(
    s: StoreView,
    token: Seq<char>,
    challenge: Seq<char>,
    local_ip: Seq<char>,
    public_ip: Seq<char>,
    timestamp: int,
)
    requires
        s.well_formed(),
        s.has_token(token),
    ensures
        ({
            let end = after_register(
                after_dnsconfig(s, token, challenge),
                token,
                local_ip,
                public_ip,
                timestamp,
            );
            &&& end.well_formed()
            &&& end.has_token(token)
            &&& end.record(token) == s.record(token).challenged(challenge).registered(
                local_ip,
                public_ip,
                timestamp,
            )
            &&& end.record(token).dns_challenge == Some(challenge)
        }),
{
    let challenged = s.record(token).challenged(challenge);
    let mid = after_dnsconfig(s, token, challenge);
    s.lemma_position(s.position(token));
    s.lemma_replace(challenged, token);
    mid.lemma_replace(challenged.registered(local_ip, public_ip, timestamp), token);
}

/// No update is lost to a challenge: after the device registered and a
/// challenge was then set, the record holds the addresses, the time and
/// the challenge.
pub proof fn law_challenge_keeps_addresses(
    s: StoreView,
    token: Seq<char>,
    challenge: Seq<char>,
    local_ip: Seq<char>,
    public_ip: Seq<char>,
    timestamp: int,
)
    requires
        s.well_formed(),
        s.has_token(token),
    ensures
        ({
            let end = after_dnsconfig(
                after_register(s, token, local_ip, public_ip, timestamp),
                token,
                challenge,
            );
            &&& end.well_formed()
            &&& end.has_token(token)
            &&& end.record(token) == s.record(token).registered(
                local_ip,
                public_ip,
                timestamp,
            ).challenged(challenge)
            &&& end.record(token).local_ip == Some(local_ip)
            &&& end.record(token).public_ip == Some(public_ip)
            &&& end.record(token).timestamp == timestamp
        }),
{
    let registered = s.record(token).registered(local_ip, public_ip, timestamp);
    let mid = after_register(s, token, local_ip, public_ip, timestamp);
    s.lemma_position(s.position(token));
    s.lemma_replace(registered, token);
    mid.lemma_replace(registered.challenged(challenge), token);
}

/// A registration and the setting of a challenge touch one record: every
/// other record stays as it was, no record comes or goes, and no binding
/// changes.
pub proof fn law_updates_touch_one_record(
    s: StoreView,
    token: Seq<char>,
    challenge: Seq<char>,
    local_ip: Seq<char>,
    public_ip: Seq<char>,
    timestamp: int,
    other: Seq<char>,
)
    requires
        s.well_formed(),
        other != token,
    ensures
        ({
            let registered = after_register(s, token, local_ip, public_ip, timestamp);
            let challenged = after_dnsconfig(s, token, challenge);
            &&& registered.has_token(other) == s.has_token(other)
            &&& challenged.has_token(other) == s.has_token(other)
            &&& s.has_token(other) ==> registered.record(other) == s.record(other)
                && challenged.record(other) == s.record(other)
            &&& registered.discoveries == s.discoveries
            &&& challenged.discoveries == s.discoveries
        }),
{
    if s.has_token(token) {
        s.lemma_position(s.position(token));
        s.lemma_replace(s.record(token).registered(local_ip, public_ip, timestamp), other);
        s.lemma_replace(s.record(token).challenged(challenge), other);
    }
}

/// After a device unsubscribed, its token is unknown: `info` on it fails
/// with `NotFound`. Every other record stays as it was.
pub proof fn law_unsubscribed_is_unknown(s: StoreView, token: Seq<char>, other: Seq<char>)
    requires
        s.well_formed(),
    ensures
        after_unsubscribe(s, token).well_formed(),
        !after_unsubscribe(s, token).has_token(token),
        other != token ==> after_unsubscribe(s, token).has_token(other) == s.has_token(other),
        other != token && s.has_token(other) ==> after_unsubscribe(s, token).record(other)
            == s.record(other),
{
    s.lemma_remove(token, token);
    s.lemma_remove(token, other);
}

/// Whether `answer` is the local endpoint of a record of `s` whose public
/// address is `public_ip`.
pub open spec fn answers_for(s: StoreView, public_ip: Seq<char>, answer: DiscoveredView) -> bool {
    exists|i: int|
        0 <= i < s.records.len() && (#[trigger] s.records[i]).public_ip == Some(public_ip)
            && answer == s.records[i].local_endpoint()
}

/// A ping is answered with exactly the devices seen under the caller's
/// address: what is answered is the local endpoint of a record with that
/// public address, and each such record is answered.
pub proof fn law_ping_is_exact(s: StoreView, public_ip: Seq<char>)
    ensures
        forall|answer: DiscoveredView|
            #[trigger] ping_result(s, public_ip).contains(answer) <==> answers_for(
                s,
                public_ip,
                answer,
            ),
{
    let pred = at_ip(public_ip);
    let kept = s.records.filter(pred);
    let found = ping_result(s, public_ip);
    assert forall|answer: DiscoveredView| #[trigger] found.contains(answer) implies answers_for(
        s,
        public_ip,
        answer,
    ) by {
        let k = choose|k: int| 0 <= k < found.len() && found[k] == answer;
        s.records.lemma_filter_pred(pred, k);
        assert(kept.contains(kept[k]));
        s.records.lemma_filter_contains_rev(pred, kept[k]);
        let i = choose|i: int| 0 <= i < s.records.len() && s.records[i] == kept[k];
        assert(s.records[i].public_ip == Some(public_ip));
    }
    assert forall|answer: DiscoveredView| answers_for(s, public_ip, answer) implies (
    #[trigger] found.contains(answer)) by {
        let i = choose|i: int|
            0 <= i < s.records.len() && (#[trigger] s.records[i]).public_ip == Some(public_ip)
                && answer == s.records[i].local_endpoint();
        s.records.lemma_filter_contains(pred, i);
        let k = choose|k: int| 0 <= k < kept.len() && kept[k] == s.records[i];
        assert(found[k] == answer);
    }
}

/// Among the records seen under one address, those of `owner` are the
/// owner's one record if it is seen there, and none otherwise.
proof fn lemma_near(s: StoreView, owner: Seq<char>, public_ip: Seq<char>)
    requires
        s.well_formed(),
    ensures
        s.at_public_ip(public_ip).filter(owned_by(owner)) == if s.has_token(owner) && s.record(
            owner,
        ).public_ip == Some(public_ip) {
            seq![s.record(owner)]
        } else {
            Seq::<RecordView>::empty()
        },
    decreases s.records.len(),
{
    let seen = at_ip(public_ip);
    let owned = owned_by(owner);
    if s.records.len() == 0 {
        reveal(Seq::filter);
        assert(s.records.filter(seen) =~= Seq::<RecordView>::empty());
        assert(Seq::<RecordView>::empty().filter(owned) =~= Seq::<RecordView>::empty());
    } else {
        let init = s.records.drop_last();
        let last = s.records.last();
        let rest = StoreView { records: init, ..s };
        assert(s.records =~= init.push(last));
        assert forall|i: int, j: int| 0 <= i < j < init.len() implies (#[trigger] init[i]).token
            != (#[trigger] init[j]).token by {
            assert(s.records[i].token != s.records[j].token);
        }
        lemma_near(rest, owner, public_ip);
        init.lemma_filter_push(last, seen);
        init.filter(seen).lemma_filter_push(last, owned);
        s.lemma_position(s.records.len() - 1);
        if last.token == owner {
            if rest.has_token(owner) {
                let p = rest.position(owner);
                assert(s.records[p].token == owner);
            }
            assert(s.at_public_ip(public_ip).filter(owned) =~= if seen(last) {
                seq![last]
            } else {
                Seq::<RecordView>::empty()
            });
        } else {
            if rest.has_token(owner) {
                let p = rest.position(owner);
                assert(s.records[p] == init[p]);
                s.lemma_position(p);
                rest.lemma_position(p);
            }
            if s.has_token(owner) {
                let p = s.position(owner);
                assert(init[p] == s.records[p]);
                rest.lemma_position(p);
            }
        }
    }
}

/// A discovery has one answer. An identifier that is not bound, or whose
/// owner has no record, is `NotFound`. A caller seen under the owner's
/// public address is sent to the owner's local name, and any other caller
/// to its public name.
pub proof fn law_discovery_finds_the_owner(s: StoreView, id: Seq<char>, public_ip: Seq<char>)
    requires
        s.well_formed(),
    ensures
        discovery_result(s, id, public_ip) == if !s.discoveries.dom().contains(id)
            || !s.has_token(s.discoveries[id]) {
            Err::<Seq<DiscoveredView>, Error>(Error::NotFound)
        } else if s.record(s.discoveries[id]).public_ip == Some(public_ip) {
            Ok::<Seq<DiscoveredView>, Error>(seq![s.record(s.discoveries[id]).local_endpoint()])
        } else {
            Ok::<Seq<DiscoveredView>, Error>(seq![s.record(s.discoveries[id]).remote_endpoint()])
        },
{
    if s.discoveries.dom().contains(id) {
        let owner = s.discoveries[id];
        lemma_near(s, owner, public_ip);
        if s.has_token(owner) && s.record(owner).public_ip == Some(public_ip) {
            assert(near_endpoints(s, owner, public_ip) =~= seq![s.record(owner).local_endpoint()]);
        } else {
            assert(near_endpoints(s, owner, public_ip) =~= Seq::<DiscoveredView>::empty());
        }
    }
}

/// A revoked identifier is unknown: after a subscribed device revoked
/// `id`, a discovery through `id` fails with `NotFound`, whoever asks.
pub proof fn law_revoked_is_unknown(
    s: StoreView,
    token: Seq<char>,
    id: Seq<char>,
    public_ip: Seq<char>,
)
    requires
        s.has_token(token),
    ensures
        discovery_result(after_revokediscovery(s, token, id), id, public_ip) == Err::<
            Seq<DiscoveredView>,
            Error,
        >(Error::NotFound),
{
}

/// An identifier is bound to one token: once `token` has bound `id`, the
/// identifier leads to `token`, and a later attempt to bind it, in
/// whoever's name, fails and changes nothing.
pub proof fn law_bound_identifier_has_one_owner(
    s: StoreView,
    token: Seq<char>,
    id: Seq<char>,
    later_token: Seq<char>,
)
    requires
        adddiscovery_error(s, token, id) is None,
    ensures
        ({
            let bound = after_adddiscovery(s, token, id);
            &&& bound.discoveries.dom().contains(id)
            &&& bound.discoveries[id] == token
            &&& bound.records == s.records
            &&& adddiscovery_error(bound, later_token, id) is Some
            &&& after_adddiscovery(bound, later_token, id) == bound
        }),
{
}

/// Public names stay unique: no operation on records makes two records
/// share a public name.
pub proof fn law_names_stay_unique(
    s: StoreView,
    name: Seq<char>,
    domain: Seq<char>,
    desc: Option<Seq<char>>,
    token: Seq<char>,
    challenge: Seq<char>,
    local_ip: Seq<char>,
    public_ip: Seq<char>,
    timestamp: int,
)
    requires
        s.well_formed(),
        s.names_unique(),
    ensures
        after_subscribe(s, name, domain, desc, token).names_unique(),
        after_register(s, token, local_ip, public_ip, timestamp).names_unique(),
        after_dnsconfig(s, token, challenge).names_unique(),
        after_unsubscribe(s, token).names_unique(),
{
    let subscribed = after_subscribe(s, name, domain, desc, token);
    assert forall|i: int, j: int| 0 <= i < j < subscribed.records.len() implies (
    #[trigger] subscribed.records[i]).remote_name != (
    #[trigger] subscribed.records[j]).remote_name by {
        if subscribe_error(s, name, domain, token) is None {
            assert(subscribed.records[i] == s.records[i]);
            if j < s.records.len() {
                assert(subscribed.records[j] == s.records[j]);
            }
        }
    }
    if s.has_token(token) {
        let at = s.position(token);
        let registered = after_register(s, token, local_ip, public_ip, timestamp);
        assert forall|i: int, j: int| 0 <= i < j < registered.records.len() implies (
        #[trigger] registered.records[i]).remote_name != (
        #[trigger] registered.records[j]).remote_name by {
            assert(registered.records[i].remote_name == s.records[i].remote_name);
            assert(registered.records[j].remote_name == s.records[j].remote_name);
        }
        let challenged = after_dnsconfig(s, token, challenge);
        assert forall|i: int, j: int| 0 <= i < j < challenged.records.len() implies (
        #[trigger] challenged.records[i]).remote_name != (
        #[trigger] challenged.records[j]).remote_name by {
            assert(challenged.records[i].remote_name == s.records[i].remote_name);
            assert(challenged.records[j].remote_name == s.records[j].remote_name);
        }
        let removed = after_unsubscribe(s, token);
        assert forall|i: int, j: int| 0 <= i < j < removed.records.len() implies (
        #[trigger] removed.records[i]).remote_name != (
        #[trigger] removed.records[j]).remote_name by {
            let a = if i < at { i } else { i + 1 };
            let b = if j < at { j } else { j + 1 };
            assert(removed.records[i] == s.records[a]);
            assert(removed.records[j] == s.records[b]);
        }
    }
}

/// In a store whose public names are unique, the record found under the
/// public name of a record is that record.
proof fn lemma_named(s: StoreView, at: int)
    requires
        s.names_unique(),
        0 <= at < s.records.len(),
    ensures
        s.has_name(s.records[at].remote_name),
        s.named(s.records[at].remote_name) == s.records[at],
{
    let name = s.records[at].remote_name;
    assert forall|j: int| 0 <= j < at implies (#[trigger] s.records[j]).remote_name != name by {
        assert(s.records[j].remote_name != s.records[at].remote_name);
    }
    assert(s.is_first_named(name, at));
    let first = choose|i: int| s.is_first_named(name, i);
    if first != at {
        assert(s.records[first].remote_name != s.records[at].remote_name);
    }
}

/// What is looked up is what was last written: once the challenge of a
/// device is set, looking up its public name gives that challenge, and
/// once the device has registered, looking up its public name gives the
/// addresses it registered.
pub proof fn law_lookups_are_current(
    s: StoreView,
    token: Seq<char>,
    challenge: Seq<char>,
    local_ip: Seq<char>,
    public_ip: Seq<char>,
    timestamp: int,
)
    requires
        s.well_formed(),
        s.names_unique(),
        s.has_token(token),
    ensures
        challenge_of(after_dnsconfig(s, token, challenge), s.record(token).remote_name)
            == challenge,
        addresses_of(
            after_register(s, token, local_ip, public_ip, timestamp),
            s.record(token).remote_name,
        ) == (Some(local_ip), Some(public_ip)),
{
    let at = s.position(token);
    let challenged = after_dnsconfig(s, token, challenge);
    let registered = after_register(s, token, local_ip, public_ip, timestamp);
    law_names_stay_unique(
        s,
        Seq::empty(),
        Seq::empty(),
        None,
        token,
        challenge,
        local_ip,
        public_ip,
        timestamp,
    );
    lemma_named(challenged, at);
    lemma_named(registered, at);
}

} // verus!
