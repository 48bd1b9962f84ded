//! The life of a record: a device subscribes under a name, registers its
//! addresses, sets its challenge, and in the end unsubscribes.
//!
//! Every change of a record loads it, rewrites the fields that the
//! operation is about and stores it whole, so that what another operation
//! wrote earlier is kept. An operation holds the store exclusively from its
//! load to its write: two changes of one record never interleave.

use crate::config::Config;
use crate::error::Error;
use crate::record::{DomainRecord, RecordView};
use crate::store::{Store, StoreError, StoreView};
use crate::text::{lowercase, lowercased, opt_str_view, opt_view};
use crate::token::{is_token_text, mint_token};
use vstd::prelude::*;
use vstd::string::*;

verus! {

/// The public name of the device called `name` under `domain`:
/// `name.box.domain.`, in lower case.
pub open spec fn remote_name_of(name: Seq<char>, domain: Seq<char>) -> Seq<char> {
    lowercased(name + ".box."@ + domain + "."@)
}

/// The local name that goes with a public name.
pub open spec fn local_name_of(remote_name: Seq<char>) -> Seq<char> {
    "local."@ + remote_name
}

/// The label of a device that gave none.
pub open spec fn default_description(name: Seq<char>) -> Seq<char> {
    name + "'s server"@
}

/// The record of a device that has just subscribed: no challenge, no
/// addresses, no email, and time 0.
pub open spec fn fresh_record(
    token: Seq<char>,
    name: Seq<char>,
    domain: Seq<char>,
    desc: Option<Seq<char>>,
) -> RecordView {
    RecordView {
        token: token,
        local_name: local_name_of(remote_name_of(name, domain)),
        remote_name: remote_name_of(name, domain),
        dns_challenge: None,
        local_ip: None,
        public_ip: None,
        description: match desc {
            Some(d) => d,
            None => default_description(name),
        },
        email: None,
        timestamp: 0,
    }
}

/// Why a subscription under `name` with `token` fails in `s`, if it does.
pub open spec fn subscribe_error(
    s: StoreView,
    name: Seq<char>,
    domain: Seq<char>,
    token: Seq<char>,
) -> Option<Error> {
    if s.has_name(remote_name_of(name, domain)) {
        Some(Error::NameUnavailable)
    } else if s.has_token(token) {
        Some(Error::StoreFailure)
    } else {
        None
    }
}

/// Whether a token of the form in which tokens are minted names a record
/// of `s`. Only then can a newly minted token be in use.
pub open spec fn holds_minted_token(s: StoreView) -> bool {
    exists|token: Seq<char>| is_token_text(token) && #[trigger] s.has_token(token)
}

/// The store after a subscription under `name` with `token`.
pub open spec fn after_subscribe(
    s: StoreView,
    name: Seq<char>,
    domain: Seq<char>,
    desc: Option<Seq<char>>,
    token: Seq<char>,
) -> StoreView {
    if subscribe_error(s, name, domain, token) is None {
        s.insert(fresh_record(token, name, domain, desc))
    } else {
        s
    }
}

/// The store after a registration with `token`.
pub open spec fn after_register(
    s: StoreView,
    token: Seq<char>,
    local_ip: Seq<char>,
    public_ip: Seq<char>,
    timestamp: int,
) -> StoreView {
    if s.has_token(token) {
        s.replace(s.record(token).registered(local_ip, public_ip, timestamp))
    } else {
        s
    }
}

/// The store after the challenge of `token` was set.
pub open spec fn after_dnsconfig(s: StoreView, token: Seq<char>, challenge: Seq<char>) -> StoreView {
    if s.has_token(token) {
        s.replace(s.record(token).challenged(challenge))
    } else {
        s
    }
}

/// The store after `token` unsubscribed.
pub open spec fn after_unsubscribe(s: StoreView, token: Seq<char>) -> StoreView {
    s.remove(token)
}

/// The challenge published for a public name: that of the first record
/// with this name, and the empty text where there is no such record or it
/// has no challenge.
pub open spec fn challenge_of(s: StoreView, remote_name: Seq<char>) -> Seq<char> {
    if s.has_name(remote_name) {
        match s.named(remote_name).dns_challenge {
            Some(challenge) => challenge,
            None => Seq::empty(),
        }
    } else {
        Seq::empty()
    }
}

/// The addresses published for a public name, local and public: those of
/// the first record with this name, and none where there is no such
/// record.
pub open spec fn addresses_of(s: StoreView, remote_name: Seq<char>) -> (
    Option<Seq<char>>,
    Option<Seq<char>>,
) {
    if s.has_name(remote_name) {
        (s.named(remote_name).local_ip, s.named(remote_name).public_ip)
    } else {
        (None, None)
    }
}

/// What a new subscriber is told: the name it asked for, as it wrote it,
/// and its token.
#[derive(Debug, PartialEq, Eq)]
pub struct NameAndToken {
    pub name: String,
    pub token: String,
}

/// The public name of the device called `name`.
pub fn domain_for_name(name: &str, config: &Config) -> (full_name: String)
    ensures
        full_name@ == remote_name_of(name@, config.domain@),
{
    let written = String::from_str(name).concat(".box.").concat(config.domain.as_str()).concat(".");
    lowercase(written.as_str())
}

/// Stores the record of a new subscriber whose public name is free.
fn enrol(
    store: &mut Store,
    config: &Config,
    name: &str,
    full_name: &str,
    desc: Option<&str>,
    token: &str,
) -> (r: Result<NameAndToken, Error>)
    requires
        full_name@ == remote_name_of(name@, config.domain@),
        !old(store)@.has_name(full_name@),
    ensures
        final(store)@.well_formed(),
        final(store)@ == after_subscribe(
            old(store)@,
            name@,
            config.domain@,
            opt_str_view(desc),
            token@,
        ),
        match r {
            Ok(told) => subscribe_error(old(store)@, name@, config.domain@, token@) is None
                && told.name@ == name@ && told.token@ == token@ && final(store)@.has_token(token@)
                && final(store)@.record(token@) == fresh_record(
                token@,
                name@,
                config.domain@,
                opt_str_view(desc),
            ),
            Err(e) => subscribe_error(old(store)@, name@, config.domain@, token@) == Some(e)
                && final(store)@ == old(store)@,
        },
{
    let local_name = String::from_str("local.").concat(full_name);
    let description = match desc {
        Some(d) => String::from_str(d),
        None => String::from_str(name).concat("'s server"),
    };
    let record = DomainRecord::new(
        token,
        local_name.as_str(),
        full_name,
        None,
        None,
        None,
        description.as_str(),
        None,
        0,
    );
    assert(record@ == fresh_record(token@, name@, config.domain@, opt_str_view(desc)));
    proof {
        use_type_invariant(&*store);
        store.lemma_well_formed();
        if !store@.has_token(token@) {
            store@.lemma_insert(record@, token@);
        }
    }
    match store.add_record(record) {
        Ok(()) => Ok(NameAndToken { name: String::from_str(name), token: String::from_str(token) }),
        Err(_) => Err(Error::StoreFailure),
    }
}

/// Subscribes a device under `name` with a token that the caller supplies.
///
/// Fails with `NameUnavailable` where the public name of `name` is taken,
/// and with `StoreFailure` where the name is free and the token is not.
/// Otherwise a record with no addresses, no challenge and time 0 is stored
/// after those already there, labelled `desc` or, without one, `name`
/// followed by `'s server`.
pub fn subscribe_with_token(
    store: &mut Store,
    config: &Config,
    name: &str,
    desc: Option<&str>,
    token: &str,
) -> (r: Result<NameAndToken, Error>)
    ensures
        final(store)@.well_formed(),
        final(store)@ == after_subscribe(
            old(store)@,
            name@,
            config.domain@,
            opt_str_view(desc),
            token@,
        ),
        match r {
            Ok(told) => subscribe_error(old(store)@, name@, config.domain@, token@) is None
                && told.name@ == name@ && told.token@ == token@ && final(store)@.has_token(token@)
                && final(store)@.record(token@) == fresh_record(
                token@,
                name@,
                config.domain@,
                opt_str_view(desc),
            ),
            Err(e) => subscribe_error(old(store)@, name@, config.domain@, token@) == Some(e)
                && final(store)@ == old(store)@,
        },
{
    let full_name = domain_for_name(name, config);
    match store.get_record_by_name(full_name.as_str()) {
        Ok(_) => Err(Error::NameUnavailable),
        Err(StoreError::NoRecord) => enrol(store, config, name, full_name.as_str(), desc, token),
        Err(_) => Err(Error::StoreFailure),
    }
}

/// Subscribes a device under `name` and mints its token.
///
/// Where the public name of `name` is taken, this fails with
/// `NameUnavailable` and no token is minted. Otherwise the outcome is that
/// of [`subscribe_with_token`] for the token that was minted: on success
/// the caller is told that token, and a failure is a `StoreFailure`, which
/// means that the token was in use. A store that holds no token of the
/// minted form cannot fail so.
pub fn subscribe(store: &mut Store, config: &Config, name: &str, desc: Option<&str>) -> (r: Result<
    NameAndToken,
    Error,
>)
    ensures
        final(store)@.well_formed(),
        match r {
            Ok(told) => is_token_text(told.token@) && told.name@ == name@ && subscribe_error(
                old(store)@,
                name@,
                config.domain@,
                told.token@,
            ) is None && final(store)@ == after_subscribe(
                old(store)@,
                name@,
                config.domain@,
                opt_str_view(desc),
                told.token@,
            ) && final(store)@.has_token(told.token@) && final(store)@.record(told.token@)
                == fresh_record(told.token@, name@, config.domain@, opt_str_view(desc)),
            Err(e) => final(store)@ == old(store)@ && (e == Error::NameUnavailable
                || e == Error::StoreFailure) && (e == Error::NameUnavailable <==> old(
                store,
            )@.has_name(remote_name_of(name@, config.domain@))) && (e == Error::StoreFailure
                ==> holds_minted_token(old(store)@)),
        },
{
    let full_name = domain_for_name(name, config);
    match store.get_record_by_name(full_name.as_str()) {
        Ok(_) => Err(Error::NameUnavailable),
        Err(StoreError::NoRecord) => {
            let token = mint_token();
            let told = enrol(store, config, name, full_name.as_str(), desc, token.as_str());
            assert(told is Err ==> old(store)@.has_token(token@));
            told
        },
        Err(_) => Err(Error::StoreFailure),
    }
}

/// Records the addresses of the device with `token`, and the time.
///
/// Fails with `NotFound`, and changes nothing, where no record has the
/// token. Otherwise the record is stored again with the two addresses and
/// the time replaced and every other field as it was loaded.
pub fn register(
    store: &mut Store,
    token: &str,
    local_ip: &str,
    public_ip: &str,
    timestamp: i64,
) -> (r: Result<(), Error>)
    ensures
        final(store)@.well_formed(),
        final(store)@ == after_register(
            old(store)@,
            token@,
            local_ip@,
            public_ip@,
            timestamp as int,
        ),
        r == if old(store)@.has_token(token@) {
            Ok::<(), Error>(())
        } else {
            Err::<(), Error>(Error::NotFound)
        },
        r is Err ==> final(store)@ == old(store)@,
        r is Ok ==> final(store)@.has_token(token@) && final(store)@.record(token@) == old(
            store,
        )@.record(token@).registered(local_ip@, public_ip@, timestamp as int),
{
    proof {
        use_type_invariant(&*store);
        store.lemma_well_formed();
        if store@.has_token(token@) {
            store@.lemma_position(store@.position(token@));
            store@.lemma_replace(
                store@.record(token@).registered(local_ip@, public_ip@, timestamp as int),
                token@,
            );
        }
    }
    match store.get_record_by_token(token) {
        Ok(record) => {
            let new_record = record.registered(local_ip, public_ip, timestamp);
            match store.update_record(new_record) {
                Ok(()) => Ok(()),
                Err(_) => Err(Error::StoreFailure),
            }
        },
        Err(e) => Err(Error::from_store(e)),
    }
}

/// Sets the challenge of the device with `token`.
///
/// Fails with `NotFound`, and changes nothing, where no record has the
/// token. Otherwise the record is stored again with the challenge replaced
/// and every other field as it was loaded.
pub fn dnsconfig(store: &mut Store, token: &str, challenge: &str) -> (r: Result<(), Error>)
    ensures
        final(store)@.well_formed(),
        final(store)@ == after_dnsconfig(old(store)@, token@, challenge@),
        r == if old(store)@.has_token(token@) {
            Ok::<(), Error>(())
        } else {
            Err::<(), Error>(Error::NotFound)
        },
        r is Err ==> final(store)@ == old(store)@,
        r is Ok ==> final(store)@.has_token(token@) && final(store)@.record(token@) == old(
            store,
        )@.record(token@).challenged(challenge@),
{
    proof {
        use_type_invariant(&*store);
        store.lemma_well_formed();
        if store@.has_token(token@) {
            store@.lemma_position(store@.position(token@));
            store@.lemma_replace(store@.record(token@).challenged(challenge@), token@);
        }
    }
    match store.get_record_by_token(token) {
        Ok(record) => {
            let new_record = record.challenged(challenge);
            match store.update_record(new_record) {
                Ok(()) => Ok(()),
                Err(_) => Err(Error::StoreFailure),
            }
        },
        Err(e) => Err(Error::from_store(e)),
    }
}

/// Deletes the record of the device with `token`.
///
/// Fails with `NotFound` where no record was deleted. Discovery
/// identifiers bound to the token stay bound.
pub fn unsubscribe(store: &mut Store, token: &str) -> (r: Result<(), Error>)
    ensures
        final(store)@.well_formed(),
        final(store)@ == after_unsubscribe(old(store)@, token@),
        r == if old(store)@.has_token(token@) {
            Ok::<(), Error>(())
        } else {
            Err::<(), Error>(Error::NotFound)
        },
        r is Err ==> final(store)@ == old(store)@,
        !final(store)@.has_token(token@),
{
    proof {
        use_type_invariant(&*store);
        store.lemma_well_formed();
        store@.lemma_remove(token@, token@);
    }
    let deleted = store.delete_record_by_token(token);
    if deleted == 0 {
        Err(Error::NotFound)
    } else {
        Ok(())
    }
}

/// The record of the device with `token`, as it is stored.
pub fn info(store: &Store, token: &str) -> (r: Result<DomainRecord, Error>)
    ensures
        store@.well_formed(),
        match r {
            Ok(record) => store@.has_token(token@) && record@ == store@.record(token@),
            Err(e) => e == Error::NotFound && !store@.has_token(token@),
        },
{
    match store.get_record_by_token(token) {
        Ok(record) => Ok(record),
        Err(e) => Err(Error::from_store(e)),
    }
}

/// The challenge published for `remote_name`, read from the store at each
/// call: the empty text where no record has this public name or the record
/// has no challenge.
pub fn lookup_challenge(store: &Store, remote_name: &str) -> (challenge: String)
    ensures
        challenge@ == challenge_of(store@, remote_name@),
{
    match store.get_record_by_name(remote_name) {
        Ok(record) => match record.dns_challenge {
            Some(challenge) => challenge,
            None => String::new(),
        },
        Err(_) => String::new(),
    }
}

/// The addresses published for `remote_name`, local and public, read from
/// the store at each call: none where no record has this public name, or
/// the device has not registered.
pub fn lookup_addresses(store: &Store, remote_name: &str) -> (addresses: (
    Option<String>,
    Option<String>,
))
    ensures
        (opt_view(addresses.0), opt_view(addresses.1)) == addresses_of(store@, remote_name@),
{
    match store.get_record_by_name(remote_name) {
        Ok(record) => (record.local_ip, record.public_ip),
        Err(_) => (None, None),
    }
}

} // verus!
