//! The record kept for each subscribed device, and what a peer is told
//! about a device it has discovered.

use crate::text::{opt_clone, opt_owned, opt_str_view, opt_view, strip_last, without_last};
use vstd::prelude::*;
use vstd::string::*;

verus! {

/// The mathematical content of a [`DomainRecord`].
#[verifier::ext_equal]
pub struct RecordView {
    pub token: Seq<char>,
    pub local_name: Seq<char>,
    pub remote_name: Seq<char>,
    pub dns_challenge: Option<Seq<char>>,
    pub local_ip: Option<Seq<char>>,
    pub public_ip: Option<Seq<char>>,
    pub description: Seq<char>,
    pub email: Option<Seq<char>>,
    pub timestamp: int,
}

/// The mathematical content of a [`Discovered`].
#[verifier::ext_equal]
pub struct DiscoveredView {
    pub href: Seq<char>,
    pub desc: Seq<char>,
}

/// The address under which a name is reached: `https://` and the name
/// without its trailing separator.
pub open spec fn href_of(name: Seq<char>) -> Seq<char> {
    "https://"@ + without_last(name)
}

impl RecordView {
    /// This record after a registration: both addresses and the time are
    /// replaced, every other field is kept.
    pub open spec fn registered(
        self,
        local_ip: Seq<char>,
        public_ip: Seq<char>,
        timestamp: int,
    ) -> RecordView {
        RecordView {
            local_ip: Some(local_ip),
            public_ip: Some(public_ip),
            timestamp: timestamp,
            ..self
        }
    }

    /// This record with a new challenge: only the challenge is replaced.
    pub open spec fn challenged(self, challenge: Seq<char>) -> RecordView {
        RecordView { dns_challenge: Some(challenge), ..self }
    }

    /// What a peer on the same network is told: the local name.
    pub open spec fn local_endpoint(self) -> DiscoveredView {
        DiscoveredView { href: href_of(self.local_name), desc: self.description }
    }

    /// What a peer elsewhere is told: the public name.
    pub open spec fn remote_endpoint(self) -> DiscoveredView {
        DiscoveredView { href: href_of(self.remote_name), desc: self.description }
    }
}

/// One subscribed device.
///
/// `token` is the credential for every later change. `remote_name` is the
/// public name, lower case and ending in a separator; `local_name` is
/// `local.` before it. The addresses are absent and `timestamp` is 0 until
/// the device first registers.
#[derive(Debug, PartialEq, Eq)]
pub struct DomainRecord {
    pub token: String,
    pub local_name: String,
    pub remote_name: String,
    pub dns_challenge: Option<String>,
    pub local_ip: Option<String>,
    pub public_ip: Option<String>,
    pub description: String,
    pub email: Option<String>,
    pub timestamp: i64,
}

impl View for DomainRecord {
    type V = RecordView;

    open spec fn view(&self) -> RecordView {
        RecordView {
            token: self.token@,
            local_name: self.local_name@,
            remote_name: self.remote_name@,
            dns_challenge: opt_view(self.dns_challenge),
            local_ip: opt_view(self.local_ip),
            public_ip: opt_view(self.public_ip),
            description: self.description@,
            email: opt_view(self.email),
            timestamp: self.timestamp as int,
        }
    }
}

impl Clone for DomainRecord {
    fn clone(&self) -> (r: Self)
        ensures
            r == *self,
    {
        DomainRecord {
            token: self.token.clone(),
            local_name: self.local_name.clone(),
            remote_name: self.remote_name.clone(),
            dns_challenge: opt_clone(&self.dns_challenge),
            local_ip: opt_clone(&self.local_ip),
            public_ip: opt_clone(&self.public_ip),
            description: self.description.clone(),
            email: opt_clone(&self.email),
            timestamp: self.timestamp,
        }
    }
}

impl DomainRecord {
    /// A record with exactly the given fields.
    pub fn new(
        token: &str,
        local_name: &str,
        remote_name: &str,
        dns_challenge: Option<&str>,
        local_ip: Option<&str>,
        public_ip: Option<&str>,
        description: &str,
        email: Option<&str>,
        timestamp: i64,
    ) -> (r: DomainRecord)
        ensures
            r@ == (RecordView {
                token: token@,
                local_name: local_name@,
                remote_name: remote_name@,
                dns_challenge: opt_str_view(dns_challenge),
                local_ip: opt_str_view(local_ip),
                public_ip: opt_str_view(public_ip),
                description: description@,
                email: opt_str_view(email),
                timestamp: timestamp as int,
            }),
    {
        DomainRecord {
            token: String::from_str(token),
            local_name: String::from_str(local_name),
            remote_name: String::from_str(remote_name),
            dns_challenge: opt_owned(dns_challenge),
            local_ip: opt_owned(local_ip),
            public_ip: opt_owned(public_ip),
            description: String::from_str(description),
            email: opt_owned(email),
            timestamp,
        }
    }

    /// The record to store after a registration: the loaded record with
    /// its addresses and time replaced and every other field carried over.
    pub fn registered(&self, local_ip: &str, public_ip: &str, timestamp: i64) -> (r: DomainRecord)
        ensures
            r@ == self@.registered(local_ip@, public_ip@, timestamp as int),
    {
        DomainRecord {
            token: self.token.clone(),
            local_name: self.local_name.clone(),
            remote_name: self.remote_name.clone(),
            dns_challenge: opt_clone(&self.dns_challenge),
            local_ip: Some(String::from_str(local_ip)),
            public_ip: Some(String::from_str(public_ip)),
            description: self.description.clone(),
            email: opt_clone(&self.email),
            timestamp,
        }
    }

    /// The record to store after a challenge was set: the loaded record
    /// with its challenge replaced and every other field carried over.
    pub fn challenged(&self, challenge: &str) -> (r: DomainRecord)
        ensures
            r@ == self@.challenged(challenge@),
    {
        DomainRecord {
            token: self.token.clone(),
            local_name: self.local_name.clone(),
            remote_name: self.remote_name.clone(),
            dns_challenge: Some(String::from_str(challenge)),
            local_ip: opt_clone(&self.local_ip),
            public_ip: opt_clone(&self.public_ip),
            description: self.description.clone(),
            email: opt_clone(&self.email),
            timestamp: self.timestamp,
        }
    }

    /// How a peer on the same network reaches this device.
    pub fn local_endpoint(&self) -> (d: Discovered)
        ensures
            d@ == self@.local_endpoint(),
    {
        Discovered { href: href(self.local_name.as_str()), desc: self.description.clone() }
    }

    /// How a peer on another network reaches this device.
    pub fn remote_endpoint(&self) -> (d: Discovered)
        ensures
            d@ == self@.remote_endpoint(),
    {
        Discovered { href: href(self.remote_name.as_str()), desc: self.description.clone() }
    }
}

/// The address under which `name` is reached.
pub fn href(name: &str) -> (r: String)
    ensures
        r@ == href_of(name@),
{
    let host = strip_last(name);
    String::from_str("https://").concat(host.as_str())
}

/// What a peer learns of a device: where to reach it, and its label.
#[derive(Debug, PartialEq, Eq)]
pub struct Discovered {
    pub href: String,
    pub desc: String,
}

impl View for Discovered {
    type V = DiscoveredView;

    open spec fn view(&self) -> DiscoveredView {
        DiscoveredView { href: self.href@, desc: self.desc@ }
    }
}

impl Clone for Discovered {
    fn clone(&self) -> (r: Self)
        ensures
            r == *self,
    {
        Discovered { href: self.href.clone(), desc: self.desc.clone() }
    }
}

} // verus!
