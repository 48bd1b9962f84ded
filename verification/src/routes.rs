//! The registry as it is served: the table of routes, which parameters
//! each operation cannot do without, and the response that reports its
//! outcome.
//!
//! The transport decodes a request into a [`Query`], the caller's public
//! address and the time, and encodes the [`Response`]; all that is decided
//! in between is decided here.

use crate::config::Config;
use crate::discovery::{
    adddiscovery, adddiscovery_error, after_adddiscovery, after_revokediscovery, discovered_views,
    discovery, discovery_result, ping, ping_result, revokediscovery,
};
use crate::error::Error;
use crate::lifecycle::{
    after_dnsconfig, after_register, after_subscribe, after_unsubscribe, dnsconfig,
    holds_minted_token, info, register, remote_name_of, subscribe, subscribe_error, unsubscribe,
    NameAndToken,
};
use crate::record::{Discovered, DiscoveredView, DomainRecord, RecordView};
use crate::store::{Store, StoreView};
use crate::text::opt_view;
use crate::token::is_token_text;
use vstd::prelude::*;

verus! {

/// The operations of the registry.
#[derive(Clone, Copy, Debug, PartialEq, Eq, Structural)]
pub enum Operation {
    Register,
    Info,
    Subscribe,
    Unsubscribe,
    Dnsconfig,
    Ping,
    Adddiscovery,
    Revokediscovery,
    Discovery,
}

/// What a route leads to: an operation of the registry, or the bridge that
/// answers the DNS server.
#[derive(Clone, Copy, Debug, PartialEq, Eq, Structural)]
pub enum Route {
    Serve(Operation),
    Pdns,
}

/// The routes of a registry, in the order in which they are mounted. The
/// bridge is among them where it is served over HTTP.
pub open spec fn route_table(bridge_over_http: bool) -> Seq<Route> {
    let operations = seq![
        Route::Serve(Operation::Register),
        Route::Serve(Operation::Info),
        Route::Serve(Operation::Subscribe),
        Route::Serve(Operation::Unsubscribe),
        Route::Serve(Operation::Dnsconfig),
        Route::Serve(Operation::Ping),
        Route::Serve(Operation::Adddiscovery),
        Route::Serve(Operation::Revokediscovery),
        Route::Serve(Operation::Discovery),
    ];
    if bridge_over_http {
        operations.push(Route::Pdns)
    } else {
        operations
    }
}

/// The path of a route, which is also its name.
pub open spec fn route_name(route: Route) -> Seq<char> {
    match route {
        Route::Serve(Operation::Register) => "register"@,
        Route::Serve(Operation::Info) => "info"@,
        Route::Serve(Operation::Subscribe) => "subscribe"@,
        Route::Serve(Operation::Unsubscribe) => "unsubscribe"@,
        Route::Serve(Operation::Dnsconfig) => "dnsconfig"@,
        Route::Serve(Operation::Ping) => "ping"@,
        Route::Serve(Operation::Adddiscovery) => "adddiscovery"@,
        Route::Serve(Operation::Revokediscovery) => "revokediscovery"@,
        Route::Serve(Operation::Discovery) => "discovery"@,
        Route::Pdns => "pdns"@,
    }
}

impl Route {
    /// The path under which this route is mounted, and its name.
    pub fn name(&self) -> (name: &'static str)
        ensures
            name@ == route_name(*self),
    {
        match self {
            Route::Serve(Operation::Register) => "register",
            Route::Serve(Operation::Info) => "info",
            Route::Serve(Operation::Subscribe) => "subscribe",
            Route::Serve(Operation::Unsubscribe) => "unsubscribe",
            Route::Serve(Operation::Dnsconfig) => "dnsconfig",
            Route::Serve(Operation::Ping) => "ping",
            Route::Serve(Operation::Adddiscovery) => "adddiscovery",
            Route::Serve(Operation::Revokediscovery) => "revokediscovery",
            Route::Serve(Operation::Discovery) => "discovery",
            Route::Pdns => "pdns",
        }
    }
}

/// The routes to mount for `config`: one for each operation and, where no
/// socket is configured for it, one for the DNS bridge.
pub fn create(config: &Config) -> (table: Vec<Route>)
    ensures
        table@ == route_table(config.socket_path is None),
{
    let mut table: Vec<Route> = Vec::new();
    table.push(Route::Serve(Operation::Register));
    table.push(Route::Serve(Operation::Info));
    table.push(Route::Serve(Operation::Subscribe));
    table.push(Route::Serve(Operation::Unsubscribe));
    table.push(Route::Serve(Operation::Dnsconfig));
    table.push(Route::Serve(Operation::Ping));
    table.push(Route::Serve(Operation::Adddiscovery));
    table.push(Route::Serve(Operation::Revokediscovery));
    table.push(Route::Serve(Operation::Discovery));
    if config.socket_path.is_none() {
        table.push(Route::Pdns);
    }
    assert(table@ =~= route_table(config.socket_path is None));
    table
}

/// The parameters of a request, each present or absent.
#[derive(Debug, PartialEq, Eq)]
pub struct Query {
    pub name: Option<String>,
    pub desc: Option<String>,
    pub token: Option<String>,
    pub local_ip: Option<String>,
    pub challenge: Option<String>,
    pub disco: Option<String>,
}

/// The mathematical content of a [`Query`].
pub struct QueryView {
    pub name: Option<Seq<char>>,
    pub desc: Option<Seq<char>>,
    pub token: Option<Seq<char>>,
    pub local_ip: Option<Seq<char>>,
    pub challenge: Option<Seq<char>>,
    pub disco: Option<Seq<char>>,
}

impl View for Query {
    type V = QueryView;

    open spec fn view(&self) -> QueryView {
        QueryView {
            name: opt_view(self.name),
            desc: opt_view(self.desc),
            token: opt_view(self.token),
            local_ip: opt_view(self.local_ip),
            challenge: opt_view(self.challenge),
            disco: opt_view(self.disco),
        }
    }
}

impl Query {
    /// A query without parameters.
    pub fn new() -> (query: Query)
        ensures
            query@ == (QueryView {
                name: None,
                desc: None,
                token: None,
                local_ip: None,
                challenge: None,
                disco: None,
            }),
    {
        Query { name: None, desc: None, token: None, local_ip: None, challenge: None, disco: None }
    }
}

/// Whether `query` lacks a parameter that `operation` cannot do without.
pub open spec fn lacks_parameter(operation: Operation, query: QueryView) -> bool {
    match operation {
        Operation::Register => query.token is None || query.local_ip is None,
        Operation::Info => query.token is None,
        Operation::Subscribe => query.name is None,
        Operation::Unsubscribe => query.token is None,
        Operation::Dnsconfig => query.token is None || query.challenge is None,
        Operation::Ping => false,
        Operation::Adddiscovery => query.token is None || query.disco is None,
        Operation::Revokediscovery => query.token is None || query.disco is None,
        Operation::Discovery => query.disco is None,
    }
}

/// The status that reports a failure of `operation`.
///
/// A failure of the store is the server's fault, 500, but for a ping and
/// for binding or unbinding a discovery identifier, where it is reported
/// as the client's, 400, like every other failure.
pub open spec fn failure_status(operation: Operation, error: Error) -> int {
    if error == Error::StoreFailure && operation != Operation::Ping && operation
        != Operation::Adddiscovery && operation != Operation::Revokediscovery {
        500
    } else {
        400
    }
}

/// The error number that goes with a status.
pub open spec fn errno_of(status: int) -> int {
    if status == 400 {
        400
    } else {
        501
    }
}

/// What the registry answers.
#[derive(Debug, PartialEq, Eq)]
pub enum Response {
    /// Success, with nothing to tell.
    Done,
    /// Success of a subscription: the name and the token.
    Subscribed(NameAndToken),
    /// Success of `info`: the record.
    Record(DomainRecord),
    /// Success of a ping or a discovery: where to reach the devices.
    Found(Vec<Discovered>),
    /// The name is taken: status 400, with the error named in the body.
    UnavailableName,
    /// Any other failure, with its status and error number.
    Failed { status: u16, errno: u16 },
}

/// The mathematical content of a [`Response`].
pub enum ResponseView {
    Done,
    Subscribed { name: Seq<char>, token: Seq<char> },
    Record(RecordView),
    Found(Seq<DiscoveredView>),
    UnavailableName,
    Failed { status: int, errno: int },
}

impl View for Response {
    type V = ResponseView;

    open spec fn view(&self) -> ResponseView {
        match *self {
            Response::Done => ResponseView::Done,
            Response::Subscribed(told) => ResponseView::Subscribed {
                name: told.name@,
                token: told.token@,
            },
            Response::Record(record) => ResponseView::Record(record@),
            Response::Found(found) => ResponseView::Found(discovered_views(found@)),
            Response::UnavailableName => ResponseView::UnavailableName,
            Response::Failed { status, errno } => ResponseView::Failed {
                status: status as int,
                errno: errno as int,
            },
        }
    }
}

/// The response that reports a failure of `operation`.
pub open spec fn refusal(operation: Operation, error: Error) -> ResponseView {
    if error == Error::NameUnavailable {
        ResponseView::UnavailableName
    } else {
        ResponseView::Failed {
            status: failure_status(operation, error),
            errno: errno_of(failure_status(operation, error)),
        }
    }
}

/// The response to an operation that has nothing to tell but whether it
/// succeeded.
pub open spec fn plain_answer(operation: Operation, error: Option<Error>) -> ResponseView {
    match error {
        None => ResponseView::Done,
        Some(e) => refusal(operation, e),
    }
}

/// The response to an operation that succeeds exactly where a record has
/// the token.
pub open spec fn token_answer(operation: Operation, s: StoreView, token: Seq<char>) -> ResponseView {
    if s.has_token(token) {
        ResponseView::Done
    } else {
        refusal(operation, Error::NotFound)
    }
}

/// Whether `response` and the store `after` are an outcome of a
/// subscription asked for by `query` in the store `before`.
pub open spec fn subscribes(
    before: StoreView,
    after: StoreView,
    domain: Seq<char>,
    query: QueryView,
    response: ResponseView,
) -> bool {
    let name = query.name->0;
    match response {
        ResponseView::Subscribed { name: told, token } => {
            &&& told == name
            &&& is_token_text(token)
            &&& subscribe_error(before, name, domain, token) is None
            &&& after == after_subscribe(before, name, domain, query.desc, token)
        },
        ResponseView::UnavailableName => {
            &&& before.has_name(remote_name_of(name, domain))
            &&& after == before
        },
        _ => {
            &&& response == refusal(Operation::Subscribe, Error::StoreFailure)
            &&& !before.has_name(remote_name_of(name, domain))
            &&& holds_minted_token(before)
            &&& after == before
        },
    }
}

/// Whether `response` and the store `after` are an outcome of `operation`,
/// asked for by `query` at `timestamp` by a caller seen under `public_ip`,
/// in the store `before`.
///
/// Every operation but a subscription has one outcome. A subscription
/// mints a token, and has one outcome for each token that may be minted.
pub open spec fn responds(
    before: StoreView,
    after: StoreView,
    domain: Seq<char>,
    operation: Operation,
    query: QueryView,
    public_ip: Seq<char>,
    timestamp: int,
    response: ResponseView,
) -> bool {
    if lacks_parameter(operation, query) {
        response == refusal(operation, Error::InvalidRequest) && after == before
    } else {
        match operation {
            Operation::Register => {
                &&& after == after_register(
                    before,
                    query.token->0,
                    query.local_ip->0,
                    public_ip,
                    timestamp,
                )
                &&& response == token_answer(operation, before, query.token->0)
            },
            Operation::Info => {
                &&& after == before
                &&& response == if before.has_token(query.token->0) {
                    ResponseView::Record(before.record(query.token->0))
                } else {
                    refusal(operation, Error::NotFound)
                }
            },
            Operation::Subscribe => subscribes(before, after, domain, query, response),
            Operation::Unsubscribe => {
                &&& after == after_unsubscribe(before, query.token->0)
                &&& response == token_answer(operation, before, query.token->0)
            },
            Operation::Dnsconfig => {
                &&& after == after_dnsconfig(before, query.token->0, query.challenge->0)
                &&& response == token_answer(operation, before, query.token->0)
            },
            Operation::Ping => {
                &&& after == before
                &&& response == ResponseView::Found(ping_result(before, public_ip))
            },
            Operation::Adddiscovery => {
                &&& after == after_adddiscovery(before, query.token->0, query.disco->0)
                &&& response == plain_answer(
                    operation,
                    adddiscovery_error(before, query.token->0, query.disco->0),
                )
            },
            Operation::Revokediscovery => {
                &&& after == after_revokediscovery(before, query.token->0, query.disco->0)
                &&& response == token_answer(operation, before, query.token->0)
            },
            Operation::Discovery => {
                &&& after == before
                &&& response == match discovery_result(before, query.disco->0, public_ip) {
                    Ok(found) => ResponseView::Found(found),
                    Err(e) => refusal(operation, e),
                }
            },
        }
    }
}

/// The status of a failure of `operation`.
pub fn status_code(operation: Operation, error: Error) -> (status: u16)
    ensures
        status == failure_status(operation, error),
{
    match error {
        Error::StoreFailure => match operation {
            Operation::Ping | Operation::Adddiscovery | Operation::Revokediscovery => 400,
            _ => 500,
        },
        _ => 400,
    }
}

/// The response that reports a failure of `operation`.
pub fn refuse(operation: Operation, error: Error) -> (response: Response)
    ensures
        response@ == refusal(operation, error),
{
    match error {
        Error::NameUnavailable => Response::UnavailableName,
        _ => {
            let status = status_code(operation, error);
            if status == 400 {
                Response::Failed { status, errno: 400 }
            } else {
                Response::Failed { status, errno: 501 }
            }
        },
    }
}

/// The response to an operation that has nothing to tell on success.
fn answer(operation: Operation, outcome: Result<(), Error>) -> (response: Response)
    ensures
        response@ == plain_answer(
            operation,
            match outcome {
                Ok(()) => None,
                Err(e) => Some(e),
            },
        ),
{
    match outcome {
        Ok(()) => Response::Done,
        Err(e) => refuse(operation, e),
    }
}

/// Serves a registration.
fn serve_register(store: &mut Store, query: &Query, public_ip: &str, timestamp: i64) -> (response:
    Response)
    ensures
        final(store)@.well_formed(),
        forall|domain: Seq<char>|
            responds(
                old(store)@,
                final(store)@,
                domain,
                Operation::Register,
                query@,
                public_ip@,
                timestamp as int,
                response@,
            ),
{
    proof {
        use_type_invariant(&*store);
        store.lemma_well_formed();
    }
    match (&query.token, &query.local_ip) {
        (Some(token), Some(local_ip)) => answer(
            Operation::Register,
            register(store, token.as_str(), local_ip.as_str(), public_ip, timestamp),
        ),
        _ => refuse(Operation::Register, Error::InvalidRequest),
    }
}

/// Serves a request for a record.
fn serve_info(store: &Store, query: &Query) -> (response: Response)
    ensures
        store@.well_formed(),
        forall|domain: Seq<char>, public_ip: Seq<char>, timestamp: int|
            responds(
                store@,
                store@,
                domain,
                Operation::Info,
                query@,
                public_ip,
                timestamp,
                response@,
            ),
{
    proof {
        use_type_invariant(&*store);
        store.lemma_well_formed();
    }
    match &query.token {
        Some(token) => match info(store, token.as_str()) {
            Ok(record) => Response::Record(record),
            Err(e) => refuse(Operation::Info, e),
        },
        None => refuse(Operation::Info, Error::InvalidRequest),
    }
}

/// Serves a subscription.
fn serve_subscribe(store: &mut Store, config: &Config, query: &Query) -> (response: Response)
    ensures
        final(store)@.well_formed(),
        forall|public_ip: Seq<char>, timestamp: int|
            responds(
                old(store)@,
                final(store)@,
                config.domain@,
                Operation::Subscribe,
                query@,
                public_ip,
                timestamp,
                response@,
            ),
{
    proof {
        use_type_invariant(&*store);
        store.lemma_well_formed();
    }
    match &query.name {
        Some(name) => {
            let desc = match &query.desc {
                Some(d) => Some(d.as_str()),
                None => None,
            };
            match subscribe(store, config, name.as_str(), desc) {
                Ok(told) => Response::Subscribed(told),
                Err(e) => refuse(Operation::Subscribe, e),
            }
        },
        None => refuse(Operation::Subscribe, Error::InvalidRequest),
    }
}

/// Serves the end of a subscription.
fn serve_unsubscribe(store: &mut Store, query: &Query) -> (response: Response)
    ensures
        final(store)@.well_formed(),
        forall|domain: Seq<char>, public_ip: Seq<char>, timestamp: int|
            responds(
                old(store)@,
                final(store)@,
                domain,
                Operation::Unsubscribe,
                query@,
                public_ip,
                timestamp,
                response@,
            ),
{
    proof {
        use_type_invariant(&*store);
        store.lemma_well_formed();
    }
    match &query.token {
        Some(token) => answer(Operation::Unsubscribe, unsubscribe(store, token.as_str())),
        None => refuse(Operation::Unsubscribe, Error::InvalidRequest),
    }
}

/// Serves the setting of a challenge.
fn serve_dnsconfig(store: &mut Store, query: &Query) -> (response: Response)
    ensures
        final(store)@.well_formed(),
        forall|domain: Seq<char>, public_ip: Seq<char>, timestamp: int|
            responds(
                old(store)@,
                final(store)@,
                domain,
                Operation::Dnsconfig,
                query@,
                public_ip,
                timestamp,
                response@,
            ),
{
    proof {
        use_type_invariant(&*store);
        store.lemma_well_formed();
    }
    match (&query.token, &query.challenge) {
        (Some(token), Some(challenge)) => answer(
            Operation::Dnsconfig,
            dnsconfig(store, token.as_str(), challenge.as_str()),
        ),
        _ => refuse(Operation::Dnsconfig, Error::InvalidRequest),
    }
}

/// Serves the binding of a discovery identifier.
fn serve_adddiscovery(store: &mut Store, query: &Query) -> (response: Response)
    ensures
        final(store)@.well_formed(),
        forall|domain: Seq<char>, public_ip: Seq<char>, timestamp: int|
            responds(
                old(store)@,
                final(store)@,
                domain,
                Operation::Adddiscovery,
                query@,
                public_ip,
                timestamp,
                response@,
            ),
{
    proof {
        use_type_invariant(&*store);
        store.lemma_well_formed();
    }
    match (&query.token, &query.disco) {
        (Some(token), Some(disco)) => answer(
            Operation::Adddiscovery,
            adddiscovery(store, token.as_str(), disco.as_str()),
        ),
        _ => refuse(Operation::Adddiscovery, Error::InvalidRequest),
    }
}

/// Serves the unbinding of a discovery identifier.
fn serve_revokediscovery(store: &mut Store, query: &Query) -> (response: Response)
    ensures
        final(store)@.well_formed(),
        forall|domain: Seq<char>, public_ip: Seq<char>, timestamp: int|
            responds(
                old(store)@,
                final(store)@,
                domain,
                Operation::Revokediscovery,
                query@,
                public_ip,
                timestamp,
                response@,
            ),
{
    proof {
        use_type_invariant(&*store);
        store.lemma_well_formed();
    }
    match (&query.token, &query.disco) {
        (Some(token), Some(disco)) => answer(
            Operation::Revokediscovery,
            revokediscovery(store, token.as_str(), disco.as_str()),
        ),
        _ => refuse(Operation::Revokediscovery, Error::InvalidRequest),
    }
}

/// Serves a discovery.
fn serve_discovery(store: &Store, query: &Query, public_ip: &str) -> (response: Response)
    ensures
        store@.well_formed(),
        forall|domain: Seq<char>, timestamp: int|
            responds(
                store@,
                store@,
                domain,
                Operation::Discovery,
                query@,
                public_ip@,
                timestamp,
                response@,
            ),
{
    proof {
        use_type_invariant(&*store);
        store.lemma_well_formed();
    }
    match &query.disco {
        Some(disco) => match discovery(store, disco.as_str(), public_ip) {
            Ok(found) => Response::Found(found),
            Err(e) => refuse(Operation::Discovery, e),
        },
        None => refuse(Operation::Discovery, Error::InvalidRequest),
    }
}

/// Carries out `operation` for a request and reports its outcome.
///
/// A request that lacks a parameter which the operation cannot do without
/// is refused as an `InvalidRequest`, with status 400, and changes
/// nothing. Otherwise the operation is carried out on the parameters, the
/// caller's public address and the time of the request, and the response
/// tells its result, or reports its failure.
pub fn respond(
    store: &mut Store,
    config: &Config,
    operation: Operation,
    query: &Query,
    public_ip: &str,
    timestamp: i64,
) -> (response: Response)
    ensures
        final(store)@.well_formed(),
        responds(
            old(store)@,
            final(store)@,
            config.domain@,
            operation,
            query@,
            public_ip@,
            timestamp as int,
            response@,
        ),
{
    match operation {
        Operation::Register => serve_register(store, query, public_ip, timestamp),
        Operation::Info => serve_info(store, query),
        Operation::Subscribe => serve_subscribe(store, config, query),
        Operation::Unsubscribe => serve_unsubscribe(store, query),
        Operation::Dnsconfig => serve_dnsconfig(store, query),
        Operation::Ping => Response::Found(ping(store, public_ip)),
        Operation::Adddiscovery => serve_adddiscovery(store, query),
        Operation::Revokediscovery => serve_revokediscovery(store, query),
        Operation::Discovery => serve_discovery(store, query, public_ip),
    }
}

} // verus!
