//! The request dispatcher: from method, path and query to one storage
//! operation and a response.
//!
//! A request that carries a secret names its domain twice, in the path and in
//! the body. The body decides: the record is stored under the domain that it
//! names itself, and the path's domain is not looked at.

use vstd::prelude::*;
use vstd::string::*;
use vstd::utf8::{decode_utf8, valid_utf8};
use crate::codec::{parse_pairs, query_pairs, text_from_utf8, utf8_error_text};
use crate::devices::{
    device_ids,
    devices_json,
    lemma_record_twice,
    lemma_recorded,
    lemma_two_addresses,
    recorded,
    well_formed,
    DeviceRegistry,
    DeviceView,
};
use crate::error::{error_json, ErrorInfo, Failure};
use crate::http::{
    empty_response,
    empty_response_view,
    json_builder,
    json_header,
    json_ok,
    json_response,
    HttpResponse,
    Method,
    ResponseView,
    StatusCode,
};
use crate::json::{json_array, json_texts};
use crate::routing::{route, route_of, Route, RouteView};
use crate::storage::{
    admits_listing,
    admits_lookup,
    admits_removal,
    admits_store,
    secret_json,
    Secret,
    SecretView,
    Storage,
};
use crate::text::{pair_views, same_text};

verus! {

/// The values that `pairs` give under `name`, in order.
pub open spec fn values_named(pairs: Seq<(Seq<char>, Seq<char>)>, name: Seq<char>) -> Seq<
    Seq<char>,
>
    decreases pairs.len(),
{
    if pairs.len() == 0 {
        Seq::empty()
    } else {
        let earlier = values_named(pairs.drop_last(), name);
        if pairs.last().0 == name {
            earlier.push(pairs.last().1)
        } else {
            earlier
        }
    }
}

/// The device identifier that query parameters carry: the value of
/// `device_id` where it is given exactly once, and `unknown` otherwise.
pub open spec fn identity_in(pairs: Seq<(Seq<char>, Seq<char>)>) -> Seq<char> {
    let given = values_named(pairs, "device_id"@);
    if given.len() == 1 {
        given[0]
    } else {
        "unknown"@
    }
}

/// Picks the device identifier out of decoded query parameters.
pub fn identity_from(pairs: &Vec<(String, String)>) -> (r: String)
    ensures
        r@ == identity_in(pair_views(pairs@)),
{
    let ghost all = pair_views(pairs@);
    let mut count: usize = 0;
    let mut first: usize = 0;
    let mut i: usize = 0;
    while i < pairs.len()
        invariant
            i <= pairs.len(),
            all == pair_views(pairs@),
            count <= i,
            values_named(all.take(i as int), "device_id"@).len() == count,
            count > 0 ==> first < i && values_named(all.take(i as int), "device_id"@)[0]
                == pairs[first as int].1@,
        decreases pairs.len() - i,
    {
        proof {
            assert(all.take(i + 1).drop_last() =~= all.take(i as int));
            assert(all.take(i + 1).last() == all[i as int]);
        }
        if same_text(pairs[i].0.as_str(), "device_id") {
            if count == 0 {
                first = i;
            }
            count += 1;
        }
        i += 1;
    }
    proof {
        assert(all.take(i as int) =~= all);
    }
    if count == 1 {
        pairs[first].1.clone()
    } else {
        String::from_str("unknown")
    }
}

/// The text of a query that may be missing.
pub open spec fn query_text(query: Option<&str>) -> Seq<char> {
    match query {
        Some(text) => text@,
        None => Seq::empty(),
    }
}

/// The device identifier of a request with `query`: the one that its
/// parameters carry.
pub open spec fn identity_of(query: Option<&str>) -> Seq<char> {
    identity_in(query_pairs(query_text(query)))
}

/// The device identifier of a request: the value of the query parameter
/// `device_id` where the query gives it exactly once, and `unknown` where the
/// query is missing, does not give it, or gives it more than once.
pub fn device_identity(query: Option<&str>) -> (r: String)
    ensures
        r@ == identity_of(query),
{
    let text = match query {
        Some(text) => text,
        None => "",
    };
    proof {
        reveal_strlit("");
        assert(text@ =~= query_text(query));
    }
    match parse_pairs(text) {
        Some(pairs) => identity_from(&pairs),
        None => String::from_str("unknown"),
    }
}

/// The response with `status` that carries `message`.
pub open spec fn error_response(status: StatusCode, message: Seq<char>) -> ResponseView {
    json_response(status, error_json(message))
}

/// The response to a method that a route does not support: it names the
/// supported ones.
pub open spec fn method_not_allowed_view() -> ResponseView {
    ResponseView {
        status: StatusCode::MethodNotAllowed,
        headers: seq![json_header(), ("Allow"@, "GET, POST, PUT, DELETE"@)],
        body: error_json("method not allowed"@),
    }
}

/// Builds the response to an unsupported method.
pub fn method_not_allowed() -> (r: HttpResponse)
    ensures
        r@ == method_not_allowed_view(),
{
    let mut r = json_builder(StatusCode::MethodNotAllowed);
    let ghost marked = r.headers@;
    proof {
        assert(pair_views(marked) == seq![json_header()]);
        assert(pair_views(marked).len() == 1);
        assert(marked.len() == 1);
        assert(pair_views(marked)[0] == json_header());
    }
    r.headers.push((String::from_str("Allow"), String::from_str("GET, POST, PUT, DELETE")));
    r.body = ErrorInfo::new("method not allowed").body();
    proof {
        assert(r.headers@[0] == marked[0]);
        assert(r@.headers =~= method_not_allowed_view().headers);
    }
    r
}

/// The response that reports a failure of the backend: `prefix`, then the
/// backend's own description.
pub open spec fn failure_response(prefix: Seq<char>, detail: Seq<char>) -> ResponseView {
    error_response(StatusCode::InternalServerError, prefix + detail)
}

/// Builds the response that reports the failure `error`.
fn failure<E: Failure>(prefix: &str, error: &E) -> (r: HttpResponse)
    ensures
        r@ == failure_response(prefix@, error.detail_spec()),
{
    let message = String::from_str(prefix).concat(error.detail().as_str());
    ErrorInfo::new(message.as_str()).resp(StatusCode::InternalServerError)
}

/// The response to a request for all secrets, given what the backend said.
pub open spec fn listing_response_view<E: Failure>(result: Result<Vec<Secret>, E>) -> ResponseView {
    match result {
        Ok(listing) => json_response(StatusCode::Success, json_array(json_texts(listing@))),
        Err(error) => failure_response("storage error: "@, error.detail_spec()),
    }
}

/// Answers a request for all secrets from what the backend said.
pub fn listing_response<E: Failure>(result: Result<Vec<Secret>, E>) -> (r: HttpResponse)
    ensures
        r@ == listing_response_view(result),
{
    match result {
        Ok(listing) => json_ok(&listing),
        Err(error) => failure("storage error: ", &error),
    }
}

/// The response to a request for one secret, given whether it is stored.
pub open spec fn found_response(found: Option<SecretView>) -> ResponseView {
    match found {
        Some(secret) => json_response(StatusCode::Success, secret_json(secret)),
        None => error_response(StatusCode::NotFound, "Domain not found"@),
    }
}

/// The response to a request for one secret, given what the backend said.
pub open spec fn lookup_response_view<E: Failure>(
    result: Result<Option<Secret>, E>,
) -> ResponseView {
    match result {
        Ok(Some(secret)) => found_response(Some(secret@)),
        Ok(None) => found_response(None),
        Err(error) => failure_response("storage error: "@, error.detail_spec()),
    }
}

/// Answers a request for one secret from what the backend said.
pub fn lookup_response<E: Failure>(result: Result<Option<Secret>, E>) -> (r: HttpResponse)
    ensures
        r@ == lookup_response_view(result),
{
    match result {
        Ok(Some(secret)) => json_ok(&secret),
        Ok(None) => ErrorInfo::new("Domain not found").resp(StatusCode::NotFound),
        Err(error) => failure("storage error: ", &error),
    }
}

/// The response to a request that stores a secret, given what the backend
/// said.
pub open spec fn stored_response_view<E: Failure>(result: Result<(), E>) -> ResponseView {
    match result {
        Ok(_) => empty_response_view(),
        Err(error) => failure_response("storage error: "@, error.detail_spec()),
    }
}

/// Answers a request that stores a secret from what the backend said.
pub fn stored_response<E: Failure>(result: Result<(), E>) -> (r: HttpResponse)
    ensures
        r@ == stored_response_view(result),
{
    match result {
        Ok(_) => empty_response(),
        Err(error) => failure("storage error: ", &error),
    }
}

/// The response to a request that removes a secret, given whether there was
/// one.
pub open spec fn removed_response(removed: bool) -> ResponseView {
    if removed {
        empty_response_view()
    } else {
        error_response(StatusCode::NotFound, "domain not found"@)
    }
}

/// The response to a request that removes a secret, given what the backend
/// said.
pub open spec fn delete_response_view<E: Failure>(result: Result<bool, E>) -> ResponseView {
    match result {
        Ok(removed) => removed_response(removed),
        Err(error) => failure_response("Storage error: "@, error.detail_spec()),
    }
}

/// Answers a request that removes a secret from what the backend said.
pub fn delete_response<E: Failure>(result: Result<bool, E>) -> (r: HttpResponse)
    ensures
        r@ == delete_response_view(result),
{
    match result {
        Ok(true) => empty_response(),
        Ok(false) => ErrorInfo::new("domain not found").resp(StatusCode::NotFound),
        Err(error) => failure("Storage error: ", &error),
    }
}

/// The first stage of decoding a request body: bytes to text. Bytes that are
/// not UTF-8 are answered with status 400 and the reason.
pub fn decode_body(bytes: Vec<u8>) -> (r: Result<String, HttpResponse>)
    ensures
        r is Ok <==> valid_utf8(bytes@),
        r matches Ok(text) ==> text@ == decode_utf8(bytes@),
        r matches Err(resp) ==> resp@ == error_response(
            StatusCode::BadRequest,
            "invalid data: "@ + utf8_error_text(bytes@),
        ),
{
    match text_from_utf8(bytes) {
        Ok(text) => Ok(text),
        Err(reason) => {
            let message = String::from_str("invalid data: ").concat(reason.as_str());
            Err(ErrorInfo::new(message.as_str()).resp(StatusCode::BadRequest))
        },
    }
}

/// What the dispatcher decides on a request.
#[derive(Debug)]
pub enum Outcome {
    /// The request is answered.
    Reply(HttpResponse),
    /// The request carries a secret: its body is to be read and decoded, and
    /// the result handed to `SecretService::store`.
    ReadBody,
}

impl Outcome {
    /// The response, where the request is answered.
    pub open spec fn reply(self) -> Option<ResponseView> {
        match self {
            Outcome::Reply(resp) => Some(resp@),
            Outcome::ReadBody => None,
        }
    }
}

/// What a request for the secrets asks of the backend.
#[derive(Debug)]
pub enum Action {
    /// All secrets.
    List,
    /// The secret of a domain.
    Lookup(String),
    /// The removal of a domain's secret.
    Remove(String),
    /// A secret is to be stored: the body has to be read first.
    ReadBody,
    /// Nothing: the method is not supported.
    Refuse,
}

/// An action as a mathematical value.
pub ghost enum ActionView {
    List,
    Lookup(Seq<char>),
    Remove(Seq<char>),
    ReadBody,
    Refuse,
}

impl View for Action {
    type V = ActionView;

    open spec fn view(&self) -> ActionView {
        match self {
            Action::List => ActionView::List,
            Action::Lookup(domain) => ActionView::Lookup(domain@),
            Action::Remove(domain) => ActionView::Remove(domain@),
            Action::ReadBody => ActionView::ReadBody,
            Action::Refuse => ActionView::Refuse,
        }
    }
}

/// The action that `method` asks for on the secrets, `domain` being the
/// domain that the path names, empty where it names none.
pub open spec fn action_of(method: Method, domain: Seq<char>) -> ActionView {
    match method {
        Method::Get => if domain.len() == 0 {
            ActionView::List
        } else {
            ActionView::Lookup(domain)
        },
        Method::Put | Method::Post => ActionView::ReadBody,
        Method::Delete => ActionView::Remove(domain),
        _ => ActionView::Refuse,
    }
}

/// What is to be done with a request, decided from the request alone.
#[derive(Debug)]
pub enum Plan {
    /// Answer with this response; neither registry nor backend is touched.
    Reply(HttpResponse),
    /// Answer with the list of devices; the registry is read.
    ListDevices,
    /// Count the caller in the registry under `device_id`, then have the
    /// backend carry out `action`.
    Serve { device_id: String, action: Action },
}

/// A plan as a mathematical value.
pub ghost enum PlanView {
    Reply(ResponseView),
    ListDevices,
    Serve { device_id: Seq<char>, action: ActionView },
}

impl View for Plan {
    type V = PlanView;

    open spec fn view(&self) -> PlanView {
        match self {
            Plan::Reply(resp) => PlanView::Reply(resp@),
            Plan::ListDevices => PlanView::ListDevices,
            Plan::Serve { device_id, action } => PlanView::Serve {
                device_id: device_id@,
                action: action@,
            },
        }
    }
}

/// The plan for a request by `method` for `route` from the device
/// `device_id`.
pub open spec fn plan_of(method: Method, route: RouteView, device_id: Seq<char>) -> PlanView {
    match route {
        RouteView::Unknown => PlanView::Reply(
            error_response(StatusCode::NotFound, "API not found"@),
        ),
        RouteView::Devices => if method == Method::Get {
            PlanView::ListDevices
        } else {
            PlanView::Reply(method_not_allowed_view())
        },
        RouteView::Secrets(domain) => PlanView::Serve {
            device_id,
            action: action_of(method, domain),
        },
    }
}

/// Decides what is to be done with a request. Nothing is read or changed:
/// the registry and the backend come in when the plan is carried out.
pub fn plan(method: Method, path: &str, query: Option<&str>) -> (r: Plan)
    ensures
        r@ == plan_of(method, route_of(path@), identity_of(query)),
{
    match route(path) {
        Route::Unknown => Plan::Reply(
            ErrorInfo::new("API not found").resp(StatusCode::NotFound),
        ),
        Route::Devices => match method {
            Method::Get => Plan::ListDevices,
            _ => Plan::Reply(method_not_allowed()),
        },
        Route::Secrets(domain) => {
            let device_id = device_identity(query);
            let action = match method {
                Method::Get => if domain.as_str().is_empty() {
                    Action::List
                } else {
                    Action::Lookup(domain)
                },
                Method::Put | Method::Post => Action::ReadBody,
                Method::Delete => Action::Remove(domain),
                _ => Action::Refuse,
            };
            Plan::Serve { device_id, action }
        },
    }
}

/// The response that lists the devices in `devices`.
pub fn list_devices(devices: &DeviceRegistry) -> (r: HttpResponse)
    ensures
        r@ == json_response(StatusCode::Success, devices_json(devices@)),
{
    json_ok(devices)
}

/// `resp` answers a request for all secrets held by `storage`: it is the
/// response to a result that the backend may give.
pub open spec fn answers_listing<S: Storage>(storage: S, resp: ResponseView) -> bool {
    exists|r: Result<Vec<Secret>, S::Error>|
        admits_listing(storage, r) && resp == #[trigger] listing_response_view(r)
}

/// `resp` answers a request for the secret of `domain` held by `storage`: it
/// is the response to a result that the backend may give.
pub open spec fn answers_lookup<S: Storage>(
    storage: S,
    domain: Seq<char>,
    resp: ResponseView,
) -> bool {
    exists|r: Result<Option<Secret>, S::Error>|
        admits_lookup(storage, domain, r) && resp == #[trigger] lookup_response_view(r)
}

/// `resp` answers a request to remove the secret of `domain`, which took the
/// backend from `before` to `after`: it is the response to a result that the
/// backend may give.
pub open spec fn answers_delete<S: Storage>(
    before: S,
    after: S,
    domain: Seq<char>,
    resp: ResponseView,
) -> bool {
    exists|r: Result<bool, S::Error>|
        admits_removal(before, after, domain, r) && resp == #[trigger] delete_response_view(r)
}

/// `resp` answers a request to store `secret`, which took the backend from
/// `before` to `after`: it is the response to a result that the backend may
/// give.
pub open spec fn answers_store<S: Storage>(
    before: S,
    after: S,
    secret: SecretView,
    resp: ResponseView,
) -> bool {
    exists|r: Result<(), S::Error>|
        admits_store(before, after, secret, r) && resp == #[trigger] stored_response_view(r)
}

/// What carrying out `action` does: the outcome, and the backend after it.
pub open spec fn performed<S: Storage>(
    before: S,
    after: S,
    action: ActionView,
    outcome: Outcome,
) -> bool {
    match action {
        ActionView::List => after == before && outcome.reply() is Some && answers_listing(
            before,
            outcome.reply()->0,
        ),
        ActionView::Lookup(domain) => after == before && outcome.reply() is Some
            && answers_lookup(before, domain, outcome.reply()->0),
        ActionView::Remove(domain) => outcome.reply() is Some && answers_delete(
            before,
            after,
            domain,
            outcome.reply()->0,
        ),
        ActionView::ReadBody => after == before && outcome is ReadBody,
        ActionView::Refuse => after == before && outcome.reply() == Some(
            method_not_allowed_view(),
        ),
    }
}

/// What the dispatcher does with a request for `route` by `method`: the
/// outcome, and the backend after it. `devices` is the registry as the
/// request found it.
pub open spec fn dispatched<S: Storage>(
    before: S,
    after: S,
    devices: Seq<DeviceView>,
    method: Method,
    route: RouteView,
    outcome: Outcome,
) -> bool {
    match route {
        RouteView::Unknown => after == before && outcome.reply() == Some(
            error_response(StatusCode::NotFound, "API not found"@),
        ),
        RouteView::Devices => after == before && outcome.reply() == Some(
            if method == Method::Get {
                json_response(StatusCode::Success, devices_json(devices))
            } else {
                method_not_allowed_view()
            },
        ),
        RouteView::Secrets(domain) => match method {
            Method::Get => after == before && outcome.reply() is Some && if domain.len() == 0 {
                answers_listing(before, outcome.reply()->0)
            } else {
                answers_lookup(before, domain, outcome.reply()->0)
            },
            Method::Put | Method::Post => after == before && outcome is ReadBody,
            Method::Delete => outcome.reply() is Some && answers_delete(
                before,
                after,
                domain,
                outcome.reply()->0,
            ),
            _ => after == before && outcome.reply() == Some(method_not_allowed_view()),
        },
    }
}

/// The registry after a request with `query` from `address` was counted:
/// under the identifier that the query carries, once.
pub open spec fn counted(
    before: Seq<DeviceView>,
    after: Seq<DeviceView>,
    query: Option<&str>,
    address: Seq<char>,
) -> bool {
    after == recorded(before, identity_of(query), address)
}

/// Two requests with the same query, from two distinct addresses, by a
/// device that the registry did not know: the registry then knows it as one
/// device with exactly those two addresses.
pub proof fn lemma_counted_from_two_addresses(
    before: Seq<DeviceView>,
    between: Seq<DeviceView>,
    after: Seq<DeviceView>,
    query: Option<&str>,
    first: Seq<char>,
    second: Seq<char>,
)
    requires
        well_formed(before),
        !device_ids(before).contains(identity_of(query)),
        first != second,
        counted(before, between, query, first),
        counted(between, after, query, second),
    ensures
        after == before.push(
            DeviceView { device_id: identity_of(query), observed_addresses: seq![first, second] },
        ),
        well_formed(after),
{
    lemma_two_addresses(before, identity_of(query), first, second);
}

/// A second request with the same query from the same address leaves the
/// registry as the first left it.
pub proof fn lemma_counted_twice(
    before: Seq<DeviceView>,
    between: Seq<DeviceView>,
    after: Seq<DeviceView>,
    query: Option<&str>,
    address: Seq<char>,
)
    requires
        well_formed(before),
        counted(before, between, query, address),
        counted(between, after, query, address),
    ensures
        after == between,
        well_formed(after),
{
    lemma_record_twice(before, identity_of(query), address);
    lemma_recorded(before, identity_of(query), address);
}

/// The answer to a request to remove a domain tells what the backend said,
/// whatever the backend: status 204 without a body exactly where a record
/// was removed, status 404 exactly where there was none, and status 500
/// exactly where the backend failed.
pub proof fn lemma_delete_response<E: Failure>(result: Result<bool, E>)
    ensures
        result == Ok::<bool, E>(true) <==> delete_response_view(result) == empty_response_view(),
        result == Ok::<bool, E>(true) <==> delete_response_view(result).status
            == StatusCode::NoContent,
        result == Ok::<bool, E>(false) <==> delete_response_view(result).status
            == StatusCode::NotFound,
        result is Err <==> delete_response_view(result).status == StatusCode::InternalServerError,
{
}

/// With a backend that keeps its records as `records` says and does not
/// fail, a secret that was stored is what a request for its domain is
/// answered with: status 204 first, then status 200 with the secret's JSON
/// object.
pub proof fn lemma_stored_is_served<S: Storage>(
    before: S,
    after: S,
    secret: SecretView,
    stored: ResponseView,
    got: ResponseView,
)
    requires
        before.modelled(),
        answers_store(before, after, secret, stored),
        answers_lookup(after, secret.domain, got),
        stored.status != StatusCode::InternalServerError,
        got.status != StatusCode::InternalServerError,
    ensures
        stored == empty_response_view(),
        got == json_response(StatusCode::Success, secret_json(secret)),
{
    let set = choose|r: Result<(), S::Error>|
        admits_store(before, after, secret, r) && stored == #[trigger] stored_response_view(r);
    assert(set is Ok);
    assert(after.records().contains_key(secret.domain));
    let found = choose|r: Result<Option<Secret>, S::Error>|
        admits_lookup(after, secret.domain, r) && got == #[trigger] lookup_response_view(r);
    assert(found is Ok);
}

/// With a backend that keeps its records as `records` says and does not
/// fail, a request to remove a domain is answered with status 204 if the
/// domain was stored and with status 404 if it was not, and a request for
/// that domain is then answered with status 404.
pub proof fn lemma_removed_is_gone<S: Storage>(
    before: S,
    after: S,
    domain: Seq<char>,
    deleted: ResponseView,
    got: ResponseView,
)
    requires
        before.modelled(),
        answers_delete(before, after, domain, deleted),
        answers_lookup(after, domain, got),
        deleted.status != StatusCode::InternalServerError,
        got.status != StatusCode::InternalServerError,
    ensures
        before.records().contains_key(domain) ==> deleted == empty_response_view(),
        !before.records().contains_key(domain) ==> deleted == error_response(
            StatusCode::NotFound,
            "domain not found"@,
        ),
        got == error_response(StatusCode::NotFound, "Domain not found"@),
{
    let removal = choose|r: Result<bool, S::Error>|
        admits_removal(before, after, domain, r) && deleted == #[trigger] delete_response_view(r);
    assert(removal is Ok);
    let found = choose|r: Result<Option<Secret>, S::Error>|
        admits_lookup(after, domain, r) && got == #[trigger] lookup_response_view(r);
    assert(found is Ok);
}

/// With a backend that keeps its records as `records` says, a request that
/// stores a second secret under a domain, answered with status 204, leaves
/// the second as the one that a request for the domain is answered with.
pub proof fn lemma_second_store_wins<S: Storage>(
    before: S,
    between: S,
    after: S,
    first: SecretView,
    second: SecretView,
    stored_first: ResponseView,
    stored_second: ResponseView,
    got: ResponseView,
)
    requires
        before.modelled(),
        first.domain == second.domain,
        answers_store(before, between, first, stored_first),
        answers_store(between, after, second, stored_second),
        answers_lookup(after, second.domain, got),
        stored_first.status != StatusCode::InternalServerError,
        stored_second.status != StatusCode::InternalServerError,
        got.status != StatusCode::InternalServerError,
    ensures
        after.records() == before.records().insert(second.domain, second),
        got == json_response(StatusCode::Success, secret_json(second)),
{
    let set = choose|r: Result<(), S::Error>|
        admits_store(before, between, first, r) && stored_first == #[trigger] stored_response_view(
            r,
        );
    assert(set is Ok);
    lemma_stored_is_served(between, after, second, stored_second, got);
    let again = choose|r: Result<(), S::Error>|
        admits_store(between, after, second, r) && stored_second
            == #[trigger] stored_response_view(r);
    assert(again is Ok);
    assert(after.records() =~= before.records().insert(second.domain, second));
}

/// The dispatcher for the requests of one client: the client's address and
/// the storage backend that its requests go to.
pub struct SecretService<S: Storage> {
    pub client_addr: String,
    pub storage: S,
}

impl<S: Storage> SecretService<S> {
    pub fn new(client_addr: String, storage: S) -> (r: Self)
        ensures
            r.client_addr == client_addr,
            r.storage == storage,
    {
        SecretService { client_addr, storage }
    }

    /// Handles a request up to the point where its body is needed. A request
    /// for the secrets is first counted in `devices`, once, whatever its
    /// method; then the one storage operation that method and path ask for
    /// is made and its result turned into the response.
    pub fn call(
        &mut self,
        devices: &mut DeviceRegistry,
        method: Method,
        path: &str,
        query: Option<&str>,
    ) -> (r: Outcome)
        ensures
            final(self).client_addr == old(self).client_addr,
            final(self).storage.dependable() == old(self).storage.dependable(),
            final(self).storage.modelled() == old(self).storage.modelled(),
            dispatched(
                old(self).storage,
                final(self).storage,
                old(devices)@,
                method,
                route_of(path@),
                r,
            ),
            match route_of(path@) {
                RouteView::Secrets(_) => counted(
                    old(devices)@,
                    final(devices)@,
                    query,
                    old(self).client_addr@,
                ),
                _ => final(devices)@ == old(devices)@,
            },
    {
        match plan(method, path, query) {
            Plan::Reply(resp) => Outcome::Reply(resp),
            Plan::ListDevices => Outcome::Reply(list_devices(devices)),
            Plan::Serve { device_id, action } => {
                self.count(devices, device_id.as_str());
                self.perform(action)
            },
        }
    }

    /// Counts a request of this client in `devices` under `device_id`.
    pub fn count(&self, devices: &mut DeviceRegistry, device_id: &str)
        ensures
            final(devices)@ == recorded(old(devices)@, device_id@, self.client_addr@),
            well_formed(final(devices)@),
    {
        devices.record(device_id, self.client_addr.as_str());
    }

    /// Carries out what a request asks of the backend: at most one storage
    /// operation, whose result is turned into the response.
    pub fn perform(&mut self, action: Action) -> (r: Outcome)
        ensures
            final(self).client_addr == old(self).client_addr,
            final(self).storage.dependable() == old(self).storage.dependable(),
            final(self).storage.modelled() == old(self).storage.modelled(),
            performed(old(self).storage, final(self).storage, action@, r),
    {
        match action {
            Action::List => {
                let result = self.storage.get_all();
                let ghost said = result;
                let resp = listing_response(result);
                assert(admits_listing(self.storage, said) && resp@ == listing_response_view(said));
                Outcome::Reply(resp)
            },
            Action::Lookup(domain) => {
                let result = self.storage.get(domain.as_str());
                let ghost said = result;
                let resp = lookup_response(result);
                assert(admits_lookup(self.storage, domain@, said) && resp@ == lookup_response_view(
                    said,
                ));
                Outcome::Reply(resp)
            },
            Action::Remove(domain) => {
                let result = self.storage.delete(domain.as_str());
                let ghost said = result;
                let resp = delete_response(result);
                assert(admits_removal(old(self).storage, self.storage, domain@, said) && resp@
                    == delete_response_view(said));
                Outcome::Reply(resp)
            },
            Action::ReadBody => Outcome::ReadBody,
            Action::Refuse => Outcome::Reply(method_not_allowed()),
        }
    }

    /// Finishes a request that carries a secret, given what decoding its
    /// body as a secret gave: the secret, or the reason why the text is none.
    /// Text that is no secret is answered with status 400 and leaves the
    /// backend as it was.
    pub fn store(&mut self, parsed: Result<Secret, String>) -> (r: HttpResponse)
        ensures
            final(self).client_addr == old(self).client_addr,
            final(self).storage.dependable() == old(self).storage.dependable(),
            final(self).storage.modelled() == old(self).storage.modelled(),
            match parsed {
                Ok(secret) => answers_store(old(self).storage, final(self).storage, secret@, r@),
                Err(reason) => final(self).storage == old(self).storage && r@ == error_response(
                    StatusCode::BadRequest,
                    "invalid json: "@ + reason@,
                ),
            },
    {
        match parsed {
            Ok(secret) => {
                let ghost stored = secret@;
                let result = self.storage.set(secret);
                let ghost said = result;
                let resp = stored_response(result);
                assert(admits_store(old(self).storage, self.storage, stored, said) && resp@
                    == stored_response_view(said));
                resp
            },
            Err(reason) => {
                let message = String::from_str("invalid json: ").concat(reason.as_str());
                ErrorInfo::new(message.as_str()).resp(StatusCode::BadRequest)
            },
        }
    }
}

} // verus!
