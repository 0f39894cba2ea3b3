//! How a server is configured and a benchmark counted.

use vstd::prelude::*;

use crate::bench::{calls_per_task, completed_calls, concurrent_id, count_failures};
use crate::bench::{failures_of, sequential_id};
use crate::error::{Error, ErrorView, Result};
use crate::server::{bind_error, configured, environment, require_chaincode_id, resolution};
use crate::server::{settings, Server, ServerView};
use crate::text;

verus! {

// ---- configuration ---------------------------------------------------------
/// The package id is that of the first variable, or else of the second; without either
/// the configuration fails. The address is that of the first variable, or else of the
/// second, or else the default.
pub proof fn the_first_variable_counts(
    id: Option<Seq<char>>,
    core_id: Option<Seq<char>>,
    address: Option<Seq<char>>,
    core_address: Option<Seq<char>>,
)
    ensures
        ({
            let given = environment(id, core_id, address, core_address);
            &&& given is Err <==> id is None && core_id is None
            &&& given matches Err(e) ==> e == ErrorView::Config(
                "CHAINCODE_ID (or CORE_CHAINCODE_ID) is not set"@,
            )
            &&& id matches Some(first) ==> given is Ok && given->Ok_0.0 == first
            &&& id is None ==> (core_id matches Some(second) ==> given is Ok && given->Ok_0.0
                == second)
            &&& given is Ok ==> (address matches Some(first) ==> given->Ok_0.1 == first)
            &&& given is Ok && address is None ==> (core_address matches Some(second)
                ==> given->Ok_0.1 == second)
            &&& given is Ok && address is None && core_address is None ==> given->Ok_0.1
                == "0.0.0.0:7052"@
        }),
{
}

/// A server has the package id that it is given, the first address that its address
/// resolved to, and the peer's own limit on messages. An empty id, an address that did
/// not resolve and one that resolved to nothing are told, the first of them.
pub proof fn servers_are_configured_as_given<A>(
    id: Seq<char>,
    address: Seq<char>,
    addresses: Seq<A>,
    fault: Seq<char>,
)
    ensures
        id.len() == 0 ==> configured(id, address, Ok::<Seq<A>, Seq<char>>(addresses)) == Err::<
            ServerView<A>,
            _,
        >(ErrorView::Config("chaincode id must not be empty"@)) && configured(
            id,
            address,
            Err::<Seq<A>, Seq<char>>(fault),
        ) == Err::<ServerView<A>, _>(ErrorView::Config("chaincode id must not be empty"@)),
        id.len() > 0 ==> configured(id, address, Err::<Seq<A>, Seq<char>>(fault)) == Err::<
            ServerView<A>,
            _,
        >(ErrorView::Config("invalid address "@ + text::debug_form(address) + ": "@ + fault)),
        id.len() > 0 && addresses.len() == 0 ==> configured(
            id,
            address,
            Ok::<Seq<A>, Seq<char>>(addresses),
        ) == Err::<ServerView<A>, _>(
            ErrorView::Config("address "@ + text::debug_form(address) + " resolved to nothing"@),
        ),
        id.len() > 0 && addresses.len() > 0 ==> (configured(
            id,
            address,
            Ok::<Seq<A>, Seq<char>>(addresses),
        ) matches Ok(server) && server.chaincode_id == id && server.address == addresses[0]
            && server.max_message_size == 100 * 1024 * 1024),
{
}

/// What an address resolved to is seen as it is.
pub proof fn resolutions_are_seen_as_they_are<A>(addresses: Vec<A>, fault: String)
    ensures
        resolution(Ok::<Vec<A>, String>(addresses)) == Ok::<_, Seq<char>>(addresses@),
        resolution(Err::<Vec<A>, String>(fault)) == Err::<Seq<A>, _>(fault@),
{
}

// ---- benchmarks ------------------------------------------------------------
/// The failures of all tasks are added up; a task that was lost failed in all its calls.
pub proof fn failures_are_added_up(outcomes: Seq<Option<usize>>, failed: usize, per_task: usize)
    ensures
        failures_of(seq![], per_task) == 0,
        failures_of(outcomes.push(Some(failed)), per_task) == failures_of(outcomes, per_task)
            + failed,
        failures_of(outcomes.push(None), per_task) == failures_of(outcomes, per_task) + per_task,
{
    assert(outcomes.push(Some(failed)).drop_last() =~= outcomes);
    assert(outcomes.push(None).drop_last() =~= outcomes);
}

// ---- operations ------------------------------------------------------------
/// The settings are those of the first variables that are set.
pub proof fn settings_are_those_of_the_environment(
    id: Option<String>,
    core_id: Option<String>,
    address: Option<String>,
    core_address: Option<String>,
    given: Result<(String, String)>,
)
    requires
        call_ensures(settings, (id, core_id, address, core_address), given),
    ensures
        given is Err <==> id is None && core_id is None,
        given matches Err(e) ==> e@ == ErrorView::Config(
            "CHAINCODE_ID (or CORE_CHAINCODE_ID) is not set"@,
        ),
        given matches Ok((i, a)) ==> {
            &&& id matches Some(first) ==> i@ == first@
            &&& id is None ==> i@ == core_id->0@
            &&& address matches Some(first) ==> a@ == first@
            &&& address is None ==> (core_address matches Some(second) ==> a@ == second@)
            &&& address is None && core_address is None ==> a@ == "0.0.0.0:7052"@
        },
{
}

/// A server has the id that it is given, the first of its addresses, and the limit of the
/// peer until another one is set; setting it changes nothing else.
pub proof fn servers_have_what_they_are_given<A>(
    id: String,
    address: &str,
    addresses: Vec<A>,
    made: Result<Server<A>>,
    server: Server<A>,
    bytes: usize,
    limited: Server<A>,
    given_id: &str,
    given_address: &A,
    limit: usize,
)
    requires
        call_ensures(Server::<A>::new, (id, address, Ok(addresses)), made),
        id@.len() > 0,
        addresses@.len() > 0,
        made matches Ok(s) ==> server == s,
        call_ensures(Server::<A>::max_message_size, (server, bytes), limited),
        call_ensures(Server::<A>::chaincode_id, (&limited,), given_id),
        call_ensures(Server::<A>::address, (&limited,), given_address),
        call_ensures(Server::<A>::message_limit, (&limited,), limit),
    ensures
        made is Ok,
        server@.max_message_size == 104_857_600,
        given_id@ == id@,
        *given_address == addresses@[0],
        limit == bytes,
{
}

/// A server is not made with an empty id, nor with an address that did not resolve or
/// resolved to nothing.
pub proof fn servers_need_an_id_and_an_address<A>(
    id: String,
    address: &str,
    none: Vec<A>,
    fault: String,
    unresolved: Result<Server<A>>,
    nothing: Result<Server<A>>,
    word: &str,
    checked: Result<()>,
)
    requires
        call_ensures(Server::<A>::new, (id, address, Err(fault)), unresolved),
        call_ensures(Server::<A>::new, (id, address, Ok(none)), nothing),
        none@.len() == 0,
        call_ensures(require_chaincode_id, (word,), checked),
    ensures
        checked is Err <==> word@.len() == 0,
        checked matches Err(e) ==> e@ == ErrorView::Config("chaincode id must not be empty"@),
        id@.len() == 0 ==> (unresolved matches Err(e) && e@ == ErrorView::Config(
            "chaincode id must not be empty"@,
        )) && (nothing matches Err(e) && e@ == ErrorView::Config(
            "chaincode id must not be empty"@,
        )),
        id@.len() > 0 ==> (unresolved matches Err(e) && e@ == ErrorView::Config(
            "invalid address "@ + text::debug_form(address@) + ": "@ + fault@,
        )),
        id@.len() > 0 ==> (nothing matches Err(e) && e@ == ErrorView::Config(
            "address "@ + text::debug_form(address@) + " resolved to nothing"@,
        )),
{
}

/// A server from the environment is the server of its settings.
pub proof fn servers_follow_their_settings<A>(
    id: Option<String>,
    core_id: Option<String>,
    address: Option<String>,
    core_address: Option<String>,
    resolved: std::result::Result<Vec<A>, String>,
    given: Result<(String, String)>,
    where_to: &str,
    by_hand: Result<Server<A>>,
    by_environment: Result<Server<A>>,
)
    requires
        call_ensures(settings, (id, core_id, address, core_address), given),
        given matches Ok((_, a)) ==> where_to@ == a@,
        given is Ok ==> call_ensures(
            Server::<A>::new,
            (given->Ok_0.0, where_to, resolved),
            by_hand,
        ),
        call_ensures(
            Server::<A>::from_env,
            (id, core_id, address, core_address, resolved),
            by_environment,
        ),
    ensures
        given matches Err(e) ==> (by_environment matches Err(told) && told@ == e@),
        given is Ok ==> (by_environment is Ok <==> by_hand is Ok),
        given is Ok ==> (by_hand matches Ok(server) ==> by_environment->Ok_0@ == server@),
        given is Ok ==> (by_hand matches Err(e) ==> by_environment->Err_0@ == e@),
{
}

/// An address that cannot be bound is told with what went wrong.
pub proof fn addresses_that_cannot_be_bound_are_told(address: &str, fault: &str, given: Error)
    requires
        call_ensures(bind_error, (address, fault), given),
    ensures
        given@ == ErrorView::Transport("bind "@ + address@ + ": "@ + fault@),
{
}

/// All tasks together make at least the wanted calls, and would not with one less each;
/// the calls that did not fail are the others.
pub proof fn benchmarks_count_their_calls(
    total: usize,
    concurrency: usize,
    per_task: usize,
    outcomes: Vec<Option<usize>>,
    failures: usize,
    completed: usize,
)
    requires
        call_ensures(calls_per_task, (total, concurrency), per_task),
        concurrency > 0,
        call_ensures(count_failures, (&outcomes, per_task), failures),
        call_ensures(completed_calls, (concurrency, per_task, failures), completed),
    ensures
        per_task * concurrency >= total,
        per_task > 0 ==> (per_task - 1) * concurrency < total,
        failures == failures_of(outcomes@, per_task),
        completed + failures == concurrency * per_task,
{
}

/// The assets of a benchmark are named by the run, the chaincode, the task and the call.
pub proof fn assets_are_named_by_their_call(
    run: &str,
    chaincode: &str,
    task: usize,
    call: usize,
    one: String,
    many: String,
)
    requires
        call_ensures(sequential_id, (run, chaincode, call), one),
        call_ensures(concurrent_id, (run, chaincode, task, call), many),
    ensures
        one@ == run@ + "-"@ + chaincode@ + "-seq-"@ + text::decimal(call as nat),
        many@ == run@ + "-"@ + chaincode@ + "-c"@ + text::decimal(task as nat) + "-"@
            + text::decimal(call as nat),
{
}

} // verus!
