//! Running a contract: which transaction a call names, how its arguments are read
//! and what its outcome is, and the metadata that describes it.

use vstd::prelude::*;

use crate::contract::ContractArg;
use crate::json::Value;
use crate::metadata::{
    schemas_json, Contract, ContractView, InfoView, Metadata, MetadataView, ParameterView,
    Transaction, TransactionView, CONTRACT_SCHEMA_URL,
};
use crate::response::{Response, ResponseView};
use crate::text;
use crate::text_map::{inserted, ordered, TextMap};

verus! {

// ---- routing ---------------------------------------------------------------
/// A transaction that can be called: the name it is called by, and the number of
/// its parameters.
#[derive(Debug, Clone)]
pub struct Signature {
    pub wire_name: String,
    pub params: usize,
}

/// What follows the last colon of `full`; all of it where there is none.
pub open spec fn last_segment(full: Seq<char>) -> Seq<char>
    decreases full.len(),
{
    if full.len() == 0 || full.last() == ':' {
        seq![]
    } else {
        last_segment(full.drop_last()).push(full.last())
    }
}

/// The place of the first transaction called `function`.
pub open spec fn called(signatures: Seq<Signature>, function: Seq<char>) -> Option<int>
    decreases signatures.len(),
{
    if signatures.len() == 0 {
        None
    } else {
        match called(signatures.drop_last(), function) {
            Some(i) => Some(i),
            None => if signatures.last().wire_name@ == function {
                Some(signatures.len() - 1)
            } else {
                None
            },
        }
    }
}

/// The transaction that a call with the given arguments runs, or what is wrong with
/// the call.
pub open spec fn routed(args: Seq<Seq<u8>>, signatures: Seq<Signature>) -> Result<int, Seq<char>> {
    if args.len() == 0 {
        Err("no function specified"@)
    } else {
        let function = last_segment(text::lossy(args[0]));
        match called(signatures, function) {
            None => Err("unknown function "@ + function),
            Some(i) => if args.len() - 1 != signatures[i].params {
                Err(
                    signatures[i].wire_name@ + " expects "@ + text::decimal(
                        signatures[i].params as nat,
                    ) + " argument(s), got "@ + text::decimal((args.len() - 1) as nat),
                )
            } else {
                Ok(i)
            },
        }
    }
}

/// The name of the function in a call such as `Contract:Function`.
pub fn function_name(full: &str) -> (r: String)
    ensures
        r@ == last_segment(full@),
{
    let chars = text::chars_of(full);
    let mut from: usize = chars.len();
    assert(chars@.take(from as int) =~= full@);
    assert(chars@.skip(from as int) =~= seq![]);
    assert(last_segment(full@) =~= last_segment(full@) + Seq::<char>::empty());
    while from > 0 && chars[from - 1] != ':'
        invariant
            chars@ == full@,
            0 <= from <= chars@.len(),
            last_segment(full@) == last_segment(chars@.take(from as int)) + chars@.skip(
                from as int,
            ),
        decreases from,
    {
        assert(chars@.take(from as int).drop_last() =~= chars@.take(from - 1));
        from = from - 1;
        assert(last_segment(chars@.take(from + 1)) + chars@.skip(from + 1) =~= last_segment(
            chars@.take(from as int),
        ) + chars@.skip(from as int));
    }
    let r = text::text_between(chars.as_slice(), from, chars.len());
    assert(r@ =~= chars@.skip(from as int));
    assert(last_segment(chars@.take(from as int)) + chars@.skip(from as int) =~= r@);
    r
}

proof fn lemma_called_first(signatures: Seq<Signature>, function: Seq<char>, i: int)
    requires
        0 <= i < signatures.len(),
        called(signatures.take(i), function) is None,
        signatures[i].wire_name@ == function,
    ensures
        called(signatures, function) == Some(i),
    decreases signatures.len(),
{
    if i == signatures.len() - 1 {
        assert(signatures.take(i) =~= signatures.drop_last());
    } else {
        assert(signatures.drop_last().take(i) =~= signatures.take(i));
        lemma_called_first(signatures.drop_last(), function, i);
    }
}

/// Finds the transaction that a call runs. `Err` is the response to a call that
/// names none or has the wrong number of arguments.
pub fn route(args: &[Vec<u8>], signatures: &Vec<Signature>) -> (r: Result<usize, Response>)
    ensures
        match routed(
            Seq::new(args@.len(), |i: int| args@[i]@),
            signatures@,
        ) {
            Ok(i) => r matches Ok(index) && index == i && 0 <= i < signatures@.len()
                && args@.len() == signatures@[i].params + 1,
            Err(fault) => r matches Err(response) && response@ == ResponseView::error(fault),
        },
        args@.len() > 0 ==> text::lossy_keeps_text(args@[0]@),
{
    if args.len() == 0 {
        return Err(Response::error("no function specified".to_owned()));
    }
    let full = text::lossy_text(args[0].as_slice());
    let function = function_name(full.as_str());
    let mut i: usize = 0;
    assert(signatures@.take(0) =~= Seq::<Signature>::empty());
    while i < signatures.len()
        invariant
            0 <= i <= signatures@.len(),
            args@.len() > 0,
            text::lossy_keeps_text(args@[0]@),
            function@ == last_segment(text::lossy(args@[0]@)),
            called(signatures@.take(i as int), function@) is None,
        decreases signatures@.len() - i,
    {
        let signature = &signatures[i];
        if text::same_text(signature.wire_name.as_str(), function.as_str()) {
            proof {
                lemma_called_first(signatures@, function@, i as int);
            }
            if args.len() - 1 != signature.params {
                let mut fault = text::triple(
                    signature.wire_name.as_str(),
                    " expects ",
                    text::decimal_text(signature.params as u64).as_str(),
                );
                fault.append(" argument(s), got ");
                fault.append(text::decimal_text((args.len() - 1) as u64).as_str());
                return Err(Response::error(fault));
            }
            return Ok(i);
        }
        assert(signatures@.take(i + 1).drop_last() =~= signatures@.take(i as int));
        i = i + 1;
    }
    assert(signatures@.take(i as int) =~= signatures@);
    Err(Response::error(text::pair("unknown function ", function.as_str())))
}

/// A call by `Contract:Function` runs what a call by `Function` with the same
/// arguments does, where the name of the function holds no colon.
pub proof fn namespaced_calls_run_the_same(
    namespaced: Seq<Seq<u8>>,
    plain: Seq<Seq<u8>>,
    contract: Seq<char>,
    function: Seq<char>,
    signatures: Seq<Signature>,
)
    requires
        !function.contains(':'),
        namespaced.len() > 0,
        plain.len() > 0,
        namespaced.skip(1) == plain.skip(1),
        text::lossy(namespaced[0]) == contract + seq![':'] + function,
        text::lossy(plain[0]) == function,
    ensures
        routed(namespaced, signatures) == routed(plain, signatures),
{
    lemma_last_segment(contract, function);
    assert(namespaced.skip(1).len() == namespaced.len() - 1);
    assert(plain.skip(1).len() == plain.len() - 1);
}

proof fn lemma_last_segment(contract: Seq<char>, function: Seq<char>)
    requires
        !function.contains(':'),
    ensures
        last_segment(contract + seq![':'] + function) == last_segment(function),
        last_segment(function) == function,
    decreases function.len(),
{
    let full = contract + seq![':'] + function;
    if function.len() == 0 {
        assert(full.last() == ':');
        assert(last_segment(function) =~= function);
    } else {
        let shorter = function.drop_last();
        assert(function.contains(function.last()));
        assert forall|i: int| 0 <= i < shorter.len() implies shorter[i] != ':' by {
            assert(function.contains(function[i]));
        }
        lemma_last_segment(contract, shorter);
        assert(full.drop_last() =~= contract + seq![':'] + shorter);
        assert(full.last() == function.last());
        assert(last_segment(function) =~= function);
    }
}

// ---- running ---------------------------------------------------------------
/// What is said of an argument that cannot be read.
pub open spec fn argument_fault(name: Seq<char>, fault: Seq<char>) -> Seq<char> {
    "invalid argument `"@ + name + "`: "@ + fault
}

/// Takes what reading an argument gave. `Err` is the response to one that could not
/// be read.
pub fn accept_argument<T>(read: Result<T, String>, name: &str) -> (r: Result<T, Response>)
    ensures
        match read {
            Ok(value) => r == Ok::<T, Response>(value),
            Err(fault) => r matches Err(response) && response@ == ResponseView::error(
                argument_fault(name@, fault@),
            ),
        },
{
    match read {
        Ok(value) => Ok(value),
        Err(fault) => {
            let mut said = text::triple("invalid argument `", name, "`: ");
            said.append(fault.as_str());
            Err(Response::error(said))
        },
    }
}

/// Reads the argument of a parameter, counted from one. `Err` is the response to
/// one that cannot be read.
pub fn read_argument<T: ContractArg>(args: &[Vec<u8>], index: usize, name: &str) -> (r: Result<
    T,
    Response,
>)
    requires
        index < args@.len(),
    ensures
        match r {
            Ok(value) => T::reads(args@[index as int]@, Ok(value)),
            Err(response) => exists|fault: String| #[trigger]
                T::reads(args@[index as int]@, Err(fault)) && response@ == ResponseView::error(
                    argument_fault(name@, fault@),
                ),
        },
{
    accept_argument(T::from_arg(args[index].as_slice()), name)
}

/// The response of a transaction that gave a value, which was written as `payload`
/// or could not be, or that failed.
pub fn conclude(outcome: Result<Result<Vec<u8>, String>, String>) -> (r: Response)
    ensures
        r@ == match outcome {
            Ok(Ok(payload)) => ResponseView::success(payload@),
            Ok(Err(fault)) => ResponseView::error(fault@),
            Err(failure) => ResponseView::error(failure@),
        },
{
    match outcome {
        Ok(Ok(payload)) => Response::success(payload),
        Ok(Err(fault)) => Response::error(fault),
        Err(failure) => Response::error(failure),
    }
}

// ---- metadata --------------------------------------------------------------
/// The parameters with the given names and schemas.
pub open spec fn parameter_views(parameters: Seq<(String, Value)>) -> Seq<ParameterView> {
    Seq::new(
        parameters.len(),
        |i: int|
            ParameterView {
                name: parameters[i].0@,
                schema: parameters[i].1.json(),
                description: None,
            },
    )
}

/// The metadata of a transaction, which is tagged by whether it only reads.
pub fn describe_transaction(
    wire_name: String,
    evaluate: bool,
    parameters: Vec<(String, Value)>,
    ok_schema: Option<Value>,
) -> (r: Transaction)
    ensures
        r@ == (TransactionView {
            name: wire_name@,
            tag: seq![
                if evaluate {
                    "evaluate"@
                } else {
                    "submit"@
                },
            ],
            parameters: parameter_views(parameters@),
            returns: match ok_schema {
                Some(schema) => Some(schema.json()),
                None => None,
            },
        }),
{
    let mut tx = if evaluate {
        Transaction::evaluate(wire_name)
    } else {
        Transaction::submit(wire_name)
    };
    let ghost all = parameters@;
    let mut left = parameters;
    let ghost mut done: int = 0;
    assert(all.skip(0) =~= all);
    assert(tx@.parameters =~= parameter_views(all.take(0)));
    while left.len() > 0
        invariant
            0 <= done <= all.len(),
            left@ == all.skip(done),
            tx@ == (TransactionView {
                name: wire_name@,
                tag: seq![
                    if evaluate {
                        "evaluate"@
                    } else {
                        "submit"@
                    },
                ],
                parameters: parameter_views(all.take(done)),
                returns: None,
            }),
        decreases left@.len(),
    {
        let (name, schema) = left.remove(0);
        let ghost before = tx@.parameters;
        tx = tx.parameter(name, schema);
        proof {
            assert(left@ =~= all.skip(done + 1));
            assert(tx@.parameters =~= parameter_views(all.take(done + 1)));
            done = done + 1;
        }
    }
    assert(all.take(done) =~= all);
    match ok_schema {
        Some(schema) => tx.returning(schema),
        None => tx,
    }
}

proof fn lemma_reinserted<V>(entries: Seq<(Seq<char>, V)>, count: int)
    requires
        ordered(entries),
        0 <= count < entries.len(),
    ensures
        inserted(entries.take(count), entries[count].0, entries[count].1) == entries.take(
            count + 1,
        ),
{
    lemma_inserted_behind(entries.take(count), entries[count].0, entries[count].1);
    assert(entries.take(count).push(entries[count]) =~= entries.take(count + 1));
}

proof fn lemma_inserted_behind<V>(entries: Seq<(Seq<char>, V)>, key: Seq<char>, value: V)
    requires
        forall|i: int|
            0 <= i < entries.len() ==> crate::text_map::before((#[trigger] entries[i]).0, key),
    ensures
        inserted(entries, key, value) == entries.push((key, value)),
    decreases entries.len(),
{
    if entries.len() > 0 {
        let first = entries[0].0;
        if crate::text_map::before(key, first) {
            crate::text_map::before_is_transitive(key, first, key);
        }
        crate::text_map::before_is_irreflexive(key);
        lemma_inserted_behind(entries.skip(1), key, value);
    }
    assert(inserted(entries, key, value) =~= entries.push((key, value)));
}

/// What transactions say.
pub open spec fn transaction_views(transactions: Seq<Transaction>) -> Seq<TransactionView> {
    Seq::new(transactions.len(), |i: int| transactions[i]@)
}

/// The metadata of a chaincode with one contract and the schemas that its
/// transactions refer to.
pub fn describe_contract(
    contract_name: String,
    title: String,
    version: String,
    transactions: Vec<Transaction>,
    components: TextMap<Value>,
) -> (r: Metadata)
    ensures
        r@ == (MetadataView {
            schema: CONTRACT_SCHEMA_URL@,
            info: InfoView { title: title@, version: version@, description: None },
            contracts: seq![
                (
                    contract_name@,
                    ContractView {
                        name: contract_name@,
                        info: InfoView {
                            title: contract_name@,
                            version: "latest"@,
                            description: None,
                        },
                        transactions: transaction_views(transactions@),
                        default: true,
                    },
                ),
            ],
            schemas: schemas_json(components@),
        }),
{
    let mut contract = Contract::new(contract_name);
    let ghost listed = transactions@;
    let mut left = transactions;
    let ghost mut done: int = 0;
    assert(listed.skip(0) =~= listed);
    assert(contract@.transactions =~= transaction_views(listed.take(0)));
    while left.len() > 0
        invariant
            0 <= done <= listed.len(),
            left@ == listed.skip(done),
            contract@ == (ContractView {
                name: contract_name@,
                info: InfoView {
                    title: contract_name@,
                    version: "latest"@,
                    description: None,
                },
                transactions: transaction_views(listed.take(done)),
                default: true,
            }),
        decreases left@.len(),
    {
        let tx = left.remove(0);
        contract = contract.transaction(tx);
        proof {
            assert(left@ =~= listed.skip(done + 1));
            assert(contract@.transactions =~= transaction_views(listed.take(done + 1)));
            done = done + 1;
        }
    }
    assert(listed.take(done) =~= listed);
    let mut document = Metadata::new(title, version);
    let ghost schemas = schemas_json(components@);
    let ghost named = components@;
    let mut pairs = components.into_pairs();
    let ghost all = pairs@;
    let ghost mut put: int = 0;
    proof {
        assert(all.skip(0) =~= all);
        assert(schemas.take(0) =~= seq![]);
        assert(ordered(schemas)) by {
            assert forall|i: int, j: int| 0 <= i < j < schemas.len() implies
                crate::text_map::before((#[trigger] schemas[i]).0, (#[trigger] schemas[j]).0) by {
                assert(crate::text_map::before(named[i].0, named[j].0));
            }
        }
    }
    while pairs.len() > 0
        invariant
            0 <= put <= all.len(),
            pairs@ == all.skip(put),
            all.len() == named.len(),
            schemas == schemas_json(named),
            ordered(schemas),
            forall|i: int|
                0 <= i < all.len() ==> (#[trigger] all[i]).0@ == named[i].0 && all[i].1
                    == named[i].1,
            document@ == (MetadataView {
                schema: CONTRACT_SCHEMA_URL@,
                info: InfoView { title: title@, version: version@, description: None },
                contracts: seq![],
                schemas: schemas.take(put),
            }),
        decreases pairs@.len(),
    {
        let (name, schema) = pairs.remove(0);
        proof {
            assert(all[put] == (name, schema));
            lemma_reinserted(schemas, put);
        }
        document = document.component(name, schema);
        proof {
            assert(pairs@ =~= all.skip(put + 1));
            put = put + 1;
        }
    }
    assert(schemas.take(put) =~= schemas);
    let r = document.contract(contract);
    assert(r@.contracts =~= seq![(contract_name@, contract@)]);
    r
}

} // verus!
