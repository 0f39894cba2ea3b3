//! Contract metadata, served for the `org.hyperledger.fabric:GetMetadata` system
//! function.
//!
//! Parameter and return schemas are free-form JSON Schema values.

use vstd::prelude::*;

use crate::json::{Json, Value};
use crate::text;
use crate::text_map::{inserted, TextMap};

verus! {

/// The function that asks a chaincode for its metadata.
pub const METADATA_FUNCTION: &'static str = "org.hyperledger.fabric:GetMetadata";

/// Where the schema of metadata documents is found.
pub const CONTRACT_SCHEMA_URL: &'static str =
    "https://hyperledger.github.io/fabric-chaincode-node/main/api/contract-schema.json";

/// Top-level chaincode metadata document.
#[derive(Debug, Clone)]
pub struct Metadata {
    pub schema: String,
    pub info: Info,
    pub contracts: TextMap<Contract>,
    pub components: Components,
}

/// What a document or a contract is.
#[derive(Debug, Clone)]
pub struct Info {
    pub title: String,
    pub version: String,
    pub description: Option<String>,
}

/// A contract of a chaincode.
#[derive(Debug, Clone)]
pub struct Contract {
    pub name: String,
    pub info: Info,
    pub transactions: Vec<Transaction>,
    pub default: bool,
}

/// A transaction of a contract.
#[derive(Debug, Clone)]
pub struct Transaction {
    pub name: String,
    /// Conventional tags: `submit` (writes) and `evaluate` (read-only).
    pub tag: Vec<String>,
    pub parameters: Vec<Parameter>,
    pub returns: Option<Value>,
}

/// A parameter of a transaction.
#[derive(Debug, Clone)]
pub struct Parameter {
    pub name: String,
    pub schema: Value,
    pub description: Option<String>,
}

/// The schemas that others refer to by name.
#[derive(Debug, Clone)]
pub struct Components {
    pub schemas: TextMap<Value>,
}

// ---- what they say ---------------------------------------------------------
/// What an [`Info`] says.
pub struct InfoView {
    pub title: Seq<char>,
    pub version: Seq<char>,
    pub description: Option<Seq<char>>,
}

/// What a [`Parameter`] says.
pub struct ParameterView {
    pub name: Seq<char>,
    pub schema: Json,
    pub description: Option<Seq<char>>,
}

/// What a [`Transaction`] says.
pub struct TransactionView {
    pub name: Seq<char>,
    pub tag: Seq<Seq<char>>,
    pub parameters: Seq<ParameterView>,
    pub returns: Option<Json>,
}

/// What a [`Contract`] says.
pub struct ContractView {
    pub name: Seq<char>,
    pub info: InfoView,
    pub transactions: Seq<TransactionView>,
    pub default: bool,
}

/// What a [`Metadata`] says.
pub struct MetadataView {
    pub schema: Seq<char>,
    pub info: InfoView,
    pub contracts: Seq<(Seq<char>, ContractView)>,
    pub schemas: Seq<(Seq<char>, Json)>,
}

/// A value that may be missing.
pub open spec fn optional_json(value: Option<Value>) -> Option<Json> {
    match value {
        Some(v) => Some(v.json()),
        None => None,
    }
}

/// Entries with their values seen through `f`.
pub open spec fn mapped<V, W>(entries: Seq<(Seq<char>, V)>, f: spec_fn(V) -> W) -> Seq<
    (Seq<char>, W),
> {
    Seq::new(entries.len(), |i: int| (entries[i].0, f(entries[i].1)))
}

/// What named schemas say.
pub open spec fn schemas_json(entries: Seq<(Seq<char>, Value)>) -> Seq<(Seq<char>, Json)> {
    mapped(entries, |value: Value| value.json())
}

impl View for Info {
    type V = InfoView;

    open spec fn view(&self) -> InfoView {
        InfoView {
            title: self.title@,
            version: self.version@,
            description: text::optional(self.description),
        }
    }
}

impl View for Parameter {
    type V = ParameterView;

    open spec fn view(&self) -> ParameterView {
        ParameterView {
            name: self.name@,
            schema: self.schema.json(),
            description: text::optional(self.description),
        }
    }
}

impl View for Transaction {
    type V = TransactionView;

    open spec fn view(&self) -> TransactionView {
        TransactionView {
            name: self.name@,
            tag: self.tag.deep_view(),
            parameters: Seq::new(self.parameters@.len(), |i: int| self.parameters@[i]@),
            returns: optional_json(self.returns),
        }
    }
}

impl View for Contract {
    type V = ContractView;

    open spec fn view(&self) -> ContractView {
        ContractView {
            name: self.name@,
            info: self.info@,
            transactions: Seq::new(self.transactions@.len(), |i: int| self.transactions@[i]@),
            default: self.default,
        }
    }
}

impl View for Metadata {
    type V = MetadataView;

    open spec fn view(&self) -> MetadataView {
        MetadataView {
            schema: self.schema@,
            info: self.info@,
            contracts: mapped(self.contracts@, |contract: Contract| contract@),
            schemas: schemas_json(self.components.schemas@),
        }
    }
}

/// Putting an entry and then looking through `f` is the same as the reverse.
pub proof fn inserted_through<V, W>(
    entries: Seq<(Seq<char>, V)>,
    key: Seq<char>,
    value: V,
    f: spec_fn(V) -> W,
)
    ensures
        mapped(inserted(entries, key, value), f) == inserted(mapped(entries, f), key, f(value)),
    decreases entries.len(),
{
    let through = mapped(entries, f);
    if entries.len() == 0 || crate::text_map::before(key, entries[0].0) {
        assert(mapped(inserted(entries, key, value), f) =~= seq![(key, f(value))] + through);
    } else if entries[0].0 == key {
        assert(through.skip(1) =~= mapped(entries.skip(1), f));
        assert(mapped(inserted(entries, key, value), f) =~= seq![(key, f(value))]
            + through.skip(1));
    } else {
        inserted_through(entries.skip(1), key, value, f);
        assert(through.skip(1) =~= mapped(entries.skip(1), f));
        assert(mapped(inserted(entries, key, value), f) =~= seq![through[0]] + inserted(
            through.skip(1),
            key,
            f(value),
        ));
    }
}

// ---- building --------------------------------------------------------------
impl Default for Info {
    fn default() -> (r: Info)
        ensures
            r@ == (InfoView { title: seq![], version: seq![], description: None }),
    {
        Info { title: String::new(), version: String::new(), description: None }
    }
}

impl Default for Components {
    fn default() -> (r: Components)
        ensures
            r.schemas@.len() == 0,
    {
        Components { schemas: TextMap::new() }
    }
}

impl Components {
    /// Whether there are no schemas.
    pub fn is_empty(&self) -> (r: bool)
        ensures
            r == (self.schemas@.len() == 0),
    {
        self.schemas.is_empty()
    }
}

impl Default for Metadata {
    fn default() -> (r: Metadata)
        ensures
            r@ == (MetadataView {
                schema: seq![],
                info: InfoView { title: seq![], version: seq![], description: None },
                contracts: seq![],
                schemas: seq![],
            }),
    {
        let r = Metadata {
            schema: String::new(),
            info: Info::default(),
            contracts: TextMap::new(),
            components: Components::default(),
        };
        assert(r@.contracts =~= seq![]);
        assert(r@.schemas =~= seq![]);
        r
    }
}

impl Metadata {
    /// The document of a chaincode, without contracts.
    pub fn new(title: String, version: String) -> (r: Metadata)
        ensures
            r@ == (MetadataView {
                schema: CONTRACT_SCHEMA_URL@,
                info: InfoView { title: title@, version: version@, description: None },
                contracts: seq![],
                schemas: seq![],
            }),
    {
        let r = Metadata {
            schema: CONTRACT_SCHEMA_URL.to_owned(),
            info: Info { title, version, description: None },
            contracts: TextMap::new(),
            components: Components::default(),
        };
        assert(r@.contracts =~= seq![]);
        assert(r@.schemas =~= seq![]);
        r
    }

    /// Adds a contract under its name, in place of another of that name.
    pub fn contract(self, contract: Contract) -> (r: Metadata)
        ensures
            r@ == (MetadataView {
                contracts: inserted(self@.contracts, contract@.name, contract@),
                ..self@
            }),
    {
        let Metadata { schema, info, contracts, components } = self;
        let mut contracts = contracts;
        proof {
            inserted_through(
                contracts@,
                contract.name@,
                contract,
                |contract: Contract| contract@,
            );
        }
        contracts.insert(contract.name.clone(), contract);
        Metadata { schema, info, contracts, components }
    }

    /// Registers a named schema, which parameters refer to as
    /// `{"$ref": "#/components/schemas/<name>"}`.
    pub fn component(self, name: String, schema: Value) -> (r: Metadata)
        ensures
            r@ == (MetadataView {
                schemas: inserted(self@.schemas, name@, schema.json()),
                ..self@
            }),
    {
        let Metadata { schema: url, info, contracts, components } = self;
        let Components { schemas } = components;
        let mut schemas = schemas;
        proof {
            inserted_through(schemas@, name@, schema, |value: Value| value.json());
        }
        schemas.insert(name, schema);
        Metadata { schema: url, info, contracts, components: Components { schemas } }
    }
}

impl Default for Contract {
    fn default() -> (r: Contract)
        ensures
            r@ == (ContractView {
                name: seq![],
                info: InfoView { title: seq![], version: seq![], description: None },
                transactions: seq![],
                default: false,
            }),
    {
        let r = Contract {
            name: String::new(),
            info: Info::default(),
            transactions: Vec::new(),
            default: false,
        };
        assert(r@.transactions =~= seq![]);
        r
    }
}

impl Contract {
    /// A contract without transactions.
    pub fn new(name: String) -> (r: Contract)
        ensures
            r@ == (ContractView {
                name: name@,
                info: InfoView { title: name@, version: "latest"@, description: None },
                transactions: seq![],
                default: true,
            }),
    {
        let r = Contract {
            info: Info { title: name.clone(), version: "latest".to_owned(), description: None },
            name,
            transactions: Vec::new(),
            default: true,
        };
        assert(r@.transactions =~= seq![]);
        r
    }

    /// Adds a transaction.
    pub fn transaction(self, tx: Transaction) -> (r: Contract)
        ensures
            r@ == (ContractView { transactions: self@.transactions.push(tx@), ..self@ }),
    {
        let Contract { name, info, transactions, default } = self;
        let mut transactions = transactions;
        transactions.push(tx);
        let r = Contract { name, info, transactions, default };
        assert(r@.transactions =~= self@.transactions.push(tx@));
        r
    }
}

impl Default for Transaction {
    fn default() -> (r: Transaction)
        ensures
            r@ == (TransactionView {
                name: seq![],
                tag: seq![],
                parameters: seq![],
                returns: None,
            }),
    {
        let r = Transaction {
            name: String::new(),
            tag: Vec::new(),
            parameters: Vec::new(),
            returns: None,
        };
        assert(r@.tag =~= seq![]);
        assert(r@.parameters =~= seq![]);
        r
    }
}

impl Transaction {
    fn tagged(name: String, tag: &str) -> (r: Transaction)
        ensures
            r@ == (TransactionView {
                name: name@,
                tag: seq![tag@],
                parameters: seq![],
                returns: None,
            }),
    {
        let mut tags: Vec<String> = Vec::new();
        tags.push(tag.to_owned());
        let r = Transaction { name, tag: tags, parameters: Vec::new(), returns: None };
        assert(r@.tag =~= seq![tag@]);
        assert(r@.parameters =~= seq![]);
        r
    }

    /// A transaction that writes to the ledger.
    pub fn submit(name: String) -> (r: Transaction)
        ensures
            r@ == (TransactionView {
                name: name@,
                tag: seq!["submit"@],
                parameters: seq![],
                returns: None,
            }),
    {
        Transaction::tagged(name, "submit")
    }

    /// A read-only transaction.
    pub fn evaluate(name: String) -> (r: Transaction)
        ensures
            r@ == (TransactionView {
                name: name@,
                tag: seq!["evaluate"@],
                parameters: seq![],
                returns: None,
            }),
    {
        Transaction::tagged(name, "evaluate")
    }

    /// Adds a parameter.
    pub fn parameter(self, name: String, schema: Value) -> (r: Transaction)
        ensures
            r@ == (TransactionView {
                parameters: self@.parameters.push(
                    ParameterView { name: name@, schema: schema.json(), description: None },
                ),
                ..self@
            }),
    {
        let Transaction { name: own, tag, parameters, returns } = self;
        let mut parameters = parameters;
        let added = Parameter { name, schema, description: None };
        parameters.push(added);
        let r = Transaction { name: own, tag, parameters, returns };
        assert(r@.parameters =~= self@.parameters.push(added@));
        r
    }

    /// Says what the transaction returns.
    pub fn returning(self, schema: Value) -> (r: Transaction)
        ensures
            r@ == (TransactionView { returns: Some(schema.json()), ..self@ }),
    {
        let Transaction { name, tag, parameters, returns: _ } = self;
        let r = Transaction { name, tag, parameters, returns: Some(schema) };
        assert(r@.parameters =~= self@.parameters);
        r
    }
}

impl Default for Parameter {
    fn default() -> (r: Parameter)
        ensures
            r@ == (ParameterView { name: seq![], schema: Json::Null, description: None }),
    {
        Parameter { name: String::new(), schema: Value::Null, description: None }
    }
}

/// A contract that was added is found under its name, and the contracts of other
/// names stay as they were.
pub proof fn added_contracts_are_found(
    document: MetadataView,
    contract: ContractView,
    other: Seq<char>,
)
    ensures
        ({
            let after = inserted(document.contracts, contract.name, contract);
            &&& crate::text_map::found(after, contract.name) == Some(contract)
            &&& other != contract.name ==> crate::text_map::found(after, other)
                == crate::text_map::found(document.contracts, other)
        }),
{
    crate::text_map::found_after_insert(document.contracts, contract.name, contract, other);
}

} // verus!
