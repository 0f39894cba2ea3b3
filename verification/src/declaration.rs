//! What the declaration of a contract says: its options, its transactions, and
//! what is wrong with it.

use vstd::prelude::*;

use crate::text;

verus! {

// ---- declarations ----------------------------------------------------------
/// A type as it is written.
#[derive(Debug)]
pub struct TypeDecl {
    /// The tokens of the type.
    pub tokens: String,
    pub shape: TypeShape,
}

/// The form of a type.
#[derive(Debug)]
pub enum TypeShape {
    /// A path, by its segments.
    Path(Vec<Segment>),
    /// A tuple, by the number of its elements.
    Tuple(usize),
    Other,
}

/// A segment of a path.
#[derive(Debug)]
pub struct Segment {
    pub ident: String,
    pub arguments: Arguments,
}

/// The arguments of a segment.
#[derive(Debug)]
pub enum Arguments {
    Absent,
    AngleBracketed(Vec<GenericArg>),
    Parenthesized,
}

/// An argument in angle brackets.
#[derive(Debug)]
pub enum GenericArg {
    Type(TypeDecl),
    Other,
}

/// An item in the list of an attribute. A path that is more than an identifier has
/// none.
#[derive(Debug)]
pub enum MetaDecl {
    /// A path alone.
    Path { ident: Option<String> },
    /// A path with a value, which is a string literal or something else.
    NameValue { ident: Option<String>, literal: Option<String> },
    /// A path with a list.
    List,
}

/// What an attribute holds behind its path.
#[derive(Debug)]
pub enum AttrArgs {
    /// No list.
    Absent,
    /// A list of items.
    Metas(Vec<MetaDecl>),
    /// A list that is not one of items, with what is wrong with it.
    Unparsable(String),
}

/// An attribute of a method.
#[derive(Debug)]
pub struct AttrDecl {
    pub ident: Option<String>,
    pub args: AttrArgs,
}

/// A parameter of a method.
#[derive(Debug)]
pub enum InputDecl {
    Receiver,
    /// A pattern, which is an identifier or something else, and a type.
    Typed { ident: Option<String>, ty: TypeDecl },
}

/// A method in the impl block of a contract.
#[derive(Debug)]
pub struct MethodDecl {
    pub name: String,
    pub is_async: bool,
    pub attrs: Vec<AttrDecl>,
    pub inputs: Vec<InputDecl>,
    pub output: Option<TypeDecl>,
}

/// The part of a method that a fault is about.
#[derive(Debug, Clone, Copy, PartialEq, Eq, Structural)]
pub enum Spot {
    /// The list of the transaction attribute.
    Attribute,
    /// An item of that list.
    Meta(usize),
    /// The value of an item of that list.
    MetaValue(usize),
    /// The signature of the method.
    Signature,
    /// A parameter.
    Input(usize),
    /// The type of the result.
    Output,
}

/// Something wrong with a declaration.
#[derive(Debug, Clone)]
pub struct Fault {
    pub spot: Spot,
    pub message: String,
}

/// What faults say.
pub open spec fn fault_views(faults: Seq<Fault>) -> Seq<(Spot, Seq<char>)> {
    Seq::new(faults.len(), |i: int| (faults[i].spot, faults[i].message@))
}

/// An identifier that is the given one.
pub open spec fn is_ident(ident: Option<String>, wanted: Seq<char>) -> bool {
    ident matches Some(name) && name@ == wanted
}

fn ident_is(ident: &Option<String>, wanted: &str) -> (r: bool)
    ensures
        r == is_ident(*ident, wanted@),
{
    match ident {
        Some(name) => text::same_text(name.as_str(), wanted),
        None => false,
    }
}

// ---- types -----------------------------------------------------------------
/// The first type among generic arguments.
pub open spec fn first_type(args: Seq<GenericArg>) -> Option<TypeDecl>
    decreases args.len(),
{
    if args.len() == 0 {
        None
    } else {
        match args[0] {
            GenericArg::Type(ty) => Some(ty),
            GenericArg::Other => first_type(args.skip(1)),
        }
    }
}

/// The arguments in angle brackets of a path whose last segment has the given
/// name.
pub open spec fn bracketed(ty: TypeDecl, name: Seq<char>) -> Option<Seq<GenericArg>> {
    match ty.shape {
        TypeShape::Path(segments) => if segments@.len() == 0 || segments@.last().ident@ != name {
            None
        } else {
            match segments@.last().arguments {
                Arguments::AngleBracketed(args) => Some(args@),
                _ => None,
            }
        },
        _ => None,
    }
}

/// The `T` of a type that is written `Result<T, E>`.
pub open spec fn result_ok(ty: TypeDecl) -> Option<TypeDecl> {
    match bracketed(ty, "Result"@) {
        Some(args) => first_type(args),
        None => None,
    }
}

/// The `T` of a type that is written `Option<T>`.
pub open spec fn option_some(ty: TypeDecl) -> Option<TypeDecl> {
    match bracketed(ty, "Option"@) {
        Some(args) => if args.len() > 0 {
            match args[0] {
                GenericArg::Type(inner) => Some(inner),
                GenericArg::Other => None,
            }
        } else {
            None
        },
        None => None,
    }
}

fn bracketed_args<'a>(ty: &'a TypeDecl, name: &str) -> (r: Option<&'a Vec<GenericArg>>)
    ensures
        match r {
            Some(args) => bracketed(*ty, name@) == Some(args@),
            None => bracketed(*ty, name@) is None,
        },
{
    match &ty.shape {
        TypeShape::Path(segments) => {
            if segments.len() == 0 {
                return None;
            }
            let last = &segments[segments.len() - 1];
            if !text::same_text(last.ident.as_str(), name) {
                return None;
            }
            match &last.arguments {
                Arguments::AngleBracketed(args) => Some(args),
                _ => None,
            }
        },
        _ => None,
    }
}

/// Extracts `T` from a type that is written `Result<T, E>`, with or without a path
/// in front.
pub fn extract_result_ok(ty: &TypeDecl) -> (r: Option<&TypeDecl>)
    ensures
        match r {
            Some(inner) => result_ok(*ty) == Some(*inner),
            None => result_ok(*ty) is None,
        },
{
    let args = match bracketed_args(ty, "Result") {
        Some(args) => args,
        None => return None,
    };
    let mut i: usize = 0;
    assert(args@.skip(0) =~= args@);
    while i < args.len()
        invariant
            0 <= i <= args@.len(),
            bracketed(*ty, "Result"@) == Some(args@),
            first_type(args@.skip(i as int)) == first_type(args@),
        decreases args@.len() - i,
    {
        assert(args@.skip(i as int).skip(1) =~= args@.skip(i + 1));
        match &args[i] {
            GenericArg::Type(inner) => return Some(inner),
            GenericArg::Other => {},
        }
        i = i + 1;
    }
    None
}

/// The type of a field without the `Option` around it, and whether there was one.
pub fn unwrap_option(ty: &TypeDecl) -> (r: (&TypeDecl, bool))
    ensures
        match option_some(*ty) {
            Some(inner) => *r.0 == inner && r.1,
            None => *r.0 == *ty && !r.1,
        },
{
    match bracketed_args(ty, "Option") {
        Some(args) => {
            if args.len() > 0 {
                match &args[0] {
                    GenericArg::Type(inner) => return (inner, true),
                    GenericArg::Other => {},
                }
            }
            (ty, false)
        },
        None => (ty, false),
    }
}

// ---- options of a contract -------------------------------------------------
/// The options of a contract.
#[derive(Debug)]
pub struct ContractArgs {
    pub name: Option<String>,
    pub version: Option<String>,
    pub title: Option<String>,
}

/// What options say.
pub struct ArgsView {
    pub name: Option<Seq<char>>,
    pub version: Option<Seq<char>>,
    pub title: Option<Seq<char>>,
}

impl View for ContractArgs {
    type V = ArgsView;

    open spec fn view(&self) -> ArgsView {
        ArgsView {
            name: text::optional(self.name),
            version: text::optional(self.version),
            title: text::optional(self.title),
        }
    }
}

/// The identifier of an option; none reads as empty.
pub open spec fn option_key(ident: Option<String>) -> Seq<char> {
    match ident {
        Some(name) => name@,
        None => seq![],
    }
}

/// What a list of options says, or the fault of the first faulty one and its place.
/// Of two options with the same name the later one counts.
pub open spec fn contract_args(metas: Seq<MetaDecl>) -> Result<ArgsView, (Spot, Seq<char>)>
    decreases metas.len(),
{
    if metas.len() == 0 {
        Ok(ArgsView { name: None, version: None, title: None })
    } else {
        let at = (metas.len() - 1) as usize;
        match contract_args(metas.drop_last()) {
            Err(fault) => Err(fault),
            Ok(args) => match metas.last() {
                MetaDecl::NameValue { ident, literal } => match literal {
                    None => Err((Spot::MetaValue(at), "expected string literal"@)),
                    Some(value) => if option_key(ident) == "name"@ {
                        Ok(ArgsView { name: Some(value@), ..args })
                    } else if option_key(ident) == "version"@ {
                        Ok(ArgsView { version: Some(value@), ..args })
                    } else if option_key(ident) == "title"@ {
                        Ok(ArgsView { title: Some(value@), ..args })
                    } else {
                        Err(
                            (
                                Spot::Meta(at),
                                "unknown contract option `"@ + option_key(ident)
                                    + "` (expected name, version, title)"@,
                            ),
                        )
                    },
                },
                _ => Err(
                    (Spot::Meta(at), "expected key = \"value\" (name, version, title)"@),
                ),
            },
        }
    }
}

proof fn lemma_args_fail_early(metas: Seq<MetaDecl>, count: int)
    requires
        0 <= count <= metas.len(),
    ensures
        contract_args(metas.take(count)) matches Err(fault) ==> contract_args(metas) == Err::<
            ArgsView,
            _,
        >(fault),
    decreases metas.len(),
{
    if count == metas.len() {
        assert(metas.take(count) =~= metas);
    } else {
        assert(metas.drop_last().take(count) =~= metas.take(count));
        lemma_args_fail_early(metas.drop_last(), count);
    }
}

/// Reads the options of a contract.
pub fn parse_contract_args(metas: &Vec<MetaDecl>) -> (r: Result<ContractArgs, Fault>)
    ensures
        match contract_args(metas@) {
            Ok(args) => r matches Ok(given) && given@ == args,
            Err((spot, message)) => r matches Err(fault) && fault.spot == spot && fault.message@
                == message,
        },
{
    let mut out = ContractArgs { name: None, version: None, title: None };
    let mut i: usize = 0;
    assert(metas@.take(0) =~= Seq::<MetaDecl>::empty());
    while i < metas.len()
        invariant
            0 <= i <= metas@.len(),
            contract_args(metas@.take(i as int)) == Ok::<_, (Spot, Seq<char>)>(out@),
        decreases metas@.len() - i,
    {
        proof {
            assert(metas@.take(i + 1).drop_last() =~= metas@.take(i as int));
            assert(metas@.take(i + 1).last() == metas@[i as int]);
            lemma_args_fail_early(metas@, i + 1);
        }
        match &metas[i] {
            MetaDecl::NameValue { ident, literal } => {
                let value = match literal {
                    Some(value) => value.clone(),
                    None => return Err(
                        Fault {
                            spot: Spot::MetaValue(i),
                            message: "expected string literal".to_owned(),
                        },
                    ),
                };
                let key = match ident {
                    Some(name) => name.clone(),
                    None => String::new(),
                };
                if text::same_text(key.as_str(), "name") {
                    out.name = Some(value);
                } else if text::same_text(key.as_str(), "version") {
                    out.version = Some(value);
                } else if text::same_text(key.as_str(), "title") {
                    out.title = Some(value);
                } else {
                    return Err(
                        Fault {
                            spot: Spot::Meta(i),
                            message: text::triple(
                                "unknown contract option `",
                                key.as_str(),
                                "` (expected name, version, title)",
                            ),
                        },
                    );
                }
            },
            _ => return Err(
                Fault {
                    spot: Spot::Meta(i),
                    message: "expected key = \"value\" (name, version, title)".to_owned(),
                },
            ),
        }
        i = i + 1;
    }
    assert(metas@.take(i as int) =~= metas@);
    Ok(out)
}

// ---- transactions ----------------------------------------------------------
/// What the list of a transaction attribute says.
pub struct TxOptions {
    pub evaluate: bool,
    pub name: Option<Seq<char>>,
    pub faults: Seq<(Spot, Seq<char>)>,
}

/// What the items of a transaction attribute say. Of contradicting items the later
/// one counts.
pub open spec fn tx_options(metas: Seq<MetaDecl>) -> TxOptions
    decreases metas.len(),
{
    if metas.len() == 0 {
        TxOptions { evaluate: false, name: None, faults: seq![] }
    } else {
        let at = (metas.len() - 1) as usize;
        let earlier = tx_options(metas.drop_last());
        let strange = TxOptions {
            faults: earlier.faults.push(
                (Spot::Meta(at), "expected `submit`, `evaluate`, or `name = \"...\"`"@),
            ),
            ..earlier
        };
        match metas.last() {
            MetaDecl::Path { ident } => if is_ident(ident, "evaluate"@) {
                TxOptions { evaluate: true, ..earlier }
            } else if is_ident(ident, "submit"@) {
                TxOptions { evaluate: false, ..earlier }
            } else {
                strange
            },
            MetaDecl::NameValue { ident, literal } => if is_ident(ident, "name"@) {
                match literal {
                    Some(value) => TxOptions { name: Some(value@), ..earlier },
                    None => TxOptions {
                        faults: earlier.faults.push(
                            (Spot::MetaValue(at), "expected string literal"@),
                        ),
                        ..earlier
                    },
                }
            } else {
                strange
            },
            MetaDecl::List => strange,
        }
    }
}

/// What the parameters behind the receiver and the context say: their names and
/// types, and the faults of those that are not simple identifiers.
pub open spec fn tx_params(inputs: Seq<InputDecl>) -> (
    Seq<(Seq<char>, Seq<char>)>,
    Seq<(Spot, Seq<char>)>,
)
    decreases inputs.len(),
{
    if inputs.len() <= 2 {
        (seq![], seq![])
    } else {
        let (params, faults) = tx_params(inputs.drop_last());
        match inputs.last() {
            InputDecl::Receiver => (params, faults),
            InputDecl::Typed { ident: Some(name), ty } => (
                params.push((name@, ty.tokens@)),
                faults,
            ),
            InputDecl::Typed { ident: None, ty: _ } => (
                params,
                faults.push(
                    (
                        Spot::Input((inputs.len() - 1) as usize),
                        "#[transaction] parameters must be simple identifiers"@,
                    ),
                ),
            ),
        }
    }
}

/// A transaction as it is declared.
#[verifier::ext_equal]
pub struct ShapeView {
    pub name: Option<Seq<char>>,
    pub evaluate: bool,
    pub method: Seq<char>,
    pub is_async: bool,
    pub params: Seq<(Seq<char>, Seq<char>)>,
    pub ok_ty: Option<Seq<char>>,
}

/// The place of the first attribute that makes a method a transaction.
pub open spec fn transaction_attr(attrs: Seq<AttrDecl>) -> Option<int>
    decreases attrs.len(),
{
    if attrs.len() == 0 {
        None
    } else {
        match transaction_attr(attrs.drop_last()) {
            Some(i) => Some(i),
            None => if is_ident(attrs.last().ident, "transaction"@) {
                Some(attrs.len() - 1)
            } else {
                None
            },
        }
    }
}

/// What the transaction attribute of a method says.
pub open spec fn attr_options(args: AttrArgs) -> Result<TxOptions, Seq<char>> {
    match args {
        AttrArgs::Absent => Ok(TxOptions { evaluate: false, name: None, faults: seq![] }),
        AttrArgs::Metas(metas) => Ok(tx_options(metas@)),
        AttrArgs::Unparsable(fault) => Err(fault@),
    }
}

/// What is wrong with a method, and the transaction that it declares where it
/// declares one. A method without the attribute declares none.
pub open spec fn declared(method: MethodDecl) -> (Seq<(Spot, Seq<char>)>, Option<ShapeView>) {
    match transaction_attr(method.attrs@) {
        None => (seq![], None),
        Some(i) => match attr_options(method.attrs@[i].args) {
            Err(fault) => (seq![(Spot::Attribute, fault)], None),
            Ok(options) => {
                let inputs = method.inputs@;
                let (params, param_faults) = tx_params(inputs);
                if inputs.len() == 0 || !(inputs[0] is Receiver) {
                    (
                        options.faults.push(
                            (Spot::Signature, "#[transaction] methods must take &self"@),
                        ),
                        None,
                    )
                } else if inputs.len() == 1 {
                    (
                        options.faults.push(
                            (
                                Spot::Signature,
                                "#[transaction] methods must take a context as their first argument, e.g. `ctx: &ChaincodeStub`"@,
                            ),
                        ),
                        None,
                    )
                } else if param_faults.len() > 0 {
                    (options.faults + param_faults, None)
                } else {
                    match method.output {
                        None => (
                            options.faults.push(
                                (
                                    Spot::Signature,
                                    "#[transaction] methods must return Result<T, E> (E: Display)"@,
                                ),
                            ),
                            None,
                        ),
                        Some(output) => match result_ok(output) {
                            None => (
                                options.faults.push(
                                    (
                                        Spot::Output,
                                        "#[transaction] methods must return Result<T, E> (E: Display)"@,
                                    ),
                                ),
                                None,
                            ),
                            Some(ok) => (
                                options.faults,
                                Some(
                                    ShapeView {
                                        name: options.name,
                                        evaluate: options.evaluate,
                                        method: method.name@,
                                        is_async: method.is_async,
                                        params,
                                        ok_ty: if ok.shape == TypeShape::Tuple(0) {
                                            None
                                        } else {
                                            Some(ok.tokens@)
                                        },
                                    },
                                ),
                            ),
                        },
                    }
                }
            },
        },
    }
}

/// A parameter of a transaction: its name and its type.
#[derive(Debug, Clone)]
pub struct ParamShape {
    pub ident: String,
    pub ty: String,
}

/// A transaction as it is declared. Without a result type it returns nothing.
#[derive(Debug, Clone)]
pub struct TxShape {
    pub name: Option<String>,
    pub evaluate: bool,
    pub method: String,
    pub is_async: bool,
    pub params: Vec<ParamShape>,
    pub ok_ty: Option<String>,
}

/// What parameters say.
pub open spec fn param_views(params: Seq<ParamShape>) -> Seq<(Seq<char>, Seq<char>)> {
    Seq::new(params.len(), |i: int| (params[i].ident@, params[i].ty@))
}

impl View for TxShape {
    type V = ShapeView;

    open spec fn view(&self) -> ShapeView {
        ShapeView {
            name: text::optional(self.name),
            evaluate: self.evaluate,
            method: self.method@,
            is_async: self.is_async,
            params: param_views(self.params@),
            ok_ty: text::optional(self.ok_ty),
        }
    }
}

fn push_fault(faults: &mut Vec<Fault>, spot: Spot, message: &str)
    ensures
        fault_views(final(faults)@) == fault_views(old(faults)@).push((spot, message@)),
{
    faults.push(Fault { spot, message: message.to_owned() });
    assert(fault_views(faults@) =~= fault_views(old(faults)@).push((spot, message@)));
}

proof fn lemma_first_attr(attrs: Seq<AttrDecl>, i: int)
    requires
        0 <= i < attrs.len(),
        transaction_attr(attrs.take(i)) is None,
        is_ident(attrs[i].ident, "transaction"@),
    ensures
        transaction_attr(attrs) == Some(i),
    decreases attrs.len(),
{
    if i == attrs.len() - 1 {
        assert(attrs.take(i) =~= attrs.drop_last());
    } else {
        assert(attrs.drop_last().take(i) =~= attrs.take(i));
        lemma_first_attr(attrs.drop_last(), i);
    }
}

/// Finds the attribute that makes a method a transaction.
pub fn find_transaction(attrs: &Vec<AttrDecl>) -> (r: Option<usize>)
    ensures
        match r {
            Some(i) => transaction_attr(attrs@) == Some(i as int) && i < attrs@.len(),
            None => transaction_attr(attrs@) is None,
        },
{
    let mut i: usize = 0;
    assert(attrs@.take(0) =~= Seq::<AttrDecl>::empty());
    while i < attrs.len()
        invariant
            0 <= i <= attrs@.len(),
            transaction_attr(attrs@.take(i as int)) is None,
        decreases attrs@.len() - i,
    {
        if ident_is(&attrs[i].ident, "transaction") {
            proof {
                lemma_first_attr(attrs@, i as int);
            }
            return Some(i);
        }
        assert(attrs@.take(i + 1).drop_last() =~= attrs@.take(i as int));
        i = i + 1;
    }
    assert(attrs@.take(i as int) =~= attrs@);
    None
}

fn read_metas(metas: &Vec<MetaDecl>, faults: &mut Vec<Fault>) -> (r: (bool, Option<String>))
    ensures
        r.0 == tx_options(metas@).evaluate,
        text::optional(r.1) == tx_options(metas@).name,
        fault_views(final(faults)@) == fault_views(old(faults)@) + tx_options(metas@).faults,
{
    let mut evaluate = false;
    let mut name: Option<String> = None;
    let mut i: usize = 0;
    let ghost had = fault_views(faults@);
    assert(metas@.take(0) =~= Seq::<MetaDecl>::empty());
    assert(had + Seq::<(Spot, Seq<char>)>::empty() =~= had);
    while i < metas.len()
        invariant
            0 <= i <= metas@.len(),
            evaluate == tx_options(metas@.take(i as int)).evaluate,
            text::optional(name) == tx_options(metas@.take(i as int)).name,
            fault_views(faults@) == had + tx_options(metas@.take(i as int)).faults,
        decreases metas@.len() - i,
    {
        let ghost earlier = tx_options(metas@.take(i as int)).faults;
        proof {
            assert(metas@.take(i + 1).drop_last() =~= metas@.take(i as int));
            assert(metas@.take(i + 1).last() == metas@[i as int]);
        }
        match &metas[i] {
            MetaDecl::Path { ident } => {
                if ident_is(ident, "evaluate") {
                    evaluate = true;
                } else if ident_is(ident, "submit") {
                    evaluate = false;
                } else {
                    push_fault(
                        faults,
                        Spot::Meta(i),
                        "expected `submit`, `evaluate`, or `name = \"...\"`",
                    );
                }
            },
            MetaDecl::NameValue { ident, literal } => {
                if ident_is(ident, "name") {
                    match literal {
                        Some(value) => {
                            name = Some(value.clone());
                        },
                        None => {
                            push_fault(faults, Spot::MetaValue(i), "expected string literal");
                        },
                    }
                } else {
                    push_fault(
                        faults,
                        Spot::Meta(i),
                        "expected `submit`, `evaluate`, or `name = \"...\"`",
                    );
                }
            },
            MetaDecl::List => {
                push_fault(
                    faults,
                    Spot::Meta(i),
                    "expected `submit`, `evaluate`, or `name = \"...\"`",
                );
            },
        }
        assert(fault_views(faults@) =~= had + tx_options(metas@.take(i + 1)).faults);
        i = i + 1;
    }
    assert(metas@.take(i as int) =~= metas@);
    (evaluate, name)
}

fn read_params(inputs: &Vec<InputDecl>, faults: &mut Vec<Fault>) -> (r: Vec<ParamShape>)
    requires
        inputs@.len() >= 2,
    ensures
        param_views(r@) == tx_params(inputs@).0,
        fault_views(final(faults)@) == fault_views(old(faults)@) + tx_params(inputs@).1,
{
    let mut params: Vec<ParamShape> = Vec::new();
    let ghost had = fault_views(faults@);
    let mut i: usize = 2;
    assert(param_views(params@) =~= seq![]);
    assert(had + Seq::<(Spot, Seq<char>)>::empty() =~= had);
    while i < inputs.len()
        invariant
            2 <= i <= inputs@.len(),
            param_views(params@) == tx_params(inputs@.take(i as int)).0,
            fault_views(faults@) == had + tx_params(inputs@.take(i as int)).1,
        decreases inputs@.len() - i,
    {
        proof {
            assert(inputs@.take(i + 1).drop_last() =~= inputs@.take(i as int));
            assert(inputs@.take(i + 1).last() == inputs@[i as int]);
        }
        let ghost earlier = params@;
        match &inputs[i] {
            InputDecl::Receiver => {},
            InputDecl::Typed { ident, ty } => match ident {
                Some(name) => {
                    params.push(ParamShape { ident: name.clone(), ty: ty.tokens.clone() });
                    assert(param_views(params@) =~= param_views(earlier).push(
                        (name@, ty.tokens@),
                    ));
                },
                None => {
                    push_fault(
                        faults,
                        Spot::Input(i),
                        "#[transaction] parameters must be simple identifiers",
                    );
                },
            },
        }
        assert(fault_views(faults@) =~= had + tx_params(inputs@.take(i + 1)).1);
        i = i + 1;
    }
    assert(inputs@.take(i as int) =~= inputs@);
    params
}

/// Reads the declaration of a method. What is wrong with it is added to `faults`.
pub fn read_method(method: &MethodDecl, faults: &mut Vec<Fault>) -> (r: Option<TxShape>)
    ensures
        fault_views(final(faults)@) == fault_views(old(faults)@) + declared(*method).0,
        match declared(*method).1 {
            Some(shape) => r matches Some(given) && given@ == shape,
            None => r is None,
        },
{
    let ghost had = fault_views(faults@);
    assert(had + Seq::<(Spot, Seq<char>)>::empty() =~= had);
    let at = match find_transaction(&method.attrs) {
        Some(at) => at,
        None => return None,
    };
    let (evaluate, name): (bool, Option<String>) = match &method.attrs[at].args {
        AttrArgs::Absent => (false, None),
        AttrArgs::Metas(metas) => read_metas(metas, faults),
        AttrArgs::Unparsable(fault) => {
            push_fault(faults, Spot::Attribute, fault.as_str());
            assert(fault_views(faults@) =~= had + seq![(Spot::Attribute, fault@)]);
            return None;
        },
    };
    let ghost options = attr_options(method.attrs@[at as int].args)->Ok_0;
    assert(fault_views(faults@) == had + options.faults);
    let takes_self = method.inputs.len() > 0 && matches!(&method.inputs[0], InputDecl::Receiver);
    if !takes_self {
        push_fault(faults, Spot::Signature, "#[transaction] methods must take &self");
        assert(fault_views(faults@) =~= had + declared(*method).0);
        return None;
    }
    if method.inputs.len() == 1 {
        push_fault(
            faults,
            Spot::Signature,
            "#[transaction] methods must take a context as their first argument, e.g. `ctx: &ChaincodeStub`",
        );
        assert(fault_views(faults@) =~= had + declared(*method).0);
        return None;
    }
    let before: usize = faults.len();
    let params = read_params(&method.inputs, faults);
    assert(fault_views(faults@) =~= had + (options.faults + tx_params(method.inputs@).1));
    if faults.len() > before {
        return None;
    }
    assert(fault_views(faults@) =~= had + options.faults);
    let output = match &method.output {
        Some(output) => output,
        None => {
            push_fault(
                faults,
                Spot::Signature,
                "#[transaction] methods must return Result<T, E> (E: Display)",
            );
            assert(fault_views(faults@) =~= had + declared(*method).0);
            return None;
        },
    };
    let ok = match extract_result_ok(output) {
        Some(ok) => ok,
        None => {
            push_fault(
                faults,
                Spot::Output,
                "#[transaction] methods must return Result<T, E> (E: Display)",
            );
            assert(fault_views(faults@) =~= had + declared(*method).0);
            return None;
        },
    };
    let ok_ty = match &ok.shape {
        TypeShape::Tuple(0) => None,
        _ => Some(ok.tokens.clone()),
    };
    let shape = TxShape {
        name,
        evaluate,
        method: method.name.clone(),
        is_async: method.is_async,
        params,
        ok_ty,
    };
    assert(shape@ =~= declared(*method).1->Some_0);
    Some(shape)
}

} // verus!
