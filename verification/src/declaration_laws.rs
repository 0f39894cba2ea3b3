//! What the declaration of a contract comes to.

use vstd::prelude::*;

use crate::case::{lower_camel, upper_camel};
use crate::declaration::{attr_options, bracketed, contract_args, declared, fault_views};
use crate::declaration::{first_type, is_ident, option_key, option_some, param_views, result_ok};
use crate::declaration::{transaction_attr, tx_options, tx_params, Arguments, ArgsView};
use crate::declaration::{AttrArgs, AttrDecl, ContractArgs, Fault, GenericArg, InputDecl};
use crate::declaration::{MetaDecl, MethodDecl, ParamShape, ShapeView, Spot};
use crate::declaration::{extract_result_ok, find_transaction, parse_contract_args, read_method};
use crate::declaration::{unwrap_option, TxShape, TypeDecl, TypeShape};
use crate::dispatch::Signature;
use crate::plan::{contract, parameter_name, transaction_name};
use crate::plan::{collected, contract_fault_views, placed, planned, shape_views, wire_name};
use crate::plan::{ContractFault, ContractPlan, ImplDecl, Whereabouts};
use crate::text;

verus! {

// ---- types -----------------------------------------------------------------
/// Whether a type is written as a path that ends in `name` with these arguments in angle
/// brackets.
pub open spec fn written_with(ty: TypeDecl, name: Seq<char>, args: Seq<GenericArg>) -> bool {
    &&& ty.shape matches TypeShape::Path(segments)
    &&& segments@.len() > 0
    &&& segments@[segments@.len() - 1].ident@ == name
    &&& segments@[segments@.len() - 1].arguments matches Arguments::AngleBracketed(given)
        && given@ == args
}

/// An option is a path that ends in `Option` and whose first argument is a type: that
/// of the value.
pub proof fn options_are_looked_through(ty: TypeDecl, args: Seq<GenericArg>, inner: TypeDecl)
    ensures
        written_with(ty, "Option"@, args) && args.len() > 0 && args[0] == GenericArg::Type(inner)
            ==> option_some(ty) == Some(inner),
        written_with(ty, "Option"@, args) && (args.len() == 0 || args[0] is Other) ==> option_some(
            ty,
        ) is None,
        option_some(ty) matches Some(found) ==> exists|given: Seq<GenericArg>| #[trigger]
            written_with(ty, "Option"@, given) && given.len() > 0 && given[0] == GenericArg::Type(
                found,
            ),
{
    if option_some(ty) is Some {
        let given = bracketed(ty, "Option"@)->0;
        assert(written_with(ty, "Option"@, given));
    }
}

/// A result is a path that ends in `Result`; its value is the first type among its
/// arguments.
pub proof fn results_are_looked_through(
    ty: TypeDecl,
    args: Seq<GenericArg>,
    at: int,
    inner: TypeDecl,
)
    ensures
        written_with(ty, "Result"@, args) && 0 <= at < args.len() && args[at] == GenericArg::Type(
            inner,
        ) && (forall|i: int| 0 <= i < at ==> (#[trigger] args[i]) is Other) ==> result_ok(ty)
            == Some(inner),
        written_with(ty, "Result"@, args) && (forall|i: int|
            0 <= i < args.len() ==> (#[trigger] args[i]) is Other) ==> result_ok(ty) is None,
        result_ok(ty) is Some ==> exists|given: Seq<GenericArg>| #[trigger]
            written_with(ty, "Result"@, given),
{
    if 0 <= at < args.len() && args[at] == GenericArg::Type(inner) && (forall|i: int|
        0 <= i < at ==> (#[trigger] args[i]) is Other) {
        lemma_first_type(args, at, inner);
    }
    if forall|i: int| 0 <= i < args.len() ==> (#[trigger] args[i]) is Other {
        lemma_no_type(args);
    }
    if result_ok(ty) is Some {
        let given = bracketed(ty, "Result"@)->0;
        assert(written_with(ty, "Result"@, given));
    }
}

proof fn lemma_first_type(args: Seq<GenericArg>, at: int, inner: TypeDecl)
    requires
        0 <= at < args.len(),
        args[at] == GenericArg::Type(inner),
        forall|i: int| 0 <= i < at ==> (#[trigger] args[i]) is Other,
    ensures
        first_type(args) == Some(inner),
    decreases args.len(),
{
    if at > 0 {
        assert(args[0] is Other);
        let rest = args.skip(1);
        assert forall|i: int| 0 <= i < at - 1 implies (#[trigger] rest[i]) is Other by {
            assert(rest[i] == args[i + 1]);
        }
        lemma_first_type(rest, at - 1, inner);
    }
}

proof fn lemma_no_type(args: Seq<GenericArg>)
    requires
        forall|i: int| 0 <= i < args.len() ==> (#[trigger] args[i]) is Other,
    ensures
        first_type(args) is None,
    decreases args.len(),
{
    if args.len() > 0 {
        assert(args[0] is Other);
        let rest = args.skip(1);
        assert forall|i: int| 0 <= i < rest.len() implies (#[trigger] rest[i]) is Other by {
            assert(rest[i] == args[i + 1]);
        }
        lemma_no_type(rest);
    }
}

// ---- options of a contract -------------------------------------------------
/// The options of a contract: each of the three sets its own value and no other, and
/// the later of two counts.
pub proof fn contract_options_set_their_value(
    metas: Seq<MetaDecl>,
    args: ArgsView,
    ident: String,
    value: String,
)
    requires
        contract_args(metas) == Ok::<_, (Spot, Seq<char>)>(args),
    ensures
        ({
            let item = MetaDecl::NameValue { ident: Some(ident), literal: Some(value) };
            let after = contract_args(metas.push(item));
            &&& ident@ == "name"@ ==> after == Ok::<_, (Spot, Seq<char>)>(
                (ArgsView { name: Some(value@), version: args.version, title: args.title }),
            )
            &&& ident@ == "version"@ ==> after == Ok::<_, (Spot, Seq<char>)>(
                (ArgsView { name: args.name, version: Some(value@), title: args.title }),
            )
            &&& ident@ == "title"@ ==> after == Ok::<_, (Spot, Seq<char>)>(
                (ArgsView { name: args.name, version: args.version, title: Some(value@) }),
            )
        }),
{
    let item = MetaDecl::NameValue { ident: Some(ident), literal: Some(value) };
    assert(metas.push(item).drop_last() =~= metas);
    reveal_strlit("name");
    reveal_strlit("version");
    reveal_strlit("title");
    assert("name"@.len() == 4 && "version"@.len() == 7 && "title"@.len() == 5);
}

/// Without options nothing is set. An option that is not known, has no string for its
/// value or no value at all is told with its place; what follows it does not matter.
pub proof fn strange_contract_options_are_told(
    metas: Seq<MetaDecl>,
    item: MetaDecl,
    more: Seq<MetaDecl>,
    fault: (Spot, Seq<char>),
)
    requires
        contract_args(metas) is Ok,
        metas.len() < usize::MAX,
    ensures
        contract_args(seq![]) matches Ok(none) && none.name is None && none.version is None
            && none.title is None,
        ({
            let after = contract_args(metas.push(item));
            let at = metas.len() as usize;
            &&& item matches MetaDecl::NameValue { ident, literal: None } ==> after == Err::<
                ArgsView,
                _,
            >((Spot::MetaValue(at), "expected string literal"@))
            &&& item matches MetaDecl::NameValue { ident: Some(key), literal: Some(value) } ==> key@
                != "name"@ && key@ != "version"@ && key@ != "title"@ ==> after == Err::<
                ArgsView,
                _,
            >(
                (
                    Spot::Meta(at),
                    "unknown contract option `"@ + key@ + "` (expected name, version, title)"@,
                ),
            )
            &&& !(item is NameValue) ==> after == Err::<ArgsView, _>(
                (Spot::Meta(at), "expected key = \"value\" (name, version, title)"@),
            )
        }),
        contract_args(metas.push(item)) == Err::<ArgsView, _>(fault) ==> contract_args(
            metas.push(item) + more,
        ) == Err::<ArgsView, _>(fault),
    decreases more.len(),
{
    assert(metas.push(item).drop_last() =~= metas);
    let all = metas.push(item) + more;
    if more.len() == 0 {
        assert(all =~= metas.push(item));
    } else {
        strange_contract_options_are_told(metas, item, more.drop_last(), fault);
        assert(all.drop_last() =~= metas.push(item) + more.drop_last());
    }
}

/// Options are seen as they are.
pub proof fn options_are_seen_as_they_are(args: ContractArgs)
    ensures
        args@.name is Some <==> args.name is Some,
        args.name matches Some(value) ==> args@.name == Some(value@),
        args@.version is Some <==> args.version is Some,
        args.version matches Some(value) ==> args@.version == Some(value@),
        args@.title is Some <==> args.title is Some,
        args.title matches Some(value) ==> args@.title == Some(value@),
{
}

// ---- options of a transaction ----------------------------------------------
/// The options of a transaction: `evaluate` makes it one that only reads, `submit` one
/// that writes, and `name` gives it a name; the later of two counts. Anything else is
/// told with its place and changes nothing.
pub proof fn transaction_options_set_their_value(metas: Seq<MetaDecl>, item: MetaDecl)
    requires
        metas.len() < usize::MAX,
    ensures
        ({
            let none = tx_options(seq![]);
            !none.evaluate && none.name is None && none.faults.len() == 0
        }),
        ({
            let before = tx_options(metas);
            let after = tx_options(metas.push(item));
            let at = metas.len() as usize;
            match item {
                MetaDecl::Path { ident: Some(word) } => if word@ == "evaluate"@ {
                    after.evaluate && after.name == before.name && after.faults == before.faults
                } else if word@ == "submit"@ {
                    !after.evaluate && after.name == before.name && after.faults == before.faults
                } else {
                    after.evaluate == before.evaluate && after.name == before.name && after.faults
                        == before.faults.push(
                        (Spot::Meta(at), "expected `submit`, `evaluate`, or `name = \"...\"`"@),
                    )
                },
                MetaDecl::NameValue { ident: Some(word), literal: Some(value) } => if word@
                    == "name"@ {
                    after.evaluate == before.evaluate && after.name == Some(value@)
                        && after.faults == before.faults
                } else {
                    after.evaluate == before.evaluate && after.name == before.name && after.faults
                        == before.faults.push(
                        (Spot::Meta(at), "expected `submit`, `evaluate`, or `name = \"...\"`"@),
                    )
                },
                MetaDecl::NameValue { ident: Some(word), literal: None } => if word@ == "name"@ {
                    after.evaluate == before.evaluate && after.name == before.name && after.faults
                        == before.faults.push((Spot::MetaValue(at), "expected string literal"@))
                } else {
                    after.evaluate == before.evaluate && after.name == before.name && after.faults
                        == before.faults.push(
                        (Spot::Meta(at), "expected `submit`, `evaluate`, or `name = \"...\"`"@),
                    )
                },
                _ => after.evaluate == before.evaluate && after.name == before.name
                    && after.faults == before.faults.push(
                    (Spot::Meta(at), "expected `submit`, `evaluate`, or `name = \"...\"`"@),
                ),
            }
        }),
{
    assert(metas.push(item).drop_last() =~= metas);
    reveal_strlit("evaluate");
    reveal_strlit("submit");
    assert("evaluate"@.len() != "submit"@.len());
}

/// An attribute without a list sets nothing; one with a list says what its items say;
/// one that cannot be read is told in its words.
pub proof fn attributes_say_what_their_items_say(metas: Vec<MetaDecl>, words: String)
    ensures
        attr_options(AttrArgs::Absent) matches Ok(none) && !none.evaluate && none.name is None
            && none.faults.len() == 0,
        attr_options(AttrArgs::Metas(metas)) == Ok::<_, Seq<char>>(tx_options(metas@)),
        attr_options(AttrArgs::Unparsable(words)) matches Err(said) && said == words@,
{
}

/// The first attribute called `transaction` makes a method a transaction.
pub proof fn the_first_attribute_counts(attrs: Seq<AttrDecl>)
    ensures
        match transaction_attr(attrs) {
            Some(i) => 0 <= i < attrs.len() && (attrs[i].ident matches Some(word) && word@
                == "transaction"@) && forall|k: int|
                0 <= k < i ==> !is_ident((#[trigger] attrs[k]).ident, "transaction"@),
            None => forall|k: int|
                0 <= k < attrs.len() ==> !is_ident((#[trigger] attrs[k]).ident, "transaction"@),
        },
    decreases attrs.len(),
{
    if attrs.len() > 0 {
        let shorter = attrs.drop_last();
        the_first_attribute_counts(shorter);
        assert forall|k: int| 0 <= k < shorter.len() implies shorter[k] == attrs[k] by {}
        match transaction_attr(shorter) {
            Some(i) => {
                assert forall|k: int| 0 <= k < i implies !is_ident(
                    (#[trigger] attrs[k]).ident,
                    "transaction"@,
                ) by {
                    assert(shorter[k] == attrs[k]);
                }
            },
            None => {
                assert forall|k: int| 0 <= k < attrs.len() - 1 implies !is_ident(
                    (#[trigger] attrs[k]).ident,
                    "transaction"@,
                ) by {
                    assert(shorter[k] == attrs[k]);
                }
            },
        }
    }
}

/// An identifier is the wanted one where it has the same characters; none is no one.
pub proof fn identifiers_are_told_by_their_characters(ident: Option<String>, wanted: Seq<char>)
    ensures
        is_ident(ident, wanted) <==> (ident matches Some(word) && word@ == wanted),
        ident matches Some(word) ==> option_key(ident) == word@,
        ident is None ==> option_key(ident).len() == 0,
{
}

// ---- parameters ------------------------------------------------------------
/// The first two inputs are the receiver and the context; each further one is a
/// parameter with its name and its type. What is no simple identifier is told with its
/// place.
pub proof fn inputs_are_parameters(inputs: Seq<InputDecl>, next: InputDecl)
    requires
        inputs.len() < usize::MAX,
    ensures
        inputs.len() <= 2 ==> tx_params(inputs).0.len() == 0 && tx_params(inputs).1.len() == 0,
        inputs.len() >= 2 ==> ({
            let (params, faults) = tx_params(inputs);
            let (more, told) = tx_params(inputs.push(next));
            match next {
                InputDecl::Receiver => more == params && told == faults,
                InputDecl::Typed { ident: Some(name), ty } => more == params.push(
                    (name@, ty.tokens@),
                ) && told == faults,
                InputDecl::Typed { ident: None, ty: _ } => more == params && told == faults.push(
                    (
                        Spot::Input(inputs.len() as usize),
                        "#[transaction] parameters must be simple identifiers"@,
                    ),
                ),
            }
        }),
{
    assert(inputs.push(next).drop_last() =~= inputs);
}

// ---- methods ---------------------------------------------------------------
/// A method without the attribute is no transaction, and nothing is wrong with it.
pub proof fn plain_methods_are_no_transactions(method: MethodDecl)
    requires
        forall|k: int|
            0 <= k < method.attrs@.len() ==> !is_ident(
                (#[trigger] method.attrs@[k]).ident,
                "transaction"@,
            ),
    ensures
        declared(method).0.len() == 0,
        declared(method).1 is None,
{
    the_first_attribute_counts(method.attrs@);
}

/// A method that takes the receiver, a context and simple parameters, and returns a
/// result, is a transaction of the options, the name and the parameters that it has.
/// It is told by the value of its result whether it returns anything.
pub proof fn methods_declare_what_they_are(
    method: MethodDecl,
    at: int,
    options: crate::declaration::TxOptions,
    output: TypeDecl,
    ok: TypeDecl,
)
    requires
        transaction_attr(method.attrs@) == Some(at),
        attr_options(method.attrs@[at].args) == Ok::<_, Seq<char>>(options),
        method.inputs@.len() >= 2,
        method.inputs@[0] is Receiver,
        tx_params(method.inputs@).1.len() == 0,
        method.output == Some(output),
        result_ok(output) == Some(ok),
    ensures
        declared(method).0 == options.faults,
        ({
            let shape = declared(method).1;
            &&& shape is Some
            &&& shape->0.name == options.name
            &&& shape->0.evaluate == options.evaluate
            &&& shape->0.method == method.name@
            &&& shape->0.is_async == method.is_async
            &&& shape->0.params == tx_params(method.inputs@).0
            &&& ok.shape == TypeShape::Tuple(0) ==> shape->0.ok_ty is None
            &&& ok.shape != TypeShape::Tuple(0) ==> shape->0.ok_ty == Some(ok.tokens@)
        }),
{
}

/// What keeps a method from being a transaction is told: an attribute that cannot be
/// read, no receiver, no context, parameters that are no simple identifiers, and no
/// result; of these the first. It is then no transaction.
pub proof fn faulty_methods_are_told(method: MethodDecl, at: int)
    requires
        transaction_attr(method.attrs@) == Some(at),
    ensures
        attr_options(method.attrs@[at].args) matches Err(words) ==> declared(method).1 is None
            && declared(method).0 == seq![(Spot::Attribute, words)],
        attr_options(method.attrs@[at].args) matches Ok(options) ==> {
            let inputs = method.inputs@;
            let (faults, shape) = declared(method);
            &&& (inputs.len() == 0 || !(inputs[0] is Receiver)) ==> shape is None && faults
                == options.faults.push((Spot::Signature, "#[transaction] methods must take &self"@))
            &&& inputs.len() == 1 && inputs[0] is Receiver ==> shape is None && faults
                == options.faults.push(
                (
                    Spot::Signature,
                    "#[transaction] methods must take a context as their first argument, e.g. `ctx: &ChaincodeStub`"@,
                ),
            )
            &&& inputs.len() >= 2 && inputs[0] is Receiver && tx_params(inputs).1.len() > 0
                ==> shape is None && faults == options.faults + tx_params(inputs).1
            &&& inputs.len() >= 2 && inputs[0] is Receiver && tx_params(inputs).1.len() == 0
                && method.output is None ==> shape is None && faults == options.faults.push(
                (
                    Spot::Signature,
                    "#[transaction] methods must return Result<T, E> (E: Display)"@,
                ),
            )
            &&& inputs.len() >= 2 && inputs[0] is Receiver && tx_params(inputs).1.len() == 0 && (
            method.output matches Some(output) && result_ok(output) is None) ==> shape is None
                && faults == options.faults.push(
                (Spot::Output, "#[transaction] methods must return Result<T, E> (E: Display)"@),
            )
        },
{
}

/// Declared transactions and faults are seen as they are, in their order.
pub proof fn shapes_are_seen_as_they_are(
    shape: TxShape,
    shapes: Seq<TxShape>,
    params: Seq<ParamShape>,
    faults: Seq<Fault>,
    i: int,
)
    ensures
        shape.name matches Some(name) ==> shape@.name == Some(name@),
        shape.name is None ==> shape@.name is None,
        shape@.evaluate == shape.evaluate,
        shape@.method == shape.method@,
        shape@.is_async == shape.is_async,
        shape@.params == param_views(shape.params@),
        shape.ok_ty matches Some(ty) ==> shape@.ok_ty == Some(ty@),
        shape.ok_ty is None ==> shape@.ok_ty is None,
        param_views(params).len() == params.len(),
        0 <= i < params.len() ==> param_views(params)[i] == (params[i].ident@, params[i].ty@),
        fault_views(faults).len() == faults.len(),
        0 <= i < faults.len() ==> fault_views(faults)[i] == (faults[i].spot, faults[i].message@),
        shape_views(shapes).len() == shapes.len(),
        0 <= i < shapes.len() ==> shape_views(shapes)[i] == shapes[i]@,
{
}

// ---- contracts -------------------------------------------------------------
/// The faults and transactions of a contract are those of its methods, one after the
/// other, each fault with the place of its method.
pub proof fn methods_are_collected_in_order(methods: Seq<MethodDecl>, next: MethodDecl)
    requires
        methods.len() < usize::MAX,
    ensures
        collected(seq![]).0.len() == 0 && collected(seq![]).1.len() == 0,
        ({
            let (faults, shapes) = collected(methods);
            let (all_faults, all_shapes) = collected(methods.push(next));
            let (more, shape) = declared(next);
            &&& all_faults.len() == faults.len() + more.len()
            &&& all_faults.take(faults.len() as int) == faults
            &&& forall|i: int|
                0 <= i < more.len() ==> (#[trigger] all_faults[faults.len() + i]) == (
                    Whereabouts::Method(methods.len() as usize, more[i].0),
                    more[i].1,
                )
            &&& shape is None ==> all_shapes == shapes
            &&& shape matches Some(s) ==> all_shapes == shapes.push(s)
        }),
{
    assert(methods.push(next).drop_last() =~= methods);
    let (faults, shapes) = collected(methods);
    assert(collected(methods.push(next)).0.take(faults.len() as int) =~= faults);
}

/// A contract is named by its option or else by its type, and titled by its option or
/// else by its name; it has the version that was given and the transactions of its
/// methods.
pub proof fn contracts_are_planned_as_declared(args: ArgsView, decl: ImplDecl, self_type: String)
    requires
        !decl.generic,
        decl.self_type == Some(self_type),
        collected(decl.methods@).0.len() == 0,
    ensures
        ({
            let plan = planned(args, decl);
            &&& plan is Ok
            &&& args.name matches Some(name) ==> plan->Ok_0.name == name
            &&& args.name is None ==> plan->Ok_0.name == self_type@
            &&& args.title matches Some(title) ==> plan->Ok_0.title == title
            &&& args.title is None ==> plan->Ok_0.title == plan->Ok_0.name
            &&& plan->Ok_0.version == args.version
            &&& plan->Ok_0.transactions == collected(decl.methods@).1
        }),
{
}

/// What keeps a contract from being planned is told: generics, a type without a name,
/// and all faults of its methods.
pub proof fn faulty_contracts_are_told(args: ArgsView, decl: ImplDecl)
    ensures
        decl.generic ==> (planned(args, decl) matches Err(faults) && faults == seq![
            (Whereabouts::Generics, "#[contract] impls cannot be generic"@),
        ]),
        !decl.generic && decl.self_type is None ==> (planned(args, decl) matches Err(faults)
            && faults == seq![(Whereabouts::SelfType, "#[contract] requires a named type"@)]),
        !decl.generic && decl.self_type is Some && collected(decl.methods@).0.len() > 0 ==> (
        planned(args, decl) matches Err(faults) && faults == collected(decl.methods@).0),
{
}

/// A transaction is called by the name that was given, or else by that of its method in
/// UpperCamelCase.
pub proof fn transactions_are_called_by_their_name(shape: ShapeView)
    ensures
        shape.name matches Some(name) ==> wire_name(shape) == name,
        shape.name is None ==> wire_name(shape) == upper_camel(shape.method),
{
}

/// Plans and their faults are seen as they are, in their order.
pub proof fn plans_are_seen_as_they_are(
    plan: ContractPlan,
    faults: Seq<ContractFault>,
    index: usize,
    found: Seq<(Spot, Seq<char>)>,
    i: int,
)
    ensures
        plan@.name == plan.name@,
        plan@.title == plan.title@,
        plan.version matches Some(version) ==> plan@.version == Some(version@),
        plan.version is None ==> plan@.version is None,
        plan@.transactions == shape_views(plan.transactions@),
        contract_fault_views(faults).len() == faults.len(),
        0 <= i < faults.len() ==> contract_fault_views(faults)[i] == (
            faults[i].at,
            faults[i].message@,
        ),
        placed(index, found).len() == found.len(),
        0 <= i < found.len() ==> placed(index, found)[i] == (
            Whereabouts::Method(index, found[i].0),
            found[i].1,
        ),
{
}

/// A text that may be missing is seen as it is.
pub proof fn missing_texts_are_missing(given: String)
    ensures
        text::optional(Some(given)) == Some(given@),
        text::optional(None) is None,
{
}

// ---- operations ------------------------------------------------------------
/// An `Option` is looked through to its value, and any other type is taken as it is.
pub proof fn option_types_are_unwrapped(ty: TypeDecl, given: (&TypeDecl, bool))
    requires
        call_ensures(unwrap_option, (&ty,), given),
    ensures
        given.1 <==> option_some(ty) is Some,
        given.1 ==> Some(*given.0) == option_some(ty),
        !given.1 ==> *given.0 == ty,
{
}

/// The value of a result type is the first type among its arguments.
pub proof fn result_types_are_unwrapped(ty: TypeDecl, given: Option<&TypeDecl>)
    requires
        call_ensures(extract_result_ok, (&ty,), given),
    ensures
        given is Some <==> result_ok(ty) is Some,
        given matches Some(inner) ==> result_ok(ty) == Some(*inner),
{
}

/// The options of a contract are read as its items say.
pub proof fn contract_options_are_read(metas: Vec<MetaDecl>, given: Result<ContractArgs, Fault>)
    requires
        call_ensures(parse_contract_args, (&metas,), given),
    ensures
        given is Ok <==> contract_args(metas@) is Ok,
        given matches Ok(args) ==> {
            let said = contract_args(metas@)->Ok_0;
            &&& text::optional(args.name) == said.name
            &&& text::optional(args.version) == said.version
            &&& text::optional(args.title) == said.title
        },
        given matches Err(fault) ==> contract_args(metas@) == Err::<ArgsView, _>(
            (fault.spot, fault.message@),
        ),
{
}

/// A contract is planned with the name and title of its options or else of its type, and
/// with the transactions of its methods in their order.
pub proof fn contracts_are_planned(
    args: ContractArgs,
    decl: ImplDecl,
    self_type: String,
    given: Result<ContractPlan, Vec<ContractFault>>,
    i: int,
)
    requires
        call_ensures(contract, (args, &decl), given),
        !decl.generic,
        decl.self_type == Some(self_type),
    ensures
        given is Err <==> collected(decl.methods@).0.len() > 0,
        given matches Err(faults) ==> faults@.len() == collected(decl.methods@).0.len() && (0 <= i
            < faults@.len() ==> collected(decl.methods@).0[i] == (
            faults@[i].at,
            faults@[i].message@,
        )),
        given matches Ok(plan) ==> {
            &&& plan.name@ == if args.name is Some {
                args.name->0@
            } else {
                self_type@
            }
            &&& plan.title@ == if args.title is Some {
                args.title->0@
            } else {
                plan.name@
            }
            &&& plan.version is Some <==> args.version is Some
            &&& args.version matches Some(version) ==> plan.version->0@ == version@
            &&& plan.transactions@.len() == collected(decl.methods@).1.len()
            &&& 0 <= i < plan.transactions@.len() ==> plan.transactions@[i]@ == collected(
                decl.methods@,
            ).1[i]
        },
{
    if given is Err {
        let faults = given->Err_0@;
        assert(contract_fault_views(faults).len() == faults.len());
    } else {
        let plan = given->Ok_0;
        assert(plan@.transactions.len() == plan.transactions@.len());
        assert(plan@.name == plan.name@);
    }
}

/// A transaction is called by its given name or by that of its method in UpperCamelCase,
/// with as many arguments as it has parameters; a parameter is named in lowerCamelCase.
pub proof fn transactions_have_signatures(
    shape: TxShape,
    name: String,
    signature: Signature,
    ident: &str,
    parameter: String,
)
    requires
        call_ensures(transaction_name, (&shape,), name),
        call_ensures(crate::plan::signature, (&shape,), signature),
        call_ensures(parameter_name, (ident,), parameter),
    ensures
        shape.name matches Some(given) ==> name@ == given@,
        shape.name is None ==> name@ == upper_camel(shape.method@),
        signature.wire_name@ == name@,
        signature.params == shape.params@.len(),
        parameter@ == lower_camel(ident@),
{
    assert(shape@.params.len() == shape.params@.len());
}

/// The attribute that makes a method a transaction is the first one of that name.
pub proof fn transaction_attributes_are_found(attrs: Vec<AttrDecl>, given: Option<usize>)
    requires
        call_ensures(find_transaction, (&attrs,), given),
    ensures
        match given {
            Some(at) => at < attrs@.len() && (attrs@[at as int].ident matches Some(word) && word@
                == "transaction"@) && forall|k: int|
                0 <= k < at ==> !is_ident((#[trigger] attrs@[k]).ident, "transaction"@),
            None => forall|k: int|
                0 <= k < attrs@.len() ==> !is_ident((#[trigger] attrs@[k]).ident, "transaction"@),
        },
{
    the_first_attribute_counts(attrs@);
}

/// A method with the attribute, the receiver, a context, simple parameters and a result is
/// read as a transaction that has its name, and its faults are added to the others.
pub proof fn methods_are_read(
    method: MethodDecl,
    faults: &mut Vec<Fault>,
    given: Option<TxShape>,
    at: Option<usize>,
    output: TypeDecl,
    ok: Option<&TypeDecl>,
)
    requires
        call_ensures(read_method, (&method, faults), given),
        call_ensures(find_transaction, (&method.attrs,), at),
        call_ensures(extract_result_ok, (&output,), ok),
        method.output matches Some(written) ==> written == output,
    ensures
        final(faults)@.len() >= old(faults)@.len(),
        forall|i: int|
            0 <= i < old(faults)@.len()
                ==> fault_views(final(faults)@)[i] == (#[trigger] fault_views(
                old(faults)@,
            )[i]),
        at is None ==> given is None && fault_views(final(faults)@) == fault_views(old(faults)@),
        given is Some ==> at is Some && method.inputs@.len() >= 2 && method.inputs@[0] is Receiver
            && tx_params(method.inputs@).1.len() == 0 && method.output is Some && ok is Some,
        given matches Some(shape) ==> {
            let options = attr_options(method.attrs@[at->0 as int].args)->Ok_0;
            &&& shape.method@ == method.name@
            &&& shape.is_async == method.is_async
            &&& shape.evaluate == options.evaluate
            &&& shape.name is Some <==> options.name is Some
            &&& shape.name matches Some(name) ==> options.name == Some(name@)
            &&& param_views(shape.params@) == tx_params(method.inputs@).0
            &&& shape.ok_ty is None <==> ok->0.shape == TypeShape::Tuple(0)
            &&& shape.ok_ty matches Some(ty) ==> ty@ == ok->0.tokens@
        },
        given is None && at is Some ==> fault_views(final(faults)@).len() > fault_views(
            old(faults)@,
        ).len(),
{
    let had = fault_views(old(faults)@);
    let all = fault_views(final(faults)@);
    assert(all.len() == final(faults)@.len());
    assert(had.len() == old(faults)@.len());
    assert(all == had + declared(method).0);
    if at is None {
        assert(all =~= had);
    } else {
        faulty_methods_are_told(method, at->0 as int);
        if let Some(shape) = given {
            assert(shape@.method == shape.method@);
        }
    }
}

} // verus!
