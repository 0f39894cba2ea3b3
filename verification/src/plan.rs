//! From the declaration of a contract to the plan of its dispatch.

use vstd::prelude::*;

use crate::case::{lower_camel, lower_camel_name, upper_camel, upper_camel_name};
use crate::declaration::{declared, fault_views, read_method, ArgsView, ContractArgs};
use crate::declaration::{Fault, MethodDecl, ShapeView, Spot, TxShape};
use crate::dispatch::Signature;
use crate::text;

verus! {

/// The impl block of a contract.
#[derive(Debug)]
pub struct ImplDecl {
    /// Whether the block has generic parameters.
    pub generic: bool,
    /// The name of the type, where the block is for a named type.
    pub self_type: Option<String>,
    pub methods: Vec<MethodDecl>,
}

/// The part of an impl block that a fault is about.
#[derive(Debug, Clone, Copy, PartialEq, Eq, Structural)]
pub enum Whereabouts {
    Generics,
    SelfType,
    /// A method, by its place, and the part of it.
    Method(usize, Spot),
}

/// Something wrong with an impl block.
#[derive(Debug, Clone)]
pub struct ContractFault {
    pub at: Whereabouts,
    pub message: String,
}

/// A contract whose declaration is in order. Without a version it has that of its
/// crate.
#[derive(Debug, Clone)]
pub struct ContractPlan {
    pub name: String,
    pub title: String,
    pub version: Option<String>,
    pub transactions: Vec<TxShape>,
}

/// What a [`ContractPlan`] says.
#[verifier::ext_equal]
pub struct PlanView {
    pub name: Seq<char>,
    pub title: Seq<char>,
    pub version: Option<Seq<char>>,
    pub transactions: Seq<ShapeView>,
}

/// What transactions say.
pub open spec fn shape_views(shapes: Seq<TxShape>) -> Seq<ShapeView> {
    Seq::new(shapes.len(), |i: int| shapes[i]@)
}

impl View for ContractPlan {
    type V = PlanView;

    open spec fn view(&self) -> PlanView {
        PlanView {
            name: self.name@,
            title: self.title@,
            version: text::optional(self.version),
            transactions: shape_views(self.transactions@),
        }
    }
}

/// What faults say.
pub open spec fn contract_fault_views(faults: Seq<ContractFault>) -> Seq<
    (Whereabouts, Seq<char>),
> {
    Seq::new(faults.len(), |i: int| (faults[i].at, faults[i].message@))
}

/// The faults of the method at the given place.
pub open spec fn placed(index: usize, faults: Seq<(Spot, Seq<char>)>) -> Seq<
    (Whereabouts, Seq<char>),
> {
    Seq::new(faults.len(), |i: int| (Whereabouts::Method(index, faults[i].0), faults[i].1))
}

/// The faults of all methods, and the transactions that they declare.
pub open spec fn collected(methods: Seq<MethodDecl>) -> (
    Seq<(Whereabouts, Seq<char>)>,
    Seq<ShapeView>,
)
    decreases methods.len(),
{
    if methods.len() == 0 {
        (seq![], seq![])
    } else {
        let (faults, shapes) = collected(methods.drop_last());
        let (more, shape) = declared(methods.last());
        (
            faults + placed((methods.len() - 1) as usize, more),
            match shape {
                Some(s) => shapes.push(s),
                None => shapes,
            },
        )
    }
}

/// The plan of a contract, or all that is wrong with its declaration.
pub open spec fn planned(args: ArgsView, decl: ImplDecl) -> Result<
    PlanView,
    Seq<(Whereabouts, Seq<char>)>,
> {
    if decl.generic {
        Err(seq![(Whereabouts::Generics, "#[contract] impls cannot be generic"@)])
    } else {
        match decl.self_type {
            None => Err(seq![(Whereabouts::SelfType, "#[contract] requires a named type"@)]),
            Some(self_type) => {
                let (faults, transactions) = collected(decl.methods@);
                if faults.len() > 0 {
                    Err(faults)
                } else {
                    let name = match args.name {
                        Some(given) => given,
                        None => self_type@,
                    };
                    Ok(
                        PlanView {
                            name,
                            title: match args.title {
                                Some(given) => given,
                                None => name,
                            },
                            version: args.version,
                            transactions,
                        },
                    )
                }
            },
        }
    }
}

fn one_fault(at: Whereabouts, message: &str) -> (r: Vec<ContractFault>)
    ensures
        contract_fault_views(r@) == seq![(at, message@)],
{
    let mut faults: Vec<ContractFault> = Vec::new();
    faults.push(ContractFault { at, message: message.to_owned() });
    assert(contract_fault_views(faults@) =~= seq![(at, message@)]);
    faults
}

fn place_faults(index: usize, found: Vec<Fault>, faults: &mut Vec<ContractFault>)
    ensures
        contract_fault_views(final(faults)@) == contract_fault_views(old(faults)@) + placed(
            index,
            fault_views(found@),
        ),
{
    let ghost had = contract_fault_views(faults@);
    let ghost all = placed(index, fault_views(found@));
    let mut i: usize = 0;
    assert(had + all.take(0) =~= had);
    while i < found.len()
        invariant
            0 <= i <= found@.len(),
            all == placed(index, fault_views(found@)),
            contract_fault_views(faults@) == had + all.take(i as int),
        decreases found@.len() - i,
    {
        let fault = &found[i];
        let ghost earlier = faults@;
        faults.push(
            ContractFault {
                at: Whereabouts::Method(index, fault.spot),
                message: fault.message.clone(),
            },
        );
        assert(contract_fault_views(faults@) =~= contract_fault_views(earlier).push(
            all[i as int],
        ));
        assert(contract_fault_views(faults@) =~= had + all.take(i + 1));
        i = i + 1;
    }
    assert(all.take(i as int) =~= all);
}

/// Plans a contract from the options and the impl block in its declaration.
pub fn contract(args: ContractArgs, decl: &ImplDecl) -> (r: Result<
    ContractPlan,
    Vec<ContractFault>,
>)
    ensures
        match planned(args@, *decl) {
            Ok(plan) => r matches Ok(given) && given@ == plan,
            Err(faults) => r matches Err(given) && contract_fault_views(given@) == faults,
        },
{
    if decl.generic {
        return Err(one_fault(Whereabouts::Generics, "#[contract] impls cannot be generic"));
    }
    let self_type = match &decl.self_type {
        Some(self_type) => self_type,
        None => return Err(
            one_fault(Whereabouts::SelfType, "#[contract] requires a named type"),
        ),
    };
    let mut faults: Vec<ContractFault> = Vec::new();
    let mut transactions: Vec<TxShape> = Vec::new();
    let mut i: usize = 0;
    assert(decl.methods@.take(0) =~= Seq::<MethodDecl>::empty());
    assert(contract_fault_views(faults@) =~= seq![]);
    assert(shape_views(transactions@) =~= seq![]);
    while i < decl.methods.len()
        invariant
            0 <= i <= decl.methods@.len(),
            contract_fault_views(faults@) == collected(decl.methods@.take(i as int)).0,
            shape_views(transactions@) == collected(decl.methods@.take(i as int)).1,
        decreases decl.methods@.len() - i,
    {
        proof {
            assert(decl.methods@.take(i + 1).drop_last() =~= decl.methods@.take(i as int));
            assert(decl.methods@.take(i + 1).last() == decl.methods@[i as int]);
        }
        let mut found: Vec<Fault> = Vec::new();
        assert(fault_views(found@) =~= seq![]);
        let shape = read_method(&decl.methods[i], &mut found);
        assert(fault_views(found@) =~= declared(decl.methods@[i as int]).0);
        place_faults(i, found, &mut faults);
        let ghost earlier = transactions@;
        if let Some(shape) = shape {
            transactions.push(shape);
            assert(shape_views(transactions@) =~= shape_views(earlier).push(shape@));
        }
        i = i + 1;
    }
    assert(decl.methods@.take(i as int) =~= decl.methods@);
    assert(contract_fault_views(faults@).len() == faults@.len());
    if faults.len() > 0 {
        return Err(faults);
    }
    let name = match args.name {
        Some(given) => given,
        None => self_type.clone(),
    };
    let title = match args.title {
        Some(given) => given,
        None => name.clone(),
    };
    Ok(ContractPlan { name, title, version: args.version, transactions })
}

// ---- names -----------------------------------------------------------------
/// The name that a transaction is called by: the one that was given, or that of
/// its method in UpperCamelCase.
pub open spec fn wire_name(shape: ShapeView) -> Seq<char> {
    match shape.name {
        Some(given) => given,
        None => upper_camel(shape.method),
    }
}

/// The name that a transaction is called by.
pub fn transaction_name(shape: &TxShape) -> (r: String)
    ensures
        r@ == wire_name(shape@),
{
    match &shape.name {
        Some(given) => given.clone(),
        None => upper_camel_name(shape.method.as_str()),
    }
}

/// The name of a parameter in metadata and faults.
pub fn parameter_name(ident: &str) -> (r: String)
    ensures
        r@ == lower_camel(ident@),
{
    lower_camel_name(ident)
}

/// How the transaction is called.
pub fn signature(shape: &TxShape) -> (r: Signature)
    ensures
        r.wire_name@ == wire_name(shape@),
        r.params == shape@.params.len(),
{
    Signature { wire_name: transaction_name(shape), params: shape.params.len() }
}

} // verus!
