//! Contracts: arguments and results, declarations, data types and metadata.

use fabric_shim::contract::{array_of, read_array, ContractArg, ContractReturn, ContractSchema};
use fabric_shim::data_table::{declare_data_type, register_data_types, DataType};
use fabric_shim::data_type::{
    apply_rename_all, derive_data_type, read_data, reference_schema, register_data_type, serde_rename,
    serde_rename_all, serde_string_value, write_data, BodyDecl, DataDecl, FieldDecl, ItemAttr, ItemValue,
    Property, SerdeItem,
};
use fabric_shim::declaration::{
    extract_result_ok, find_transaction, parse_contract_args, read_method, unwrap_option,
    Arguments, AttrArgs, AttrDecl, Fault, GenericArg, InputDecl, MetaDecl, MethodDecl, Segment,
    Spot, TypeDecl, TypeShape,
};
use fabric_shim::dispatch::{
    accept_argument, conclude, describe_contract, describe_transaction, function_name, read_argument, route,
    Signature,
};
use fabric_shim::json::{Member, Value};
use fabric_shim::metadata::{
    Components, Contract, Info, Metadata, Parameter, Transaction, CONTRACT_SCHEMA_URL,
    METADATA_FUNCTION,
};
use fabric_shim::plan::{
    contract, parameter_name, signature, transaction_name, ImplDecl, Whereabouts,
};
use fabric_shim::text_map::TextMap;
use fabric_shim::Response;

// ---- arguments and results -------------------------------------------------

/// Held against what `trim` and `parse` of the standard library say.
fn same_as_parse<T>(texts: &[&str])
where
    T: ContractArg + PartialEq + std::fmt::Debug + std::str::FromStr,
    T::Err: std::fmt::Display,
{
    for text in texts {
        let expected = text.trim().parse::<T>().map_err(|e| e.to_string());
        assert_eq!(T::from_arg(text.as_bytes()), expected, "{text:?}");
    }
}

#[test]
fn whole_numbers_are_read_as_the_standard_library_reads_them() {
    let texts = [
        "", " ", "+", "-", "+-1", "-+1", "0", "-0", "+0", "1", "+1", "-1", "007", "127", "128",
        "-128", "-129", "255", "256", "-32768", "32768", "65535", "65536", "2147483647",
        "2147483648", "-2147483648", "-2147483649", "4294967295", "4294967296",
        "9223372036854775807", "9223372036854775808", "-9223372036854775808",
        "-9223372036854775809", "18446744073709551615", "18446744073709551616",
        "99999999999999999999999999999999999999999999", "-99999999999999999999999999999999999",
        "12a", "a12", "99999999999999999999999999x", "1 2", "1_000", "0x10", "1.0", " 42 ",
        "\t42\n", "\u{a0}42\u{3000}", "\u{2003}7\u{85}", "\u{200b}7", "٣", "é",
    ];
    same_as_parse::<u8>(&texts);
    same_as_parse::<u16>(&texts);
    same_as_parse::<u32>(&texts);
    same_as_parse::<u64>(&texts);
    same_as_parse::<usize>(&texts);
    same_as_parse::<i8>(&texts);
    same_as_parse::<i16>(&texts);
    same_as_parse::<i32>(&texts);
    same_as_parse::<i64>(&texts);
    same_as_parse::<isize>(&texts);
}

#[test]
fn white_space_is_what_the_standard_library_trims() {
    for code in 0..0x11_0000u32 {
        let Some(c) = char::from_u32(code) else { continue };
        if !c.is_whitespace() && code > 0x3100 {
            continue;
        }
        let text = format!("{c}1{c}");
        let expected = text.trim().parse::<u8>().ok();
        assert_eq!(<u8 as ContractArg>::from_arg(text.as_bytes()).ok(), expected, "{code:x}");
    }
}

#[test]
fn number_faults_are_told() {
    let read = |text: &str| <i8 as ContractArg>::from_arg(text.as_bytes()).unwrap_err();
    assert_eq!(read(""), "cannot parse integer from empty string");
    assert_eq!(read("x"), "invalid digit found in string");
    assert_eq!(read("128"), "number too large to fit in target type");
    assert_eq!(read("-129"), "number too small to fit in target type");
    let bytes = [0x31, 0xff];
    let words = std::str::from_utf8(&bytes).unwrap_err().to_string();
    assert_eq!(<i8 as ContractArg>::from_arg(&bytes), Err(words.clone()));
    assert_eq!(<bool as ContractArg>::from_arg(&bytes), Err(words));
}

#[test]
fn text_is_read_as_it_is() {
    assert_eq!(<String as ContractArg>::from_arg(" héllo ".as_bytes()), Ok(" héllo ".to_string()));
    let bytes = vec![0x61, 0xc3];
    let words = String::from_utf8(bytes.clone()).unwrap_err().to_string();
    assert_eq!(<String as ContractArg>::from_arg(&bytes), Err(words));
}

#[test]
fn truth_values_are_read_in_words() {
    assert_eq!(<bool as ContractArg>::from_arg(b" true\n"), Ok(true));
    assert_eq!(<bool as ContractArg>::from_arg(b"false"), Ok(false));
    for text in ["", "True", "1", "true false"] {
        assert_eq!(
            <bool as ContractArg>::from_arg(text.as_bytes()),
            Err("expected \"true\" or \"false\"".to_string())
        );
    }
}

fn reads_back<T>(values: &[T])
where
    T: ContractArg + ContractReturn + PartialEq + std::fmt::Debug + Clone + std::fmt::Display,
{
    for value in values {
        let payload = value.clone().into_payload().unwrap();
        assert_eq!(payload, value.to_string().into_bytes());
        assert_eq!(T::from_arg(&payload), Ok(value.clone()));
    }
}

#[test]
fn results_are_written_in_text_and_read_back() {
    reads_back(&[0u8, 9, 10, 255]);
    reads_back(&[0u16, 65535]);
    reads_back(&[0u32, 1_000_000, u32::MAX]);
    reads_back(&[0u64, u64::MAX]);
    reads_back(&[0usize, usize::MAX]);
    reads_back(&[0i8, -1, i8::MIN, i8::MAX]);
    reads_back(&[0i16, i16::MIN, i16::MAX]);
    reads_back(&[0i32, i32::MIN, i32::MAX]);
    reads_back(&[0i64, -10, i64::MIN, i64::MAX]);
    reads_back(&[0isize, isize::MIN, isize::MAX]);
    reads_back(&[true, false]);
    reads_back(&[String::new(), " a\u{10FFFF}".to_string()]);
    assert_eq!(().into_payload(), Ok(Vec::new()));
}

fn text(value: &str) -> Value {
    Value::Text(value.to_string())
}

fn object(members: Vec<(&str, Value)>) -> Value {
    Value::Object(
        members
            .into_iter()
            .map(|(name, value)| Member { name: name.to_string(), value })
            .collect(),
    )
}

fn plain(name: &str) -> Value {
    object(vec![("type", text(name))])
}

#[test]
fn types_have_schemas() {
    assert_eq!(<String as ContractSchema>::schema(), plain("string"));
    assert_eq!(<bool as ContractSchema>::schema(), plain("boolean"));
    assert_eq!(<u8 as ContractSchema>::schema(), plain("integer"));
    assert_eq!(<isize as ContractSchema>::schema(), plain("integer"));
    assert_eq!(<() as ContractSchema>::schema(), Value::Null);
    assert_eq!(
        <Vec<Vec<i64>> as ContractSchema>::schema(),
        object(vec![
            ("items", object(vec![("items", plain("integer")), ("type", text("array"))])),
            ("type", text("array")),
        ])
    );
    let mut out = TextMap::new();
    <Vec<String> as ContractSchema>::components(&mut out);
    <bool as ContractSchema>::components(&mut out);
    <() as ContractSchema>::components(&mut out);
    assert!(out.is_empty());
    let value = <Vec<bool> as ContractSchema>::schema();
    assert_eq!(value.clone(), value);
    let others = Value::Array(vec![Value::Null, Value::Bool(true), Value::Number("1".to_string())]);
    assert_eq!(others.copy(), others);
}

// ---- declarations ----------------------------------------------------------

fn path_with(ident: &str, arguments: Arguments) -> TypeDecl {
    TypeDecl {
        tokens: ident.to_string(),
        shape: TypeShape::Path(vec![
            Segment { ident: "std".to_string(), arguments: Arguments::Absent },
            Segment { ident: ident.to_string(), arguments },
        ]),
    }
}

fn named(ident: &str) -> TypeDecl {
    path_with(ident, Arguments::Absent)
}

fn generic(ident: &str, args: Vec<GenericArg>) -> TypeDecl {
    path_with(ident, Arguments::AngleBracketed(args))
}

fn other(tokens: &str) -> TypeDecl {
    TypeDecl { tokens: tokens.to_string(), shape: TypeShape::Other }
}

fn result_of(ok: TypeDecl) -> TypeDecl {
    generic("Result", vec![GenericArg::Type(ok), GenericArg::Type(named("Error"))])
}

#[test]
fn results_and_options_are_looked_through() {
    let ty = generic("Result", vec![GenericArg::Other, GenericArg::Type(named("T"))]);
    assert_eq!(extract_result_ok(&ty).unwrap().tokens, "T");
    assert!(extract_result_ok(&generic("Result", vec![])).is_none());
    assert!(extract_result_ok(&named("Result")).is_none());
    assert!(extract_result_ok(&path_with("Result", Arguments::Parenthesized)).is_none());
    assert!(extract_result_ok(&generic("Outcome", vec![GenericArg::Type(named("T"))])).is_none());
    assert!(extract_result_ok(&other("& T")).is_none());

    let ty = generic("Option", vec![GenericArg::Type(named("T"))]);
    let (inner, optional) = unwrap_option(&ty);
    assert_eq!((inner.tokens.as_str(), optional), ("T", true));
    // Only a type in the first place counts.
    let ty = generic("Option", vec![GenericArg::Other, GenericArg::Type(named("T"))]);
    let (inner, optional) = unwrap_option(&ty);
    assert_eq!((inner.tokens.as_str(), optional), ("Option", false));
    assert!(!unwrap_option(&named("Option")).1);
    assert!(!unwrap_option(&generic("Option", vec![])).1);
    assert!(!unwrap_option(&other("& T")).1);
}

fn value(ident: &str, literal: Option<&str>) -> MetaDecl {
    MetaDecl::NameValue {
        ident: Some(ident.to_string()),
        literal: literal.map(|l| l.to_string()),
    }
}

fn word(ident: &str) -> MetaDecl {
    MetaDecl::Path { ident: Some(ident.to_string()) }
}

#[test]
fn contract_options_are_read() {
    let args = parse_contract_args(&vec![]).ok().unwrap();
    assert_eq!((args.name, args.version, args.title), (None, None, None));
    let metas = vec![
        value("name", Some("a")),
        value("version", Some("1")),
        value("title", Some("t")),
        value("name", Some("b")),
    ];
    let args = parse_contract_args(&metas).ok().unwrap();
    assert_eq!(args.name.as_deref(), Some("b"));
    assert_eq!(args.version.as_deref(), Some("1"));
    assert_eq!(args.title.as_deref(), Some("t"));
}

fn option_fault(metas: Vec<MetaDecl>) -> (Spot, String) {
    let fault = parse_contract_args(&metas).err().unwrap();
    (fault.spot, fault.message)
}

#[test]
fn faulty_contract_options_are_told() {
    let expected = "expected key = \"value\" (name, version, title)".to_string();
    assert_eq!(option_fault(vec![word("name")]), (Spot::Meta(0), expected.clone()));
    assert_eq!(
        option_fault(vec![value("name", Some("a")), MetaDecl::List]),
        (Spot::Meta(1), expected)
    );
    assert_eq!(
        option_fault(vec![value("name", None)]),
        (Spot::MetaValue(0), "expected string literal".to_string())
    );
    // The value is looked at before the key.
    assert_eq!(
        option_fault(vec![value("nope", None)]),
        (Spot::MetaValue(0), "expected string literal".to_string())
    );
    assert_eq!(
        option_fault(vec![value("nope", Some("a"))]),
        (
            Spot::Meta(0),
            "unknown contract option `nope` (expected name, version, title)".to_string()
        )
    );
    let strange = MetaDecl::NameValue { ident: None, literal: Some("a".to_string()) };
    assert_eq!(
        option_fault(vec![strange]),
        (
            Spot::Meta(0),
            "unknown contract option `` (expected name, version, title)".to_string()
        )
    );
}

fn typed(ident: &str, ty: TypeDecl) -> InputDecl {
    InputDecl::Typed { ident: Some(ident.to_string()), ty }
}

fn method(args: AttrArgs, inputs: Vec<InputDecl>, output: Option<TypeDecl>) -> MethodDecl {
    MethodDecl {
        name: "create_asset".to_string(),
        is_async: true,
        attrs: vec![
            AttrDecl { ident: Some("doc".to_string()), args: AttrArgs::Absent },
            AttrDecl { ident: Some("transaction".to_string()), args },
        ],
        inputs,
        output,
    }
}

fn good_inputs() -> Vec<InputDecl> {
    vec![
        InputDecl::Receiver,
        typed("ctx", other("& ChaincodeStub")),
        typed("new_owner", named("String")),
        typed("size", named("u32")),
    ]
}

fn faults_of(method: &MethodDecl) -> Vec<(Spot, String)> {
    let mut faults: Vec<Fault> = Vec::new();
    let _ = read_method(method, &mut faults);
    faults.into_iter().map(|f| (f.spot, f.message)).collect()
}

#[test]
fn transactions_are_read_from_their_methods() {
    let declared = method(AttrArgs::Absent, good_inputs(), Some(result_of(named("Asset"))));
    assert_eq!(find_transaction(&declared.attrs), Some(1));
    let mut faults = Vec::new();
    let shape = read_method(&declared, &mut faults).unwrap();
    assert!(faults.is_empty());
    assert_eq!(shape.name, None);
    assert!(!shape.evaluate);
    assert!(shape.is_async);
    assert_eq!(shape.method, "create_asset");
    assert_eq!(shape.ok_ty.as_deref(), Some("Asset"));
    let params: Vec<(&str, &str)> =
        shape.params.iter().map(|p| (p.ident.as_str(), p.ty.as_str())).collect();
    assert_eq!(params, [("new_owner", "String"), ("size", "u32")]);
    assert_eq!(transaction_name(&shape), "CreateAsset");
    assert_eq!(parameter_name("new_owner"), "newOwner");
    let how = signature(&shape);
    assert_eq!((how.wire_name.as_str(), how.params), ("CreateAsset", 2));

    let unit = TypeDecl { tokens: "()".to_string(), shape: TypeShape::Tuple(0) };
    let metas = vec![word("evaluate"), value("name", Some("Other"))];
    let declared = method(AttrArgs::Metas(metas), good_inputs(), Some(result_of(unit)));
    let shape = read_method(&declared, &mut faults).unwrap();
    assert!(shape.evaluate);
    assert_eq!(shape.ok_ty, None);
    assert_eq!(transaction_name(&shape), "Other");
    // Of contradicting words the last counts, and a pair is not a unit.
    let pair = TypeDecl { tokens: "(A, B)".to_string(), shape: TypeShape::Tuple(2) };
    let metas = vec![word("evaluate"), word("submit")];
    let declared = method(AttrArgs::Metas(metas), good_inputs(), Some(result_of(pair)));
    let shape = read_method(&declared, &mut faults).unwrap();
    assert!(!shape.evaluate);
    assert_eq!(shape.ok_ty.as_deref(), Some("(A, B)"));
    // A method without the attribute is none.
    let mut plain = method(AttrArgs::Absent, vec![], None);
    plain.attrs.pop();
    assert_eq!(find_transaction(&plain.attrs), None);
    assert!(read_method(&plain, &mut faults).is_none());
    assert!(faults.is_empty());
}

#[test]
fn faulty_transactions_are_told() {
    let ok = || Some(result_of(named("T")));
    let strange = "expected `submit`, `evaluate`, or `name = \"...\"`".to_string();
    let metas = vec![
        word("maybe"),
        MetaDecl::Path { ident: None },
        value("name", None),
        value("title", Some("x")),
        MetaDecl::List,
    ];
    assert_eq!(
        faults_of(&method(AttrArgs::Metas(metas), good_inputs(), ok())),
        vec![
            (Spot::Meta(0), strange.clone()),
            (Spot::Meta(1), strange.clone()),
            (Spot::MetaValue(2), "expected string literal".to_string()),
            (Spot::Meta(3), strange.clone()),
            (Spot::Meta(4), strange.clone()),
        ]
    );
    assert_eq!(
        faults_of(&method(AttrArgs::Unparsable("odd".to_string()), vec![], None)),
        vec![(Spot::Attribute, "odd".to_string())]
    );
    let takes_self = (Spot::Signature, "#[transaction] methods must take &self".to_string());
    assert_eq!(faults_of(&method(AttrArgs::Absent, vec![], ok())), vec![takes_self.clone()]);
    let metas = AttrArgs::Metas(vec![MetaDecl::List]);
    assert_eq!(
        faults_of(&method(metas, vec![typed("a", named("T"))], ok())),
        vec![(Spot::Meta(0), strange), takes_self]
    );
    assert_eq!(
        faults_of(&method(AttrArgs::Absent, vec![InputDecl::Receiver], ok())),
        vec![(
            Spot::Signature,
            "#[transaction] methods must take a context as their first argument, \
             e.g. `ctx: &ChaincodeStub`"
                .to_string()
        )]
    );
    let mut inputs = good_inputs();
    inputs.push(InputDecl::Typed { ident: None, ty: named("T") });
    inputs.push(InputDecl::Typed { ident: None, ty: named("T") });
    let simple = "#[transaction] parameters must be simple identifiers".to_string();
    assert_eq!(
        faults_of(&method(AttrArgs::Absent, inputs, None)),
        vec![(Spot::Input(4), simple.clone()), (Spot::Input(5), simple)]
    );
    let result = "#[transaction] methods must return Result<T, E> (E: Display)".to_string();
    assert_eq!(
        faults_of(&method(AttrArgs::Absent, good_inputs(), None)),
        vec![(Spot::Signature, result.clone())]
    );
    assert_eq!(
        faults_of(&method(AttrArgs::Absent, good_inputs(), Some(named("T")))),
        vec![(Spot::Output, result)]
    );
}

fn no_options() -> fabric_shim::declaration::ContractArgs {
    parse_contract_args(&vec![]).ok().unwrap()
}

#[test]
fn contracts_are_planned() {
    let good = || method(AttrArgs::Absent, good_inputs(), Some(result_of(named("T"))));
    let mut helper = good();
    helper.attrs.clear();
    let decl = ImplDecl {
        generic: false,
        self_type: Some("Assets".to_string()),
        methods: vec![good(), helper, good()],
    };
    let plan = contract(no_options(), &decl).ok().unwrap();
    assert_eq!((plan.name.as_str(), plan.title.as_str()), ("Assets", "Assets"));
    assert_eq!(plan.version, None);
    assert_eq!(plan.transactions.len(), 2);

    let metas = vec![value("name", Some("N")), value("version", Some("2"))];
    let plan = contract(parse_contract_args(&metas).ok().unwrap(), &decl).ok().unwrap();
    assert_eq!((plan.name.as_str(), plan.title.as_str()), ("N", "N"));
    assert_eq!(plan.version.as_deref(), Some("2"));
    let metas = vec![value("title", Some("T"))];
    let plan = contract(parse_contract_args(&metas).ok().unwrap(), &decl).ok().unwrap();
    assert_eq!((plan.name.as_str(), plan.title.as_str()), ("Assets", "T"));
}

#[test]
fn faulty_contracts_are_told_with_all_their_faults() {
    let bad = || method(AttrArgs::Absent, good_inputs(), None);
    let faults = |decl: &ImplDecl| -> Vec<(Whereabouts, String)> {
        let found = contract(no_options(), decl).err().unwrap();
        found.into_iter().map(|f| (f.at, f.message)).collect()
    };
    let decl = ImplDecl { generic: true, self_type: None, methods: vec![bad()] };
    assert_eq!(
        faults(&decl),
        vec![(Whereabouts::Generics, "#[contract] impls cannot be generic".to_string())]
    );
    let decl = ImplDecl { generic: false, self_type: None, methods: vec![bad()] };
    assert_eq!(
        faults(&decl),
        vec![(Whereabouts::SelfType, "#[contract] requires a named type".to_string())]
    );
    let good = method(AttrArgs::Absent, good_inputs(), Some(result_of(named("T"))));
    let decl = ImplDecl {
        generic: false,
        self_type: Some("A".to_string()),
        methods: vec![bad(), good, bad()],
    };
    let words = "#[transaction] methods must return Result<T, E> (E: Display)".to_string();
    assert_eq!(
        faults(&decl),
        vec![
            (Whereabouts::Method(0, Spot::Signature), words.clone()),
            (Whereabouts::Method(2, Spot::Signature), words),
        ]
    );
}

// ---- data types ------------------------------------------------------------

fn item(key: &str, value: ItemValue) -> SerdeItem {
    SerdeItem { key: Some(key.to_string()), value }
}

fn said(key: &str, value: &str) -> SerdeItem {
    item(key, ItemValue::Text(value.to_string()))
}

fn attr(ident: &str, items: Vec<SerdeItem>) -> ItemAttr {
    ItemAttr { ident: Some(ident.to_string()), items }
}

#[test]
fn serde_values_are_found() {
    let attrs = vec![
        attr("doc", vec![said("rename", "no")]),
        attr("serde", vec![item("default", ItemValue::Absent), said("rename_all", "x")]),
        attr("serde", vec![said("rename", "a"), said("rename", "b")]),
        attr("serde", vec![said("rename", "c")]),
    ];
    assert_eq!(serde_rename(&attrs).as_deref(), Some("b"));
    assert_eq!(serde_rename_all(&attrs).as_deref(), Some("x"));
    assert_eq!(serde_string_value(&attrs, "tag"), None);
    // Other items are passed over, a list among them.
    let list = || ItemValue::List { serialize: None };
    let attrs = vec![attr("serde", vec![item("bound", list()), said("rename", "ID")])];
    assert_eq!(serde_rename(&attrs).as_deref(), Some("ID"));
    let attrs = vec![attr(
        "serde",
        vec![
            item("with", ItemValue::Expr),
            said("rename", "a"),
            item("bound", list()),
            said("rename", "b"),
            item("default", ItemValue::Absent),
        ],
    )];
    assert_eq!(serde_rename(&attrs).as_deref(), Some("b"));
    // A list may name the field for writing.
    let named = ItemValue::List { serialize: Some("out".to_string()) };
    let attrs = vec![attr("serde", vec![item("rename", named)])];
    assert_eq!(serde_rename(&attrs).as_deref(), Some("out"));
    let other = ItemValue::List { serialize: Some("out".to_string()) };
    let attrs = vec![attr("serde", vec![item("bound", other)])];
    assert_eq!(serde_rename(&attrs), None);
    let attrs = vec![attr("serde", vec![item("rename", list()), said("rename", "b")])];
    assert_eq!(serde_rename(&attrs).as_deref(), Some("b"));
    let attrs = vec![attr("serde", vec![said("rename", "a"), item("rename", ItemValue::Expr)])];
    assert_eq!(serde_rename(&attrs).as_deref(), Some("a"));
    let strange = SerdeItem { key: None, value: ItemValue::Absent };
    let attrs = vec![ItemAttr { ident: None, items: vec![] }, attr("serde", vec![strange])];
    assert_eq!(serde_rename(&attrs), None);
}

#[test]
fn fields_are_renamed_by_rule() {
    let rename = |rule: &str| apply_rename_all("max_speedKm", Some(rule));
    assert_eq!(rename("camelCase"), "maxSpeedKm");
    assert_eq!(rename("PascalCase"), "MaxSpeedKm");
    assert_eq!(rename("UPPERCASE"), "MAX_SPEEDKM");
    assert_eq!(rename("lowercase"), "max_speedKm");
    assert_eq!(rename("SCREAMING_SNAKE_CASE"), "MAX_SPEEDKM");
    assert_eq!(rename("kebab-case"), "max-speedKm");
    assert_eq!(rename("SCREAMING-KEBAB-CASE"), "MAX-SPEEDKM");
    assert_eq!(rename("snake_case"), "max_speedKm");
    assert_eq!(rename("Camel"), "max_speedKm");
    assert_eq!(apply_rename_all("max_speedKm", None), "max_speedKm");
}

#[test]
fn renaming_keeps_what_is_no_ascii_letter_and_no_underscore() {
    let rename = |field: &str, rule: &str| apply_rename_all(field, Some(rule));
    assert_eq!(rename("type_", "SCREAMING_SNAKE_CASE"), "TYPE_");
    assert_eq!(rename("type_", "camelCase"), "type");
    assert_eq!(rename("type_", "kebab-case"), "type-");
    assert_eq!(rename("a__b", "kebab-case"), "a--b");
    assert_eq!(rename("a__b", "camelCase"), "aB");
    assert_eq!(rename("_id", "PascalCase"), "Id");
    assert_eq!(rename("_id", "camelCase"), "id");
    assert_eq!(rename("line2_no", "PascalCase"), "Line2No");
    assert_eq!(rename("line_2", "camelCase"), "line2");
    assert_eq!(rename("gr\u{f6}\u{df}e_x", "UPPERCASE"), "GR\u{f6}\u{df}E_X");
    assert_eq!(rename("\u{f6}_x", "PascalCase"), "\u{f6}X");
    assert_eq!(rename("_", "camelCase"), "");
}

#[test]
fn schemas_name_fields_as_serde_writes_them() {
    let decl = DataDecl {
        ident: "Car".to_string(),
        generic: false,
        attrs: vec![attr("serde", vec![said("rename_all", "SCREAMING_SNAKE_CASE")])],
        body: BodyDecl::Named(vec![field("type_", vec![], named("String"))]),
    };
    let fields: Vec<Property> = derive_data_type(&decl)
        .unwrap()
        .into_iter()
        .map(|f| Property { json_name: f.json_name, schema: plain("string"), optional: f.optional })
        .collect();
    let mut out = TextMap::new();
    assert!(register_data_type(&mut out, "Car", fields));
    let schema = object(vec![
        ("properties", object(vec![("TYPE_", plain("string"))])),
        ("required", Value::Array(vec![text("TYPE_")])),
        ("type", text("object")),
    ]);
    assert_eq!(out.get("Car"), Some(&schema));
}

fn field(ident: &str, attrs: Vec<ItemAttr>, ty: TypeDecl) -> FieldDecl {
    FieldDecl { ident: ident.to_string(), attrs, ty }
}

#[test]
fn data_types_are_planned() {
    let decl = DataDecl {
        ident: "Car".to_string(),
        generic: false,
        attrs: vec![attr("serde", vec![said("rename_all", "camelCase")])],
        body: BodyDecl::Named(vec![
            field("id", vec![attr("serde", vec![said("rename", "ID")])], named("String")),
            field("max_speed", vec![], named("u32")),
            field("note", vec![], generic("Option", vec![GenericArg::Type(named("String"))])),
        ]),
    };
    let fields = derive_data_type(&decl).unwrap();
    let plans: Vec<(&str, &str, bool)> =
        fields.iter().map(|f| (f.json_name.as_str(), f.ty.as_str(), f.optional)).collect();
    assert_eq!(
        plans,
        [("ID", "String", false), ("maxSpeed", "u32", false), ("note", "String", true)]
    );
}

#[test]
fn types_that_are_no_data_types_are_told() {
    let fault = |generic: bool, body: BodyDecl| {
        let decl = DataDecl { ident: "T".to_string(), generic, attrs: vec![], body };
        derive_data_type(&decl).unwrap_err()
    };
    assert_eq!(fault(true, BodyDecl::NoStruct), "DataType supports only structs");
    assert_eq!(fault(true, BodyDecl::Unnamed), "DataType requires named fields");
    assert_eq!(fault(true, BodyDecl::Named(vec![])), "DataType structs cannot be generic");
}

fn properties() -> Vec<Property> {
    vec![
        Property { json_name: "size".to_string(), schema: plain("integer"), optional: false },
        Property { json_name: "ID".to_string(), schema: plain("string"), optional: false },
        Property { json_name: "note".to_string(), schema: plain("string"), optional: true },
    ]
}

#[test]
fn data_types_are_registered_once() {
    let mut out = TextMap::new();
    assert!(register_data_type(&mut out, "Asset", properties()));
    let schema = object(vec![
        (
            "properties",
            object(vec![
                ("ID", plain("string")),
                ("note", plain("string")),
                ("size", plain("integer")),
            ]),
        ),
        ("required", Value::Array(vec![text("size"), text("ID")])),
        ("type", text("object")),
    ]);
    assert_eq!(out.get("Asset"), Some(&schema));
    assert!(!register_data_type(&mut out, "Asset", vec![]));
    assert_eq!(out.get("Asset"), Some(&schema));
    assert!(register_data_type(&mut out, "Aardvark", vec![]));
    assert_eq!(out.key_at(0), "Aardvark");
    assert_eq!(
        reference_schema("Asset"),
        object(vec![("$ref", text("#/components/schemas/Asset"))])
    );
}

fn declared(types: &[(&str, &[&str])]) -> Vec<DataType> {
    let mut table = Vec::new();
    for (name, refers) in types {
        let fields = refers
            .iter()
            .map(|r| Property {
                json_name: r.to_lowercase(),
                schema: reference_schema(r),
                optional: false,
            })
            .collect();
        let refers = refers.iter().map(|r| r.to_string()).collect();
        assert!(declare_data_type(&mut table, name, fields, refers));
    }
    table
}

fn keys(map: &TextMap<Value>) -> Vec<&str> {
    (0..map.len()).map(|i| map.key_at(i)).collect()
}

fn wanted(names: &[&str]) -> Vec<String> {
    names.iter().map(|n| n.to_string()).collect()
}

#[test]
fn data_types_bring_along_what_they_refer_to() {
    // A cycle, a type that refers to itself, and one that nobody refers to.
    let table = declared(&[
        ("A", &["B", "B"]),
        ("B", &["C", "A", "Nowhere"]),
        ("C", &["C"]),
        ("D", &["A"]),
    ]);
    let mut out = TextMap::new();
    register_data_types(&mut out, &table, &wanted(&["A"]));
    assert_eq!(keys(&out), ["A", "B", "C"]);
    assert_eq!(
        out.get("C"),
        Some(&object(vec![
            ("properties", object(vec![("c", reference_schema("C"))])),
            ("required", Value::Array(vec![text("c")])),
            ("type", text("object")),
        ]))
    );
    // Again changes nothing, and another name adds what is new.
    let before = out.clone();
    register_data_types(&mut out, &table, &wanted(&["A", "B"]));
    let again = out.clone();
    assert_eq!(out.into_pairs(), before.into_pairs());
    let mut out = again;
    register_data_types(&mut out, &table, &wanted(&["D"]));
    assert_eq!(keys(&out), ["A", "B", "C", "D"]);
    register_data_types(&mut out, &table, &wanted(&["Nowhere"]));
    assert_eq!(keys(&out), ["A", "B", "C", "D"]);
}

#[test]
fn known_schemas_stay_and_end_the_search() {
    let table = declared(&[("A", &["B", "E"]), ("B", &["C"]), ("C", &[]), ("E", &[])]);
    let mut out = TextMap::new();
    out.insert("B".to_string(), text("known"));
    register_data_types(&mut out, &table, &wanted(&["A"]));
    assert_eq!(keys(&out), ["A", "B", "E"]);
    assert_eq!(out.get("B"), Some(&text("known")));
}

#[test]
fn data_types_are_declared_once() {
    let mut table = declared(&[("A", &["B"])]);
    assert!(!declare_data_type(&mut table, "A", vec![], vec![]));
    assert_eq!(table.len(), 1);
    assert_eq!(table[0].refers, ["B"]);
    assert!(declare_data_type(&mut table, "B", vec![], vec![]));
    assert_eq!(table[1].name, "B");
}

#[test]
fn json_faults_are_told_with_their_type() {
    assert_eq!(read_array(Ok(vec![1])), Ok(vec![1]));
    assert_eq!(
        read_array::<u8>(Err("eof".to_string())),
        Err("invalid JSON array: eof".to_string())
    );
    assert_eq!(read_data("Car", Ok(1)), Ok(1));
    assert_eq!(
        read_data::<u8>("Car", Err("eof".to_string())),
        Err("invalid JSON for Car: eof".to_string())
    );
    assert_eq!(write_data("Car", Ok(vec![1])), Ok(vec![1]));
    assert_eq!(
        write_data("Car", Err("full".to_string())),
        Err("failed to serialize Car: full".to_string())
    );
    assert_eq!(array_of(plain("integer")), <Vec<u8> as ContractSchema>::schema());
}

// ---- dispatch --------------------------------------------------------------

fn bytes(args: &[&str]) -> Vec<Vec<u8>> {
    args.iter().map(|a| a.as_bytes().to_vec()).collect()
}

fn signatures() -> Vec<Signature> {
    vec![
        Signature { wire_name: "Put".to_string(), params: 2 },
        Signature { wire_name: "Get".to_string(), params: 1 },
        Signature { wire_name: "Get".to_string(), params: 3 },
    ]
}

#[test]
fn calls_are_routed_by_name() {
    let signatures = signatures();
    assert_eq!(route(&bytes(&["Put", "k", "v"]), &signatures), Ok(0));
    assert_eq!(route(&bytes(&["Get", "k"]), &signatures), Ok(1));
    assert_eq!(route(&bytes(&["My:Contract:Get", "k"]), &signatures), Ok(1));
    let refused = |args: &[&str]| route(&bytes(args), &signatures).unwrap_err();
    assert_eq!(refused(&[]), Response::error("no function specified".to_string()));
    assert_eq!(refused(&["Gone"]), Response::error("unknown function Gone".to_string()));
    assert_eq!(refused(&["Put:"]), Response::error("unknown function ".to_string()));
    // The first transaction of a name is the one that is called.
    assert_eq!(
        refused(&["N:Get", "a", "b", "c"]),
        Response::error("Get expects 1 argument(s), got 3".to_string())
    );
    assert_eq!(
        route(&[b"\xff".to_vec()], &signatures),
        Err(Response::error("unknown function \u{FFFD}".to_string()))
    );
    assert_eq!(function_name("a:b:c"), "c");
    assert_eq!(function_name("abc"), "abc");
    assert_eq!(function_name("abc:"), "");
}

#[test]
fn arguments_and_outcomes_become_responses() {
    let args = bytes(&["F", "7", "x"]);
    assert_eq!(read_argument::<u8>(&args, 1, "n"), Ok(7));
    assert_eq!(
        read_argument::<u8>(&args, 2, "n"),
        Err(Response::error("invalid argument `n`: invalid digit found in string".to_string()))
    );
    assert_eq!(accept_argument(Ok(7), "n"), Ok(7));
    assert_eq!(
        accept_argument::<u8>(Err("odd".to_string()), "n"),
        Err(Response::error("invalid argument `n`: odd".to_string()))
    );
    assert_eq!(conclude(Ok(Ok(vec![1]))), Response::success(vec![1]));
    assert_eq!(conclude(Ok(Err("a".to_string()))), Response::error("a".to_string()));
    assert_eq!(conclude(Err("b".to_string())), Response::error("b".to_string()));
}

// ---- metadata --------------------------------------------------------------

#[test]
fn metadata_is_built_by_hand() {
    assert_eq!(METADATA_FUNCTION, "org.hyperledger.fabric:GetMetadata");
    let document = Metadata::new("title".to_string(), "1".to_string())
        .contract(
            Contract::new("B".to_string()).transaction(
                Transaction::submit("Put".to_string())
                    .parameter("key".to_string(), plain("string"))
                    .returning(plain("integer")),
            ),
        )
        .contract(Contract::new("A".to_string()))
        .contract(Contract::new("A".to_string()).transaction(Transaction::evaluate("Get".to_string())))
        .component("S".to_string(), plain("object"));
    assert_eq!(document.schema, CONTRACT_SCHEMA_URL);
    assert_eq!((document.info.title.as_str(), document.info.version.as_str()), ("title", "1"));
    assert_eq!(document.contracts.len(), 2);
    assert_eq!(document.contracts.key_at(0), "A");
    let a = document.contracts.get("A").unwrap();
    assert_eq!(a.transactions[0].name, "Get");
    assert_eq!(a.transactions[0].tag, ["evaluate"]);
    assert!(a.transactions[0].returns.is_none());
    assert!(a.default);
    assert_eq!((a.info.title.as_str(), a.info.version.as_str()), ("A", "latest"));
    let put = &document.contracts.get("B").unwrap().transactions[0];
    assert_eq!(put.tag, ["submit"]);
    assert_eq!(put.parameters[0].name, "key");
    assert_eq!(put.parameters[0].schema, plain("string"));
    assert!(put.parameters[0].description.is_none());
    assert_eq!(put.returns, Some(plain("integer")));
    assert_eq!(document.components.schemas.get("S"), Some(&plain("object")));
    assert!(!document.components.is_empty());
    let copy = document.clone();
    assert_eq!(copy.contracts.get("B").unwrap().transactions[0].name, "Put");
    assert_eq!(copy.components.schemas.len(), 1);
}

#[test]
fn blank_metadata_says_nothing() {
    let document = Metadata::default();
    assert_eq!(document.schema, "");
    assert!(document.contracts.is_empty());
    assert!(document.components.is_empty());
    assert!(Components::default().is_empty());
    let info = Info::default();
    assert_eq!((info.title, info.version, info.description), (String::new(), String::new(), None));
    let contract = Contract::default();
    assert!(!contract.default);
    assert!(contract.transactions.is_empty());
    let transaction = Transaction::default();
    assert!(transaction.tag.is_empty() && transaction.parameters.is_empty());
    let parameter = Parameter::default();
    assert_eq!(parameter.schema, Value::Null);
}

#[test]
fn contracts_are_described() {
    let transactions = vec![
        describe_transaction(
            "Put".to_string(),
            false,
            vec![("key".to_string(), plain("string")), ("n".to_string(), plain("integer"))],
            None,
        ),
        describe_transaction("Get".to_string(), true, vec![], Some(reference_schema("Asset"))),
    ];
    let mut components = TextMap::new();
    register_data_type(&mut components, "Asset", properties());
    register_data_type(&mut components, "A", vec![]);
    let document = describe_contract(
        "C".to_string(),
        "T".to_string(),
        "3".to_string(),
        transactions,
        components,
    );
    assert_eq!((document.info.title.as_str(), document.info.version.as_str()), ("T", "3"));
    let contract = document.contracts.get("C").unwrap();
    assert_eq!(contract.transactions.len(), 2);
    assert_eq!(contract.transactions[0].tag, ["submit"]);
    assert_eq!(contract.transactions[0].parameters.len(), 2);
    assert_eq!(contract.transactions[0].parameters[1].name, "n");
    assert_eq!(contract.transactions[1].tag, ["evaluate"]);
    assert_eq!(contract.transactions[1].returns, Some(reference_schema("Asset")));
    assert_eq!(document.components.schemas.len(), 2);
    assert_eq!(document.components.schemas.key_at(0), "A");
}
