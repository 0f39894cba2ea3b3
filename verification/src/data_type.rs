//! Structs as parameters and results of transactions: the names of their fields in
//! JSON, and their schemas.

use vstd::prelude::*;

use crate::declaration::{is_ident, option_some, unwrap_option, TypeDecl};
use crate::json::{Json, Member, Value};
use crate::metadata::{inserted_through, schemas_json};
use crate::text;
use crate::text_map::{found, inserted, TextMap};

verus! {

// ---- declarations ----------------------------------------------------------
/// What stands behind the key of an item in a `serde` attribute.
#[derive(Debug)]
pub enum ItemValue {
    /// Nothing.
    Absent,
    /// `=` and a string literal.
    Text(String),
    /// `=` and another expression.
    Expr,
    /// A list in brackets, with the string literal that it gives to `serialize`.
    List { serialize: Option<String> },
}

/// An item of a `serde` attribute. A key that is more than an identifier has none.
#[derive(Debug)]
pub struct SerdeItem {
    pub key: Option<String>,
    pub value: ItemValue,
}

/// An attribute of a struct or a field, with its items where they can be read.
#[derive(Debug)]
pub struct ItemAttr {
    pub ident: Option<String>,
    pub items: Vec<SerdeItem>,
}

/// A field of a struct.
#[derive(Debug)]
pub struct FieldDecl {
    pub ident: String,
    pub attrs: Vec<ItemAttr>,
    pub ty: TypeDecl,
}

/// The body of a declared type.
#[derive(Debug)]
pub enum BodyDecl {
    /// A struct with named fields.
    Named(Vec<FieldDecl>),
    /// A struct without names for its fields.
    Unnamed,
    /// No struct.
    NoStruct,
}

/// A type that is to be a data type.
#[derive(Debug)]
pub struct DataDecl {
    pub ident: String,
    pub generic: bool,
    pub attrs: Vec<ItemAttr>,
    pub body: BodyDecl,
}

// ---- serde attributes ------------------------------------------------------
/// The text that stands behind a key: a string literal, or what a list gives to
/// `serialize`.
pub open spec fn item_text(value: ItemValue) -> Option<Seq<char>> {
    match value {
        ItemValue::Text(text) => Some(text@),
        ItemValue::List { serialize: Some(text) } => Some(text@),
        _ => None,
    }
}

/// The text that the last of `items` with this key and a text gives to `key`.
pub open spec fn item_value(items: Seq<SerdeItem>, key: Seq<char>) -> Option<Seq<char>>
    decreases items.len(),
{
    if items.len() == 0 {
        None
    } else if is_ident(items.last().key, key) && item_text(items.last().value) is Some {
        item_text(items.last().value)
    } else {
        item_value(items.drop_last(), key)
    }
}

/// The value of `key` in the first `serde` attribute that gives it one.
pub open spec fn serde_value(attrs: Seq<ItemAttr>, key: Seq<char>) -> Option<Seq<char>>
    decreases attrs.len(),
{
    if attrs.len() == 0 {
        None
    } else if is_ident(attrs[0].ident, "serde"@) && item_value(attrs[0].items@, key) is Some {
        item_value(attrs[0].items@, key)
    } else {
        serde_value(attrs.skip(1), key)
    }
}

fn key_is(ident: &Option<String>, wanted: &str) -> (r: bool)
    ensures
        r == is_ident(*ident, wanted@),
{
    match ident {
        Some(name) => text::same_text(name.as_str(), wanted),
        None => false,
    }
}

fn read_items(items: &Vec<SerdeItem>, key: &str) -> (r: Option<String>)
    ensures
        text::optional(r) == item_value(items@, key@),
{
    let mut found: Option<String> = None;
    let mut i: usize = 0;
    assert(items@.take(0) =~= Seq::<SerdeItem>::empty());
    while i < items.len()
        invariant
            0 <= i <= items@.len(),
            text::optional(found) == item_value(items@.take(i as int), key@),
        decreases items@.len() - i,
    {
        let item = &items[i];
        assert(items@.take(i + 1).drop_last() =~= items@.take(i as int));
        assert(items@.take(i + 1).last() == *item);
        if key_is(&item.key, key) {
            match &item.value {
                ItemValue::Text(value) => {
                    found = Some(value.clone());
                },
                ItemValue::List { serialize: Some(value) } => {
                    found = Some(value.clone());
                },
                _ => {},
            }
        }
        i = i + 1;
    }
    assert(items@.take(i as int) =~= items@);
    found
}

/// Looks up the value of `key` in the `serde` attributes.
pub fn serde_string_value(attrs: &Vec<ItemAttr>, key: &str) -> (r: Option<String>)
    ensures
        match r {
            Some(value) => serde_value(attrs@, key@) == Some(value@),
            None => serde_value(attrs@, key@) is None,
        },
{
    let mut i: usize = 0;
    assert(attrs@.skip(0) =~= attrs@);
    while i < attrs.len()
        invariant
            0 <= i <= attrs@.len(),
            serde_value(attrs@.skip(i as int), key@) == serde_value(attrs@, key@),
        decreases attrs@.len() - i,
    {
        assert(attrs@.skip(i as int).skip(1) =~= attrs@.skip(i + 1));
        if key_is(&attrs[i].ident, "serde") {
            let found = read_items(&attrs[i].items, key);
            if found.is_some() {
                return found;
            }
        }
        i = i + 1;
    }
    None
}

/// The name that a `serde` attribute gives to a field.
pub fn serde_rename(attrs: &Vec<ItemAttr>) -> (r: Option<String>)
    ensures
        match r {
            Some(value) => serde_value(attrs@, "rename"@) == Some(value@),
            None => serde_value(attrs@, "rename"@) is None,
        },
{
    serde_string_value(attrs, "rename")
}

/// The rule that a `serde` attribute gives for the names of all fields.
pub fn serde_rename_all(attrs: &Vec<ItemAttr>) -> (r: Option<String>)
    ensures
        match r {
            Some(value) => serde_value(attrs@, "rename_all"@) == Some(value@),
            None => serde_value(attrs@, "rename_all"@) is None,
        },
{
    serde_string_value(attrs, "rename_all")
}

// ---- names of fields -------------------------------------------------------
/// An ASCII letter in upper case; any other character as it is.
pub open spec fn ascii_raised(c: char) -> char {
    if 'a' <= c <= 'z' {
        (c as u32 - 32) as char
    } else {
        c
    }
}

/// An ASCII letter in lower case; any other character as it is.
pub open spec fn ascii_lowered(c: char) -> char {
    if 'A' <= c <= 'Z' {
        (c as u32 + 32) as char
    } else {
        c
    }
}

/// The field with its ASCII letters in upper case.
pub open spec fn field_upper(field: Seq<char>) -> Seq<char> {
    Seq::new(field.len(), |i: int| ascii_raised(field[i]))
}

/// The field with `-` for every `_`.
pub open spec fn field_kebab(field: Seq<char>) -> Seq<char> {
    Seq::new(
        field.len(),
        |i: int|
            if field[i] == '_' {
                '-'
            } else {
                field[i]
            },
    )
}

/// The field without its underscores, with an ASCII letter behind each of them in
/// upper case, and the first too where `capitalize` says so.
pub open spec fn field_pascal(field: Seq<char>, capitalize: bool) -> Seq<char>
    decreases field.len(),
{
    if field.len() == 0 {
        seq![]
    } else if field[0] == '_' {
        field_pascal(field.skip(1), true)
    } else {
        seq![
            if capitalize {
                ascii_raised(field[0])
            } else {
                field[0]
            },
        ] + field_pascal(field.skip(1), false)
    }
}

/// [`field_pascal`] with an ASCII letter in front in lower case.
pub open spec fn field_camel(field: Seq<char>) -> Seq<char> {
    let pascal = field_pascal(field, true);
    if pascal.len() == 0 {
        pascal
    } else {
        seq![ascii_lowered(pascal[0])] + pascal.skip(1)
    }
}

/// The name that serde writes a field under where `rule` holds for all fields. A
/// field is taken to be in snake_case, so two of the rules change nothing; nor does
/// a rule that is not known.
pub open spec fn renamed(field: Seq<char>, rule: Option<Seq<char>>) -> Seq<char> {
    match rule {
        None => field,
        Some(r) => if r == "camelCase"@ {
            field_camel(field)
        } else if r == "PascalCase"@ {
            field_pascal(field, true)
        } else if r == "UPPERCASE"@ || r == "SCREAMING_SNAKE_CASE"@ {
            field_upper(field)
        } else if r == "kebab-case"@ {
            field_kebab(field)
        } else if r == "SCREAMING-KEBAB-CASE"@ {
            field_kebab(field_upper(field))
        } else {
            field
        },
    }
}

fn raise(c: char) -> (r: char)
    ensures
        r == ascii_raised(c),
{
    if 'a' <= c && c <= 'z' {
        (c as u8 - 32) as char
    } else {
        c
    }
}

fn lowered(c: char) -> (r: char)
    ensures
        r == ascii_lowered(c),
{
    if 'A' <= c && c <= 'Z' {
        (c as u8 + 32) as char
    } else {
        c
    }
}

fn upper_chars(field: &Vec<char>) -> (r: Vec<char>)
    ensures
        r@ == field_upper(field@),
{
    let mut out: Vec<char> = Vec::new();
    let mut i: usize = 0;
    while i < field.len()
        invariant
            0 <= i <= field@.len(),
            out@ == field_upper(field@).take(i as int),
        decreases field@.len() - i,
    {
        out.push(raise(field[i]));
        i = i + 1;
        assert(out@ =~= field_upper(field@).take(i as int));
    }
    assert(out@ =~= field_upper(field@));
    out
}

fn kebab_chars(field: &Vec<char>) -> (r: Vec<char>)
    ensures
        r@ == field_kebab(field@),
{
    let mut out: Vec<char> = Vec::new();
    let mut i: usize = 0;
    while i < field.len()
        invariant
            0 <= i <= field@.len(),
            out@ == field_kebab(field@).take(i as int),
        decreases field@.len() - i,
    {
        if field[i] == '_' {
            out.push('-');
        } else {
            out.push(field[i]);
        }
        i = i + 1;
        assert(out@ =~= field_kebab(field@).take(i as int));
    }
    assert(out@ =~= field_kebab(field@));
    out
}

fn pascal_chars(field: &Vec<char>) -> (r: Vec<char>)
    ensures
        r@ == field_pascal(field@, true),
{
    let mut out: Vec<char> = Vec::new();
    let mut capitalize = true;
    let mut i: usize = 0;
    assert(field@.skip(0) =~= field@);
    while i < field.len()
        invariant
            0 <= i <= field@.len(),
            out@ + field_pascal(field@.skip(i as int), capitalize) == field_pascal(field@, true),
        decreases field@.len() - i,
    {
        let c = field[i];
        let ghost earlier = out@;
        let ghost rest = field_pascal(field@.skip(i as int), capitalize);
        assert(field@.skip(i as int).skip(1) =~= field@.skip(i + 1));
        if c == '_' {
            capitalize = true;
        } else if capitalize {
            out.push(raise(c));
            capitalize = false;
        } else {
            out.push(c);
        }
        i = i + 1;
        assert(out@ + field_pascal(field@.skip(i as int), capitalize) =~= earlier + rest);
    }
    assert(out@ =~= field_pascal(field@, true));
    out
}

/// The name that serde writes a field under where `rule` holds for all fields.
pub fn apply_rename_all(field: &str, rule: Option<&str>) -> (r: String)
    ensures
        r@ == renamed(
            field@,
            match rule {
                Some(name) => Some(name@),
                None => None,
            },
        ),
{
    let rule = match rule {
        Some(rule) => rule,
        None => return field.to_owned(),
    };
    let chars = text::chars_of(field);
    let named = if text::same_text(rule, "camelCase") {
        let mut pascal = pascal_chars(&chars);
        if pascal.len() > 0 {
            let first = lowered(pascal[0]);
            pascal.set(0, first);
        }
        assert(pascal@ =~= field_camel(field@));
        pascal
    } else if text::same_text(rule, "PascalCase") {
        pascal_chars(&chars)
    } else if text::same_text(rule, "UPPERCASE") || text::same_text(rule, "SCREAMING_SNAKE_CASE") {
        upper_chars(&chars)
    } else if text::same_text(rule, "kebab-case") {
        kebab_chars(&chars)
    } else if text::same_text(rule, "SCREAMING-KEBAB-CASE") {
        kebab_chars(&upper_chars(&chars))
    } else {
        chars
    };
    assert(named@.subrange(0, named@.len() as int) =~= named@);
    text::text_between(named.as_slice(), 0, named.len())
}

// ---- the plan of a data type -----------------------------------------------
/// A field of a data type: its name in JSON, the type that its schema is that of,
/// and whether it may be missing.
#[derive(Debug, Clone)]
pub struct FieldPlan {
    pub json_name: String,
    pub ty: String,
    pub optional: bool,
}

/// What a [`FieldPlan`] says.
#[verifier::ext_equal]
pub struct FieldPlanView {
    pub json_name: Seq<char>,
    pub ty: Seq<char>,
    pub optional: bool,
}

/// What fields say.
pub open spec fn field_plan_views(fields: Seq<FieldPlan>) -> Seq<FieldPlanView> {
    Seq::new(
        fields.len(),
        |i: int|
            FieldPlanView {
                json_name: fields[i].json_name@,
                ty: fields[i].ty@,
                optional: fields[i].optional,
            },
    )
}

/// The plan of a field: a name of its own goes before the rule for all fields, and
/// an `Option` is looked through.
pub open spec fn field_planned(field: FieldDecl, rule: Option<Seq<char>>) -> FieldPlanView {
    FieldPlanView {
        json_name: match serde_value(field.attrs@, "rename"@) {
            Some(name) => name,
            None => renamed(field.ident@, rule),
        },
        ty: match option_some(field.ty) {
            Some(inner) => inner.tokens@,
            None => field.ty.tokens@,
        },
        optional: option_some(field.ty) is Some,
    }
}

/// The plans of the fields of a data type, or what keeps it from being one.
pub open spec fn data_planned(decl: DataDecl) -> Result<Seq<FieldPlanView>, Seq<char>> {
    match decl.body {
        BodyDecl::NoStruct => Err("DataType supports only structs"@),
        BodyDecl::Unnamed => Err("DataType requires named fields"@),
        BodyDecl::Named(fields) => if decl.generic {
            Err("DataType structs cannot be generic"@)
        } else {
            Ok(
                Seq::new(
                    fields@.len(),
                    |i: int| field_planned(fields@[i], serde_value(decl.attrs@, "rename_all"@)),
                ),
            )
        },
    }
}

/// Plans a data type from its declaration.
pub fn derive_data_type(decl: &DataDecl) -> (r: Result<Vec<FieldPlan>, String>)
    ensures
        match data_planned(*decl) {
            Ok(fields) => r matches Ok(given) && field_plan_views(given@) == fields,
            Err(fault) => r matches Err(said) && said@ == fault,
        },
{
    let fields = match &decl.body {
        BodyDecl::NoStruct => return Err("DataType supports only structs".to_owned()),
        BodyDecl::Unnamed => return Err("DataType requires named fields".to_owned()),
        BodyDecl::Named(fields) => fields,
    };
    if decl.generic {
        return Err("DataType structs cannot be generic".to_owned());
    }
    let rename_all = serde_rename_all(&decl.attrs);
    let rule: Option<&str> = match &rename_all {
        Some(rule) => Some(rule.as_str()),
        None => None,
    };
    let ghost wanted = serde_value(decl.attrs@, "rename_all"@);
    let mut out: Vec<FieldPlan> = Vec::new();
    let mut i: usize = 0;
    while i < fields.len()
        invariant
            0 <= i <= fields@.len(),
            wanted == match rule {
                Some(name) => Some(name@),
                None => None,
            },
            out@.len() == i,
            forall|k: int|
                0 <= k < i ==> #[trigger] field_plan_views(out@)[k] == field_planned(
                    fields@[k],
                    wanted,
                ),
        decreases fields@.len() - i,
    {
        let field = &fields[i];
        let json_name = match serde_rename(&field.attrs) {
            Some(name) => name,
            None => apply_rename_all(field.ident.as_str(), rule),
        };
        let (inner, optional) = unwrap_option(&field.ty);
        let ghost earlier = out@;
        out.push(FieldPlan { json_name, ty: inner.tokens.clone(), optional });
        assert forall|k: int| 0 <= k < i + 1 implies #[trigger] field_plan_views(out@)[k]
            == field_planned(fields@[k], wanted) by {
            if k < i {
                assert(field_plan_views(earlier)[k] == field_planned(fields@[k], wanted));
            }
        }
        i = i + 1;
    }
    assert(field_plan_views(out@) =~= data_planned(*decl)->Ok_0);
    Ok(out)
}

// ---- schemas ---------------------------------------------------------------
/// The schema that refers to a named one.
pub open spec fn reference(name: Seq<char>) -> Json {
    Json::Object(seq![("$ref"@, Json::Text("#/components/schemas/"@ + name))])
}

/// The schema that refers to a named one.
pub fn reference_schema(name: &str) -> (r: Value)
    ensures
        r.json() == reference(name@),
{
    let mut members: Vec<Member> = Vec::new();
    members.push(
        Member {
            name: "$ref".to_owned(),
            value: Value::Text(text::pair("#/components/schemas/", name)),
        },
    );
    let r = Value::Object(members);
    reveal_with_fuel(Value::json, 2);
    assert(r.json()->Object_0 =~= reference(name@)->Object_0);
    r
}

/// A field of a data type with its schema.
pub struct Property {
    pub json_name: String,
    pub schema: Value,
    pub optional: bool,
}

/// The properties by name; of two with the same name the later one counts.
pub open spec fn properties(fields: Seq<Property>) -> Seq<(Seq<char>, Json)>
    decreases fields.len(),
{
    if fields.len() == 0 {
        seq![]
    } else {
        inserted(
            properties(fields.drop_last()),
            fields.last().json_name@,
            fields.last().schema.json(),
        )
    }
}

/// The names of the fields that must be there, in the order of the fields.
pub open spec fn required(fields: Seq<Property>) -> Seq<Json>
    decreases fields.len(),
{
    if fields.len() == 0 {
        seq![]
    } else {
        let earlier = required(fields.drop_last());
        if fields.last().optional {
            earlier
        } else {
            earlier.push(Json::Text(fields.last().json_name@))
        }
    }
}

/// The schema of a struct with the given fields.
pub open spec fn object_schema(fields: Seq<Property>) -> Json {
    Json::Object(
        seq![
            ("properties"@, Json::Object(properties(fields))),
            ("required"@, Json::Array(required(fields))),
            ("type"@, Json::Text("object"@)),
        ],
    )
}

fn object_of(map: TextMap<Value>) -> (r: Value)
    ensures
        r.json() == Json::Object(schemas_json(map@)),
{
    let ghost all = map@;
    let mut pairs = map.into_pairs();
    let ghost listed = pairs@;
    let mut members: Vec<Member> = Vec::new();
    let ghost mut done: int = 0;
    assert(listed.skip(0) =~= listed);
    while pairs.len() > 0
        invariant
            0 <= done <= listed.len(),
            listed.len() == all.len(),
            pairs@ == listed.skip(done),
            members@.len() == done,
            forall|k: int|
                0 <= k < listed.len() ==> (#[trigger] listed[k]).0@ == all[k].0 && listed[k].1
                    == all[k].1,
            forall|k: int|
                0 <= k < done ==> (#[trigger] members@[k]).name@ == all[k].0 && members@[k].value
                    == all[k].1,
        decreases pairs@.len(),
    {
        let (name, value) = pairs.remove(0);
        assert(listed[done] == (name, value));
        members.push(Member { name, value });
        proof {
            assert(pairs@ =~= listed.skip(done + 1));
            done = done + 1;
        }
    }
    let r = Value::Object(members);
    assert(r.json()->Object_0 =~= schemas_json(all));
    r
}

/// The schema of a struct with the given fields.
pub fn build_schema(fields: Vec<Property>) -> (r: Value)
    ensures
        r.json() == object_schema(fields@),
{
    let ghost all = fields@;
    let mut left = fields;
    let mut props: TextMap<Value> = TextMap::new();
    let mut names: Vec<Value> = Vec::new();
    let ghost mut done: int = 0;
    assert(listed_json(names@) =~= seq![]);
    assert(schemas_json(props@) =~= seq![]);
    assert(all.take(0) =~= Seq::<Property>::empty());
    assert(all.skip(0) =~= all);
    while left.len() > 0
        invariant
            0 <= done <= all.len(),
            left@ == all.skip(done),
            schemas_json(props@) == properties(all.take(done)),
            listed_json(names@) == required(all.take(done)),
        decreases left@.len(),
    {
        let property = left.remove(0);
        proof {
            assert(all.take(done + 1).drop_last() =~= all.take(done));
            assert(all.take(done + 1).last() == property);
            inserted_through(
                props@,
                property.json_name@,
                property.schema,
                |value: Value| value.json(),
            );
        }
        let Property { json_name, schema, optional } = property;
        if !optional {
            let ghost earlier = names@;
            names.push(Value::Text(json_name.clone()));
            assert(listed_json(names@) =~= listed_json(earlier).push(Json::Text(json_name@)));
        }
        props.insert(json_name, schema);
        proof {
            assert(left@ =~= all.skip(done + 1));
            done = done + 1;
        }
    }
    assert(all.take(done) =~= all);
    let mut members: Vec<Member> = Vec::new();
    members.push(Member { name: "properties".to_owned(), value: object_of(props) });
    members.push(Member { name: "required".to_owned(), value: Value::Array(names) });
    members.push(Member { name: "type".to_owned(), value: Value::Text("object".to_owned()) });
    let r = Value::Object(members);
    proof {
        reveal_with_fuel(Value::json, 2);
        assert(Value::Array(names).json()->Array_0 =~= listed_json(names@));
        assert(r.json()->Object_0 =~= object_schema(all)->Object_0);
    }
    r
}

/// What values say.
spec fn listed_json(values: Seq<Value>) -> Seq<Json> {
    Seq::new(values.len(), |i: int| values[i].json())
}

/// The named schemas after a data type has been registered: one that is already
/// there stays.
pub open spec fn data_registered(
    known: Seq<(Seq<char>, Json)>,
    name: Seq<char>,
    fields: Seq<Property>,
) -> Seq<(Seq<char>, Json)> {
    if found(known, name) is Some {
        known
    } else {
        inserted(known, name, object_schema(fields))
    }
}

/// Registers the schema of a data type, unless one of that name is there. Says
/// whether it was registered; the types of its fields then have to be, too.
pub fn register_data_type(out: &mut TextMap<Value>, name: &str, fields: Vec<Property>) -> (r: bool)
    ensures
        r == found(schemas_json(old(out)@), name@) is None,
        schemas_json(final(out)@) == data_registered(schemas_json(old(out)@), name@, fields@),
{
    proof {
        lemma_found_through(out@, name@);
    }
    if out.contains_key(name) {
        return false;
    }
    let schema = build_schema(fields);
    proof {
        inserted_through(out@, name@, schema, |value: Value| value.json());
    }
    out.insert(name.to_owned(), schema);
    true
}

pub(crate) proof fn lemma_found_through(entries: Seq<(Seq<char>, Value)>, key: Seq<char>)
    ensures
        found(schemas_json(entries), key) is Some == found(entries, key) is Some,
    decreases entries.len(),
{
    if entries.len() > 0 {
        assert(schemas_json(entries).skip(1) =~= schemas_json(entries.skip(1)));
        lemma_found_through(entries.skip(1), key);
    }
}

// ---- values ----------------------------------------------------------------
/// The value of a data type that an argument stands for, given what parsing it as
/// JSON gave or what was wrong with it.
pub fn read_data<T>(name: &str, parsed: Result<T, String>) -> (r: Result<T, String>)
    ensures
        match parsed {
            Ok(value) => r == Ok::<T, String>(value),
            Err(fault) => r matches Err(said) && said@ == "invalid JSON for "@ + name@ + ": "@
                + fault@,
        },
{
    match parsed {
        Ok(value) => Ok(value),
        Err(fault) => {
            let mut said = text::triple("invalid JSON for ", name, ": ");
            said.append(fault.as_str());
            Err(said)
        },
    }
}

/// The bytes that a value of a data type is returned as, given what writing it as
/// JSON gave or what went wrong.
pub fn write_data(name: &str, written: Result<Vec<u8>, String>) -> (r: Result<Vec<u8>, String>)
    ensures
        match written {
            Ok(bytes) => r == Ok::<Vec<u8>, String>(bytes),
            Err(fault) => r matches Err(said) && said@ == "failed to serialize "@ + name@ + ": "@
                + fault@,
        },
{
    match written {
        Ok(bytes) => Ok(bytes),
        Err(fault) => {
            let mut said = text::triple("failed to serialize ", name, ": ");
            said.append(fault.as_str());
            Err(said)
        },
    }
}

// ---- laws ------------------------------------------------------------------
/// The fields that must be there are exactly those that are not optional.
pub proof fn required_are_the_fields_not_optional(fields: Seq<Property>, name: Seq<char>)
    ensures
        required(fields).contains(Json::Text(name)) <==> exists|i: int|
            0 <= i < fields.len() && !(#[trigger] fields[i]).optional && fields[i].json_name@
                == name,
    decreases fields.len(),
{
    if fields.len() > 0 {
        let shorter = fields.drop_last();
        let n = fields.len() - 1;
        required_are_the_fields_not_optional(shorter, name);
        let earlier = required(shorter);
        let all = required(fields);
        if all.contains(Json::Text(name)) {
            let k = choose|k: int| 0 <= k < all.len() && all[k] == Json::Text(name);
            if k < earlier.len() {
                assert(earlier[k] == Json::Text(name));
                let i = choose|i: int|
                    0 <= i < shorter.len() && !(#[trigger] shorter[i]).optional
                        && shorter[i].json_name@ == name;
                assert(!fields[i].optional && fields[i].json_name@ == name);
            } else {
                assert(!fields[n].optional && fields[n].json_name@ == name);
            }
        }
        if exists|i: int|
            0 <= i < fields.len() && !(#[trigger] fields[i]).optional && fields[i].json_name@
                == name {
            let i = choose|i: int|
                0 <= i < fields.len() && !(#[trigger] fields[i]).optional && fields[i].json_name@
                    == name;
            if i < n {
                assert(!shorter[i].optional && shorter[i].json_name@ == name);
                let k = choose|k: int| 0 <= k < earlier.len() && earlier[k] == Json::Text(name);
                assert(all[k] == Json::Text(name));
            } else {
                assert(all[all.len() - 1] == Json::Text(name));
            }
        }
    }
}

/// Every field has a property of its name, and there are no others.
pub proof fn properties_are_the_fields(fields: Seq<Property>, name: Seq<char>)
    ensures
        found(properties(fields), name) is Some <==> exists|i: int|
            0 <= i < fields.len() && (#[trigger] fields[i]).json_name@ == name,
    decreases fields.len(),
{
    if fields.len() > 0 {
        let shorter = fields.drop_last();
        let last = fields.last();
        properties_are_the_fields(shorter, name);
        crate::text_map::found_after_insert(
            properties(shorter),
            last.json_name@,
            last.schema.json(),
            name,
        );
        if last.json_name@ == name {
            assert(fields[fields.len() - 1].json_name@ == name);
        } else {
            assert forall|i: int| 0 <= i < shorter.len() implies shorter[i] == fields[i] by {}
            if exists|i: int| 0 <= i < fields.len() && (#[trigger] fields[i]).json_name@ == name {
                let i = choose|i: int|
                    0 <= i < fields.len() && (#[trigger] fields[i]).json_name@ == name;
                assert(shorter[i].json_name@ == name);
            }
            if exists|i: int| 0 <= i < shorter.len() && (#[trigger] shorter[i]).json_name@ == name {
                let i = choose|i: int|
                    0 <= i < shorter.len() && (#[trigger] shorter[i]).json_name@ == name;
                assert(fields[i].json_name@ == name);
            }
        }
    }
}

/// Registering a data type again changes nothing.
pub proof fn registering_twice_is_registering_once(
    known: Seq<(Seq<char>, Json)>,
    name: Seq<char>,
    fields: Seq<Property>,
    others: Seq<Property>,
)
    ensures
        data_registered(data_registered(known, name, fields), name, others) == data_registered(
            known,
            name,
            fields,
        ),
{
    crate::text_map::found_after_insert(known, name, object_schema(fields), name);
}

} // verus!
