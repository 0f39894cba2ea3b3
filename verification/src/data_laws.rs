//! How data types are named, described and registered, and what metadata say.

use vstd::prelude::*;

use crate::data_table::{described, reached, referred, registered, table_view, text_views};
use crate::data_table::{declare_data_type, leads, register_data_types, DataType, DataTypeView};
use crate::data_type::{ascii_lowered, ascii_raised, data_planned, data_registered, field_camel};
use crate::data_type::{field_kebab, field_pascal, field_plan_views, field_planned, field_upper};
use crate::data_type::{apply_rename_all, build_schema, derive_data_type, read_data};
use crate::data_type::{reference_schema, serde_rename, serde_rename_all, serde_string_value};
use crate::data_type::{register_data_type, write_data};
use crate::data_type::{item_text, item_value, object_schema, properties, reference, renamed};
use crate::data_type::{required, serde_value, BodyDecl, DataDecl, FieldDecl, FieldPlan};
use crate::data_type::{ItemAttr, ItemValue, Property, SerdeItem};
use crate::declaration::{is_ident, option_some};
use crate::json::{Json, Member, Value};
use crate::metadata::{optional_json, schemas_json, Components, Contract, Info, Metadata};
use crate::metadata::{mapped, Parameter, Transaction, CONTRACT_SCHEMA_URL, METADATA_FUNCTION};
use crate::text_map::{before, before_is_irreflexive, before_is_transitive, found};
use crate::text_map::{found_after_insert, inserted, ordered, standing, Standing, TextMap};

verus! {

// ---- names of fields -------------------------------------------------------
/// The name of a field in JSON does not depend on its type: of two fields with the same
/// identifier and the same attributes both have the same name under the same rule.
pub proof fn names_do_not_depend_on_types(a: FieldDecl, b: FieldDecl, rule: Option<Seq<char>>)
    requires
        a.ident@ == b.ident@,
        a.attrs@ == b.attrs@,
    ensures
        field_planned(a, rule).json_name == field_planned(b, rule).json_name,
{
}

/// A field has the name that its own attribute gives, and without one the name that the
/// rule for all fields makes of its identifier, whatever its type is.
pub proof fn fields_have_their_own_name_or_that_of_the_rule(
    field: FieldDecl,
    rule: Option<Seq<char>>,
)
    ensures
        serde_value(field.attrs@, "rename"@) matches Some(name) ==> field_planned(
            field,
            rule,
        ).json_name == name,
        serde_value(field.attrs@, "rename"@) is None ==> field_planned(field, rule).json_name
            == renamed(field.ident@, rule),
{
}

/// The schema of a field is that of its type, or of what is in the option that its type
/// is; a field is optional in the second case and only there. Its name and the rule have
/// no part in it.
pub proof fn optional_fields_are_options(field: FieldDecl, rule: Option<Seq<char>>)
    ensures
        field_planned(field, rule).optional <==> option_some(field.ty) is Some,
        option_some(field.ty) matches Some(inner) ==> field_planned(field, rule).ty
            == inner.tokens@,
        option_some(field.ty) is None ==> field_planned(field, rule).ty == field.ty.tokens@,
{
}

/// The rules by their names. A rule that is not known changes nothing, nor do those for
/// names that are in snake_case already.
pub proof fn rules_are_known_by_name(field: Seq<char>, other: Seq<char>)
    ensures
        renamed(field, None) == field,
        renamed(field, Some("lowercase"@)) == field,
        renamed(field, Some("snake_case"@)) == field,
        renamed(field, Some("UPPERCASE"@)) == field_upper(field),
        renamed(field, Some("SCREAMING_SNAKE_CASE"@)) == field_upper(field),
        renamed(field, Some("PascalCase"@)) == field_pascal(field, true),
        renamed(field, Some("camelCase"@)) == field_camel(field),
        renamed(field, Some("kebab-case"@)) == field_kebab(field),
        renamed(field, Some("SCREAMING-KEBAB-CASE"@)) == field_kebab(field_upper(field)),
        other != "UPPERCASE"@ && other != "SCREAMING_SNAKE_CASE"@ && other != "PascalCase"@ && other
            != "camelCase"@ && other != "kebab-case"@ && other != "SCREAMING-KEBAB-CASE"@
            ==> renamed(field, Some(other)) == field,
{
    reveal_strlit("lowercase");
    reveal_strlit("snake_case");
    reveal_strlit("UPPERCASE");
    reveal_strlit("SCREAMING_SNAKE_CASE");
    reveal_strlit("PascalCase");
    reveal_strlit("camelCase");
    reveal_strlit("kebab-case");
    reveal_strlit("SCREAMING-KEBAB-CASE");
    assert("lowercase"@[0] == 'l');
    assert("snake_case"@[0] == 's');
    assert("UPPERCASE"@[0] == 'U');
    assert("SCREAMING_SNAKE_CASE"@[9] == '_');
    assert("SCREAMING_SNAKE_CASE"@[0] == 'S');
    assert("PascalCase"@[0] == 'P');
    assert("camelCase"@[0] == 'c');
    assert("kebab-case"@[0] == 'k');
    assert("SCREAMING-KEBAB-CASE"@[9] == '-');
    assert("SCREAMING-KEBAB-CASE"@[0] == 'S');
}

/// A letter of ASCII changes its case, and no other character changes.
pub proof fn letters_change_their_case(c: char)
    ensures
        'a' <= c <= 'z' ==> ascii_raised(c) as int == c as int - 'a' as int + 'A' as int,
        !('a' <= c <= 'z') ==> ascii_raised(c) == c,
        'A' <= c <= 'Z' ==> ascii_lowered(c) as int == c as int - 'A' as int + 'a' as int,
        !('A' <= c <= 'Z') ==> ascii_lowered(c) == c,
{
}

/// Upper case and dashes change a name character by character.
pub proof fn names_change_character_by_character(field: Seq<char>, i: int)
    ensures
        field_upper(field).len() == field.len(),
        0 <= i < field.len() ==> field_upper(field)[i] == ascii_raised(field[i]),
        field_kebab(field).len() == field.len(),
        0 <= i < field.len() && field[i] == '_' ==> field_kebab(field)[i] == '-',
        0 <= i < field.len() && field[i] != '_' ==> field_kebab(field)[i] == field[i],
{
}

/// In PascalCase the words between underscores are put together, each with its first
/// letter raised; in camelCase the first letter of all is lowered.
pub proof fn words_are_put_together(word: Seq<char>, rest: Seq<char>, capitalize: bool)
    requires
        !word.contains('_'),
    ensures
        field_pascal(word + seq!['_'] + rest, capitalize) == field_pascal(word, capitalize)
            + field_pascal(rest, true),
        word.len() == 0 ==> field_pascal(word, capitalize).len() == 0,
        word.len() > 0 ==> field_pascal(word, true) == seq![ascii_raised(word[0])] + word.skip(1),
        field_pascal(word, false) == word,
        ({
            let pascal = field_pascal(rest, true);
            &&& pascal.len() == 0 ==> field_camel(rest).len() == 0
            &&& pascal.len() > 0 ==> field_camel(rest) == seq![ascii_lowered(pascal[0])]
                + pascal.skip(1)
        }),
    decreases word.len(),
{
    let all = word + seq!['_'] + rest;
    if word.len() == 0 {
        assert(all.skip(1) =~= rest);
        assert(field_pascal(word, capitalize) + field_pascal(rest, true) =~= field_pascal(
            rest,
            true,
        ));
        assert(field_pascal(word, false) =~= word);
    } else {
        let later = word.skip(1);
        assert(word.contains(word[0]));
        assert forall|i: int| 0 <= i < later.len() implies later[i] != '_' by {
            assert(word.contains(word[i + 1]));
        }
        words_are_put_together(later, rest, false);
        assert(all.skip(1) =~= later + seq!['_'] + rest);
        assert(field_pascal(all, capitalize) =~= field_pascal(word, capitalize) + field_pascal(
            rest,
            true,
        ));
        assert(field_pascal(word, true) =~= seq![ascii_raised(word[0])] + later);
        assert(field_pascal(word, false) =~= word);
    }
}

// ---- attributes ------------------------------------------------------------
/// The last item with the key and a text gives its value; items with another key, and
/// those without a text, are passed over.
pub proof fn the_last_item_gives_the_value(items: Seq<SerdeItem>, item: SerdeItem, key: Seq<char>)
    ensures
        item_value(seq![], key) is None,
        item.key matches Some(word) ==> word@ == key ==> item_text(item.value) is Some
            ==> item_value(items.push(item), key) == item_text(item.value),
        item.key matches Some(word) ==> word@ != key ==> item_value(items.push(item), key)
            == item_value(items, key),
        item.key is None || item_text(item.value) is None ==> item_value(items.push(item), key)
            == item_value(items, key),
{
    assert(items.push(item).drop_last() =~= items);
}

/// A string literal is the text of its item, and so is what a list gives for writing;
/// nothing else is a text.
pub proof fn items_have_the_text_that_is_written(value: String)
    ensures
        item_text(ItemValue::Text(value)) == Some(value@),
        item_text(ItemValue::List { serialize: Some(value) }) == Some(value@),
        item_text(ItemValue::List { serialize: None }) is None,
        item_text(ItemValue::Absent) is None,
        item_text(ItemValue::Expr) is None,
{
}

/// The first `serde` attribute that gives the key a value counts; other attributes do
/// not.
pub proof fn the_first_attribute_that_gives_a_value_counts(
    attr: ItemAttr,
    attrs: Seq<ItemAttr>,
    key: Seq<char>,
)
    ensures
        serde_value(seq![], key) is None,
        ({
            let all = seq![attr] + attrs;
            let given = item_value(attr.items@, key);
            if is_ident(attr.ident, "serde"@) && given is Some {
                serde_value(all, key) == given
            } else {
                serde_value(all, key) == serde_value(attrs, key)
            }
        }),
{
    assert((seq![attr] + attrs).skip(1) =~= attrs);
}

// ---- plans -----------------------------------------------------------------
/// A struct with named fields and no generics is a data type with one field for each, in
/// their order, under the rule of its attributes. Anything else is told.
pub proof fn data_types_have_the_fields_of_their_struct(decl: DataDecl, i: int)
    ensures
        decl.body is NoStruct ==> (data_planned(decl) matches Err(said) && said
            == "DataType supports only structs"@),
        decl.body is Unnamed ==> (data_planned(decl) matches Err(said) && said
            == "DataType requires named fields"@),
        decl.body is Named && decl.generic ==> (data_planned(decl) matches Err(said) && said
            == "DataType structs cannot be generic"@),
        decl.body matches BodyDecl::Named(fields) ==> !decl.generic ==> (data_planned(
            decl,
        ) matches Ok(plan) && plan.len() == fields@.len() && (0 <= i < fields@.len() ==> plan[i]
            == field_planned(fields@[i], serde_value(decl.attrs@, "rename_all"@)))),
{
}

/// Plans of fields are seen as they are, in their order.
pub proof fn field_plans_are_seen_as_they_are(fields: Seq<FieldPlan>, i: int)
    ensures
        field_plan_views(fields).len() == fields.len(),
        0 <= i < fields.len() ==> field_plan_views(fields)[i].json_name == fields[i].json_name@
            && field_plan_views(fields)[i].ty == fields[i].ty@
                && field_plan_views(fields)[i].optional
            == fields[i].optional,
{
}

// ---- schemas ---------------------------------------------------------------
/// A reference names a schema among the components.
pub proof fn references_name_a_component(name: Seq<char>)
    ensures
        reference(name) == Json::Object(
            seq![("$ref"@, Json::Text("#/components/schemas/"@ + name))],
        ),
{
}

/// The schema of a data type is that of an object with its properties and those of them
/// that must be there.
pub proof fn data_types_are_objects(fields: Seq<Property>)
    ensures
        object_schema(fields) matches Json::Object(members) && members.len() == 3 && members[0]
            == ("properties"@, Json::Object(properties(fields))) && members[1] == (
            "required"@,
            Json::Array(required(fields)),
        ) && members[2] == ("type"@, Json::Text("object"@)),
{
}

/// Each field is a property under its name, with its schema; the later of two counts.
pub proof fn fields_are_properties(fields: Seq<Property>, field: Property, other: Seq<char>)
    ensures
        properties(seq![]).len() == 0,
        found(properties(fields.push(field)), field.json_name@) == Some(field.schema.json()),
        other != field.json_name@ ==> found(properties(fields.push(field)), other) == found(
            properties(fields),
            other,
        ),
{
    assert(fields.push(field).drop_last() =~= fields);
    found_after_insert(properties(fields), field.json_name@, field.schema.json(), other);
}

/// The names of the fields that must be there stand in the order of the fields.
pub proof fn required_fields_keep_their_order(fields: Seq<Property>, field: Property)
    ensures
        required(seq![]).len() == 0,
        field.optional ==> required(fields.push(field)) == required(fields),
        !field.optional ==> required(fields.push(field)) == required(fields).push(
            Json::Text(field.json_name@),
        ),
{
    assert(fields.push(field).drop_last() =~= fields);
}

/// A data type is registered under its name where there is none, and changes nothing
/// where there is one; other names are not touched.
pub proof fn data_types_are_registered_under_their_name(
    known: Seq<(Seq<char>, Json)>,
    name: Seq<char>,
    fields: Seq<Property>,
    other: Seq<char>,
)
    ensures
        found(known, name) is Some ==> data_registered(known, name, fields) == known,
        found(known, name) is None ==> found(data_registered(known, name, fields), name) == Some(
            object_schema(fields),
        ),
        other != name ==> found(data_registered(known, name, fields), other) == found(known, other),
        ordered(known) ==> ordered(data_registered(known, name, fields)),
{
    found_after_insert(known, name, object_schema(fields), other);
    if ordered(known) {
        inserting_keeps_the_order(known, name, object_schema(fields));
    }
}

// ---- data types that refer to each other -----------------------------------
/// What is asked for by name is reached, and so is what a reached data type refers to,
/// as far as the table describes it and it is not known; nothing else is.
pub proof fn data_types_are_reached_by_reference(
    known: Seq<(Seq<char>, Json)>,
    table: Seq<DataTypeView>,
    names: Seq<Seq<char>>,
    from: Seq<char>,
    name: Seq<char>,
)
    ensures
        reached(known, table, names, name) ==> described(table, name) is Some && found(
            known,
            name,
        ) is None && (names.contains(name) || exists|earlier: Seq<char>| #[trigger]
            reached(known, table, names, earlier) && referred(table, earlier).contains(name)),
        names.contains(name) && described(table, name) is Some && found(known, name) is None
            ==> reached(known, table, names, name),
        reached(known, table, names, from) && referred(table, from).contains(name) && described(
            table,
            name,
        ) is Some && found(known, name) is None ==> reached(known, table, names, name),
{
    if reached(known, table, names, name) {
        let path = choose|path: Seq<Seq<char>>| #[trigger]
            leads(known, table, names, path) && path.last() == name;
        assert(path[path.len() - 1] == name);
        if path.len() > 1 {
            let shorter = path.drop_last();
            assert forall|i: int| 0 <= i < shorter.len() implies described(
                table,
                #[trigger] shorter[i],
            ) is Some && found(known, shorter[i]) is None by {
                assert(path[i] == shorter[i]);
            }
            assert forall|i: int| 0 < i < shorter.len() implies referred(
                table,
                shorter[i - 1],
            ).contains(#[trigger] shorter[i]) by {
                assert(path[i] == shorter[i]);
            }
            assert(leads(known, table, names, shorter));
            assert(reached(known, table, names, shorter.last()));
            assert(referred(table, path[path.len() - 2]).contains(path[path.len() - 1]));
        }
    }
    if names.contains(name) && described(table, name) is Some && found(known, name) is None {
        let path = seq![name];
        assert(leads(known, table, names, path));
        assert(path.last() == name);
    }
    if reached(known, table, names, from) && referred(table, from).contains(name) && described(
        table,
        name,
    ) is Some && found(known, name) is None {
        let path = choose|path: Seq<Seq<char>>| #[trigger]
            leads(known, table, names, path) && path.last() == from;
        let longer = path.push(name);
        assert forall|i: int| 0 < i < longer.len() implies referred(
            table,
            longer[i - 1],
        ).contains(#[trigger] longer[i]) by {
            if i < path.len() {
                assert(referred(table, path[i - 1]).contains(path[i]));
            }
        }
        assert(leads(known, table, names, longer));
        assert(longer.last() == name);
    }
}

/// What is reached is registered with the schema that the table has for it; what is
/// known keeps its own; nothing else is registered.
pub proof fn data_types_are_registered_where_reached(
    known: Seq<(Seq<char>, Json)>,
    table: Seq<DataTypeView>,
    names: Seq<Seq<char>>,
    name: Seq<char>,
)
    ensures
        found(known, name) matches Some(schema) ==> registered(known, table, names, name) == Some(
            schema,
        ),
        found(known, name) is None && reached(known, table, names, name) ==> (described(
            table,
            name,
        ) matches Some(data) && registered(known, table, names, name) == Some(data.schema)),
        found(known, name) is None && !reached(known, table, names, name) ==> registered(
            known,
            table,
            names,
            name,
        ) is None,
{
    data_types_are_reached_by_reference(known, table, names, name, name);
}

/// The first data type of a name is the one that the name stands for.
pub proof fn the_first_data_type_of_a_name_counts(
    data: DataTypeView,
    table: Seq<DataTypeView>,
    name: Seq<char>,
)
    ensures
        described(seq![], name) is None,
        data.name == name ==> described(seq![data] + table, name) == Some(data),
        data.name != name ==> described(seq![data] + table, name) == described(table, name),
        described(table, name) matches Some(d) ==> referred(table, name) == d.refers,
        described(table, name) is None ==> referred(table, name).len() == 0,
{
    assert((seq![data] + table).skip(1) =~= table);
}

/// Data types are seen as they are, in their order.
pub proof fn data_types_are_seen_as_they_are(
    data: DataType,
    table: Seq<DataType>,
    texts: Seq<String>,
    i: int,
)
    ensures
        data@.name == data.name@,
        data@.schema == data.schema.json(),
        data@.refers == text_views(data.refers@),
        table_view(table).len() == table.len(),
        0 <= i < table.len() ==> table_view(table)[i] == table[i]@,
        text_views(texts).len() == texts.len(),
        0 <= i < texts.len() ==> text_views(texts)[i] == texts[i]@,
{
}

// ---- maps ------------------------------------------------------------------
/// A text stands before another where it ends first or has the lesser character at the
/// first place at which they differ.
pub proof fn texts_stand_by_their_first_difference(
    front: Seq<char>,
    a: char,
    b: char,
    x: Seq<char>,
    y: Seq<char>,
)
    requires
        (a as int) < (b as int),
    ensures
        before(front + seq![a] + x, front + seq![b] + y),
        !before(front + seq![b] + y, front + seq![a] + x),
        before(front, front + seq![a] + x),
        !before(front + seq![a] + x, front),
        !before(front, front),
    decreases front.len(),
{
    let left = front + seq![a] + x;
    let right = front + seq![b] + y;
    if front.len() == 0 {
        assert(left[0] == a && right[0] == b);
    } else {
        texts_stand_by_their_first_difference(front.skip(1), a, b, x, y);
        assert(left.skip(1) =~= front.skip(1) + seq![a] + x);
        assert(right.skip(1) =~= front.skip(1) + seq![b] + y);
    }
}

/// What is put under a key keeps the keys in order, each once.
pub proof fn inserting_keeps_the_order<V>(entries: Seq<(Seq<char>, V)>, key: Seq<char>, value: V)
    requires
        ordered(entries),
    ensures
        ordered(inserted(entries, key, value)),
        forall|i: int|
            0 <= i < inserted(entries, key, value).len() ==> (#[trigger] inserted(
                entries,
                key,
                value,
            )[i]) == (key, value) || entries.contains(inserted(entries, key, value)[i]),
    decreases entries.len(),
{
    let after = inserted(entries, key, value);
    if entries.len() == 0 {
        assert(after =~= seq![(key, value)]);
    } else if before(key, entries[0].0) {
        assert forall|i: int, j: int| 0 <= i < j < after.len() implies before(
            (#[trigger] after[i]).0,
            (#[trigger] after[j]).0,
        ) by {
            assert(after[j] == entries[j - 1]);
            if i == 0 {
                if j > 1 {
                    assert(before(entries[0].0, entries[j - 1].0));
                    crate::text_map::before_is_transitive(key, entries[0].0, entries[j - 1].0);
                }
            } else {
                assert(after[i] == entries[i - 1]);
            }
        }
        assert forall|i: int| 0 <= i < after.len() implies (#[trigger] after[i]) == (key, value)
            || entries.contains(after[i]) by {
            if i > 0 {
                assert(after[i] == entries[i - 1]);
            }
        }
    } else if entries[0].0 == key {
        assert forall|i: int, j: int| 0 <= i < j < after.len() implies before(
            (#[trigger] after[i]).0,
            (#[trigger] after[j]).0,
        ) by {
            assert(after[j] == entries[j]);
            assert(after[i].0 == entries[i].0);
        }
        assert forall|i: int| 0 <= i < after.len() implies (#[trigger] after[i]) == (key, value)
            || entries.contains(after[i]) by {
            if i > 0 {
                assert(after[i] == entries[i]);
            }
        }
    } else {
        let rest = entries.skip(1);
        assert forall|i: int, j: int| 0 <= i < j < rest.len() implies before(
            (#[trigger] rest[i]).0,
            (#[trigger] rest[j]).0,
        ) by {
            assert(rest[i] == entries[i + 1] && rest[j] == entries[j + 1]);
        }
        inserting_keeps_the_order(rest, key, value);
        let later = inserted(rest, key, value);
        crate::text_map::before_is_total(key, entries[0].0);
        assert forall|i: int, j: int| 0 <= i < j < after.len() implies before(
            (#[trigger] after[i]).0,
            (#[trigger] after[j]).0,
        ) by {
            assert(after[j] == later[j - 1]);
            if i == 0 {
                if later[j - 1] != (key, value) {
                    let k = choose|k: int| 0 <= k < rest.len() && rest[k] == later[j - 1];
                    assert(rest[k] == entries[k + 1]);
                }
            } else {
                assert(after[i] == later[i - 1]);
            }
        }
        assert forall|i: int| 0 <= i < after.len() implies (#[trigger] after[i]) == (key, value)
            || entries.contains(after[i]) by {
            if i == 0 {
                assert(after[0] == entries[0]);
            } else {
                assert(after[i] == later[i - 1]);
                if later[i - 1] != (key, value) {
                    let k = choose|k: int| 0 <= k < rest.len() && rest[k] == later[i - 1];
                    assert(entries[k + 1] == after[i]);
                }
            }
        }
    }
}

/// The first entry of a key is the one that is found.
pub proof fn the_first_entry_of_a_key_is_found<V>(
    entry: (Seq<char>, V),
    entries: Seq<(Seq<char>, V)>,
    key: Seq<char>,
)
    ensures
        found(Seq::<(Seq<char>, V)>::empty(), key) is None,
        entry.0 == key ==> found(seq![entry] + entries, key) == Some(entry.1),
        entry.0 != key ==> found(seq![entry] + entries, key) == found(entries, key),
{
    assert((seq![entry] + entries).skip(1) =~= entries);
}

// ---- metadata --------------------------------------------------------------
/// A value says what it holds: items and members in their order.
pub proof fn values_say_what_they_hold(
    text: String,
    flag: bool,
    items: Vec<Value>,
    members: Vec<Member>,
    i: int,
)
    ensures
        Value::Null.json() == Json::Null,
        Value::Bool(flag).json() == Json::Bool(flag),
        Value::Number(text).json() == Json::Number(text@),
        Value::Text(text).json() == Json::Text(text@),
        Value::Array(items).json() matches Json::Array(said) && said.len() == items@.len() && (0
            <= i < items@.len() ==> said[i] == items@[i].json()),
        Value::Object(members).json() matches Json::Object(said) && said.len() == members@.len()
            && (0 <= i < members@.len() ==> said[i] == (
            members@[i].name@,
            members@[i].value.json(),
        )),
{
    reveal_with_fuel(Value::json, 2);
}

/// Documents, contracts, transactions and parameters say what their fields hold.
pub proof fn metadata_say_what_they_hold(
    document: Metadata,
    contract: Contract,
    tx: Transaction,
    parameter: Parameter,
    info: Info,
    i: int,
)
    ensures
        document@.schema == document.schema@,
        document@.info == document.info@,
        document@.contracts.len() == document.contracts@.len(),
        0 <= i < document.contracts@.len() ==> document@.contracts[i] == (
            document.contracts@[i].0,
            document.contracts@[i].1@,
        ),
        document@.schemas == schemas_json(document.components.schemas@),
        contract@.name == contract.name@,
        contract@.info == contract.info@,
        contract@.transactions.len() == contract.transactions@.len(),
        0 <= i < contract.transactions@.len() ==> contract@.transactions[i]
            == contract.transactions@[i]@,
        contract@.default == contract.default,
        tx@.name == tx.name@,
        tx@.tag == tx.tag.deep_view(),
        tx@.parameters.len() == tx.parameters@.len(),
        0 <= i < tx.parameters@.len() ==> tx@.parameters[i] == tx.parameters@[i]@,
        tx.returns matches Some(schema) ==> tx@.returns == Some(schema.json()),
        tx.returns is None ==> tx@.returns is None,
        parameter@.name == parameter.name@,
        parameter@.schema == parameter.schema.json(),
        parameter.description matches Some(said) ==> parameter@.description == Some(said@),
        parameter.description is None ==> parameter@.description is None,
        info@.title == info.title@,
        info@.version == info.version@,
        info.description matches Some(said) ==> info@.description == Some(said@),
        info.description is None ==> info@.description is None,
{
}

/// The address of the schema that metadata follow, and the function that gives them.
pub proof fn metadata_name_their_schema()
    ensures
        METADATA_FUNCTION@ == "org.hyperledger.fabric:GetMetadata"@,
        CONTRACT_SCHEMA_URL@
            == "https://hyperledger.github.io/fabric-chaincode-node/main/api/contract-schema.json"@,
{
}

/// A value that may be missing says what it holds; entries are seen one by one.
pub proof fn entries_are_seen_one_by_one<V, W>(
    value: Value,
    entries: Seq<(Seq<char>, V)>,
    f: spec_fn(V) -> W,
    i: int,
)
    ensures
        optional_json(Some(value)) == Some(value.json()),
        optional_json(None) is None,
        mapped(entries, f).len() == entries.len(),
        0 <= i < entries.len() ==> mapped(entries, f)[i] == (entries[i].0, f(entries[i].1)),
{
}

/// Named schemas say what they hold, in their order.
pub proof fn named_schemas_say_what_they_hold(entries: Seq<(Seq<char>, Value)>, i: int)
    ensures
        schemas_json(entries).len() == entries.len(),
        0 <= i < entries.len() ==> schemas_json(entries)[i] == (
            entries[i].0,
            entries[i].1.json(),
        ),
{
}

// ---- operations ------------------------------------------------------------
/// A field of a data type has the name that its own attribute gives, and without one the
/// name that the rule of its struct makes of its identifier, whatever its type is; its
/// type is that in the option where it is one.
pub proof fn data_types_name_their_fields_by_rule(
    decl: DataDecl,
    fields: Vec<FieldDecl>,
    planned: Result<Vec<FieldPlan>, String>,
    at: int,
    rule: Option<String>,
    word: &str,
    own: Option<String>,
    ident: &str,
    by_rule: String,
)
    requires
        call_ensures(derive_data_type, (&decl,), planned),
        ident@ == fields@[at].ident@,
        decl.body == BodyDecl::Named(fields),
        !decl.generic,
        0 <= at < fields@.len(),
        call_ensures(serde_rename_all, (&decl.attrs,), rule),
        rule matches Some(said) ==> word@ == said@,
        call_ensures(serde_rename, (&fields@[at].attrs,), own),
        call_ensures(
            apply_rename_all,
            (
                ident,
                if rule is Some {
                    Some(word)
                } else {
                    None
                },
            ),
            by_rule,
        ),
    ensures
        planned matches Ok(plan) && plan@.len() == fields@.len() && plan@[at].json_name@ == (
        if own is Some {
            own->0@
        } else {
            by_rule@
        }) && plan@[at].optional == (option_some(fields@[at].ty) is Some) && plan@[at].ty@ == (
        if option_some(fields@[at].ty) is Some {
            option_some(fields@[at].ty)->0.tokens@
        } else {
            fields@[at].ty.tokens@
        }),
{
    let plan = planned->Ok_0;
    assert(field_plan_views(plan@).len() == plan@.len());
    assert(field_plan_views(plan@)[at].json_name == plan@[at].json_name@);
}

/// A field under a rule: the same as the rule makes of its characters.
pub proof fn fields_are_renamed_by_the_rule(
    field: &str,
    rule: &str,
    given: String,
    plain: String,
)
    requires
        call_ensures(apply_rename_all, (field, Some(rule)), given),
        call_ensures(apply_rename_all, (field, None), plain),
    ensures
        plain@ == field@,
        given@ == renamed(field@, Some(rule@)),
        rule@ == "camelCase"@ ==> given@ == field_camel(field@),
        rule@ == "PascalCase"@ ==> given@ == field_pascal(field@, true),
        rule@ == "UPPERCASE"@ ==> given@ == field_upper(field@),
        rule@ == "lowercase"@ ==> given@ == field@,
        rule@ == "SCREAMING_SNAKE_CASE"@ ==> given@ == field_upper(field@),
        rule@ == "kebab-case"@ ==> given@ == field_kebab(field@),
{
    rules_are_known_by_name(field@, rule@);
}

/// The values of `serde` attributes are looked up by their key.
pub proof fn attributes_are_looked_up_by_key(
    attrs: Vec<ItemAttr>,
    key: &str,
    given: Option<String>,
    own: Option<String>,
    all: Option<String>,
)
    requires
        call_ensures(serde_string_value, (&attrs, key), given),
        call_ensures(serde_rename, (&attrs,), own),
        call_ensures(serde_rename_all, (&attrs,), all),
    ensures
        given is Some <==> serde_value(attrs@, key@) is Some,
        given matches Some(value) ==> serde_value(attrs@, key@) == Some(value@),
        key@ == "rename"@ ==> (own is Some <==> given is Some) && (own is Some ==> own->0@
            == given->0@),
        key@ == "rename_all"@ ==> (all is Some <==> given is Some) && (all is Some ==> all->0@
            == given->0@),
{
}

/// A data type that was referred to is found under the components, and its schema names
/// its properties and those that must be there.
pub proof fn data_types_are_described(
    name: &str,
    fields: Vec<Property>,
    referring: Value,
    schema: Value,
)
    requires
        call_ensures(reference_schema, (name,), referring),
        call_ensures(build_schema, (fields,), schema),
    ensures
        referring.json() == Json::Object(
            seq![("$ref"@, Json::Text("#/components/schemas/"@ + name@))],
        ),
        schema.json() == Json::Object(
            seq![
                ("properties"@, Json::Object(properties(fields@))),
                ("required"@, Json::Array(required(fields@))),
                ("type"@, Json::Text("object"@)),
            ],
        ),
{
}

/// The value of a data type is taken as it was read or written, and what went wrong is
/// told with the name of the type.
pub proof fn values_of_data_types_are_taken_or_told<T>(
    name: &str,
    value: T,
    bytes: Vec<u8>,
    fault: String,
    read: Result<T, String>,
    unread: Result<T, String>,
    written: Result<Vec<u8>, String>,
    unwritten: Result<Vec<u8>, String>,
)
    requires
        call_ensures(read_data::<T>, (name, Ok(value)), read),
        call_ensures(read_data::<T>, (name, Err(fault)), unread),
        call_ensures(write_data, (name, Ok(bytes)), written),
        call_ensures(write_data, (name, Err(fault)), unwritten),
    ensures
        read == Ok::<T, String>(value),
        unread matches Err(said) && said@ == "invalid JSON for "@ + name@ + ": "@ + fault@,
        written matches Ok(same) && same@ == bytes@,
        unwritten matches Err(said) && said@ == "failed to serialize "@ + name@ + ": "@ + fault@,
{
}

/// A new document has the title and the version that it is given, follows the schema, and
/// has no contracts and no components; a new contract is the default one, of its name, in
/// its latest version, without transactions; a new transaction has its name and its tag.
pub proof fn new_metadata_are_blank(
    title: String,
    version: String,
    document: Metadata,
    name: String,
    contract: Contract,
    submit: Transaction,
    evaluate: Transaction,
)
    requires
        call_ensures(Metadata::new, (title, version), document),
        call_ensures(Contract::new, (name,), contract),
        call_ensures(Transaction::submit, (name,), submit),
        call_ensures(Transaction::evaluate, (name,), evaluate),
    ensures
        document@.schema
            == "https://hyperledger.github.io/fabric-chaincode-node/main/api/contract-schema.json"@,
        document@.info.title == title@ && document@.info.version == version@
            && document@.info.description is None,
        document@.contracts.len() == 0 && document@.schemas.len() == 0,
        contract@.name == name@ && contract@.info.title == name@ && contract@.info.version
            == "latest"@ && contract@.info.description is None,
        contract@.default && contract@.transactions.len() == 0,
        submit@.name == name@ && submit@.tag == seq!["submit"@] && submit@.parameters.len() == 0
            && submit@.returns is None,
        evaluate@.name == name@ && evaluate@.tag == seq!["evaluate"@] && evaluate@.parameters.len()
            == 0 && evaluate@.returns is None,
{
}

/// What is added to a document, a contract or a transaction is found there, under its name
/// or at the end, and nothing else changes.
pub proof fn metadata_grow_by_what_is_added(
    document: Metadata,
    contract: Contract,
    with_contract: Metadata,
    name: String,
    schema: Value,
    with_component: Metadata,
    tx: Transaction,
    with_tx: Contract,
    with_parameter: Transaction,
    with_result: Transaction,
    other: Seq<char>,
)
    requires
        call_ensures(Metadata::contract, (document, contract), with_contract),
        call_ensures(Metadata::component, (document, name, schema), with_component),
        call_ensures(Contract::transaction, (contract, tx), with_tx),
        call_ensures(Transaction::parameter, (tx, name, schema), with_parameter),
        call_ensures(Transaction::returning, (tx, schema), with_result),
    ensures
        found(with_contract@.contracts, contract@.name) == Some(contract@),
        other != contract@.name ==> found(with_contract@.contracts, other) == found(
            document@.contracts,
            other,
        ),
        with_contract@.schemas == document@.schemas && with_contract@.info == document@.info
            && with_contract@.schema == document@.schema,
        found(with_component@.schemas, name@) == Some(schema.json()),
        other != name@ ==> found(with_component@.schemas, other) == found(document@.schemas, other),
        with_component@.contracts == document@.contracts && with_component@.info == document@.info
            && with_component@.schema == document@.schema,
        with_tx@.transactions == contract@.transactions.push(tx@),
        with_tx@.name == contract@.name && with_tx@.info == contract@.info && with_tx@.default
            == contract@.default,
        with_parameter@.parameters.len() == tx@.parameters.len() + 1,
        with_parameter@.parameters.drop_last() == tx@.parameters,
        with_parameter@.parameters.last().name == name@,
        with_parameter@.parameters.last().schema == schema.json(),
        with_parameter@.parameters.last().description is None,
        with_parameter@.name == tx@.name && with_parameter@.tag == tx@.tag
            && with_parameter@.returns == tx@.returns,
        with_result@.returns == Some(schema.json()),
        with_result@.name == tx@.name && with_result@.tag == tx@.tag && with_result@.parameters
            == tx@.parameters,
{
    found_after_insert(document@.contracts, contract@.name, contract@, other);
    found_after_insert(document@.schemas, name@, schema.json(), other);
    assert(with_parameter@.parameters.drop_last() =~= tx@.parameters);
}

/// What is put into a map is found under its key, whatever was there, and what is under
/// other keys stays.
pub proof fn maps_give_what_was_put<V>(
    map: &mut TextMap<V>,
    key: String,
    value: V,
    after: TextMap<V>,
    word: &str,
    given: Option<&V>,
    there: bool,
    empty: TextMap<V>,
    none: Option<&V>,
)
    requires
        call_ensures(TextMap::<V>::insert, (map, key, value), ()),
        after == *final(map),
        call_ensures(TextMap::<V>::get, (&after, word), given),
        call_ensures(TextMap::<V>::contains_key, (&after, word), there),
        call_ensures(TextMap::<V>::new, (), empty),
        call_ensures(TextMap::<V>::get, (&empty, word), none),
    ensures
        word@ == key@ ==> given == Some(&value),
        word@ != key@ ==> match given {
            Some(v) => found(old(map)@, word@) == Some(*v),
            None => found(old(map)@, word@) is None,
        },
        there <==> given is Some,
        none is None,
{
    found_after_insert(old(map)@, key@, value, word@);
}

/// The entries of a map stand in the order of their keys, and are given as they stand.
pub proof fn maps_are_listed_in_order<V>(
    map: TextMap<V>,
    at: usize,
    len: usize,
    empty: bool,
    key: &str,
    value: &V,
    pairs: Vec<(String, V)>,
)
    requires
        call_ensures(TextMap::<V>::len, (&map,), len),
        call_ensures(TextMap::<V>::is_empty, (&map,), empty),
        call_ensures(TextMap::<V>::key_at, (&map, at), key),
        call_ensures(TextMap::<V>::value_at, (&map, at), value),
        call_ensures(TextMap::<V>::into_pairs, (map,), pairs),
        at < map@.len(),
    ensures
        len == map@.len(),
        empty <==> len == 0,
        map@[at as int] == (key@, *value),
        pairs@.len() == len,
        pairs@[at as int].0@ == key@,
        pairs@[at as int].1 == *value,
        forall|i: int, j: int|
            0 <= i < j < map@.len() ==> before((#[trigger] map@[i]).0, (#[trigger] map@[j]).0),
{
}

/// A data type is registered where none of its name is: its schema is then that of its
/// fields. Where one is nothing changes, and other names are not touched.
pub proof fn data_types_are_registered_once(
    out: &mut TextMap<Value>,
    name: &str,
    fields: Vec<Property>,
    fresh: bool,
    other: Seq<char>,
)
    requires
        call_ensures(register_data_type, (out, name, fields), fresh),
    ensures
        fresh <==> found(schemas_json(old(out)@), name@) is None,
        fresh ==> found(schemas_json(final(out)@), name@) == Some(
            Json::Object(
                seq![
                    ("properties"@, Json::Object(properties(fields@))),
                    ("required"@, Json::Array(required(fields@))),
                    ("type"@, Json::Text("object"@)),
                ],
            ),
        ),
        !fresh ==> schemas_json(final(out)@) == schemas_json(old(out)@),
        other != name@ ==> found(schemas_json(final(out)@), other) == found(
            schemas_json(old(out)@),
            other,
        ),
{
    data_types_are_registered_under_their_name(schemas_json(old(out)@), name@, fields@, other);
}

/// The named data types are registered with all that they refer to, and what was known
/// keeps its schema.
pub proof fn data_types_are_registered_with_what_they_refer_to(
    out: &mut TextMap<Value>,
    table: Vec<DataType>,
    names: Vec<String>,
    at: int,
    name: Seq<char>,
    from: Seq<char>,
    to: Seq<char>,
)
    requires
        call_ensures(register_data_types, (out, &table, &names), ()),
    ensures
        found(schemas_json(old(out)@), name) is Some ==> found(schemas_json(final(out)@), name)
            == found(schemas_json(old(out)@), name),
        0 <= at < names@.len() && names@[at]@ == name && found(schemas_json(old(out)@), name)
            is None ==> found(schemas_json(final(out)@), name) == match described(
            table_view(table@),
            name,
        ) {
            Some(data) => Some(data.schema),
            None => None,
        },
        found(schemas_json(old(out)@), name) is None && found(schemas_json(final(out)@), name)
            is Some ==> (described(table_view(table@), name) matches Some(data) && found(
            schemas_json(final(out)@),
            name,
        ) == Some(data.schema)),
        found(schemas_json(old(out)@), from) is None && found(schemas_json(final(out)@), from)
            is Some && referred(table_view(table@), from).contains(to) ==> (described(
            table_view(table@),
            to,
        ) is Some ==> found(schemas_json(final(out)@), to) is Some),
{
    let known = schemas_json(old(out)@);
    let types = table_view(table@);
    let wanted = text_views(names@);
    let after = schemas_json(final(out)@);
    assert(found(after, name) == registered(known, types, wanted, name));
    assert(found(after, from) == registered(known, types, wanted, from));
    assert(found(after, to) == registered(known, types, wanted, to));
    data_types_are_registered_where_reached(known, types, wanted, name);
    data_types_are_registered_where_reached(known, types, wanted, from);
    data_types_are_registered_where_reached(known, types, wanted, to);
    data_types_are_reached_by_reference(known, types, wanted, from, to);
    data_types_are_reached_by_reference(known, types, wanted, name, name);
    if 0 <= at < names@.len() && names@[at]@ == name {
        assert(wanted[at] == name);
        assert(wanted.contains(name));
    }
}

/// A data type is put into the table where none of its name is, behind the others, with
/// the schema of its fields and what it refers to.
pub proof fn data_types_are_declared_once(
    table: &mut Vec<DataType>,
    name: &str,
    fields: Vec<Property>,
    refers: Vec<String>,
    fresh: bool,
)
    requires
        call_ensures(declare_data_type, (table, name, fields, refers), fresh),
    ensures
        fresh <==> described(table_view(old(table)@), name@) is None,
        !fresh ==> table_view(final(table)@) == table_view(old(table)@),
        fresh ==> {
            let after = table_view(final(table)@);
            &&& after.len() == old(table)@.len() + 1
            &&& after.drop_last() == table_view(old(table)@)
            &&& after.last().name == name@
            &&& after.last().refers == text_views(refers@)
            &&& after.last().schema == Json::Object(
                seq![
                    ("properties"@, Json::Object(properties(fields@))),
                    ("required"@, Json::Array(required(fields@))),
                    ("type"@, Json::Text("object"@)),
                ],
            )
        },
{
    assert(table_view(old(table)@).len() == old(table)@.len());
    if fresh {
        assert(table_view(final(table)@).drop_last() =~= table_view(old(table)@));
    }
}

/// Texts stand by their first difference: before, behind or the same.
pub proof fn texts_stand_in_one_way(a: &str, b: &str, given: Standing)
    requires
        call_ensures(standing, (a, b), given),
    ensures
        given == Standing::Same <==> a@ == b@,
        given == Standing::Before <==> before(a@, b@),
        given == Standing::Behind <==> before(b@, a@),
{
    before_is_irreflexive(a@);
    before_is_irreflexive(b@);
    if before(a@, b@) && before(b@, a@) {
        before_is_transitive(a@, b@, a@);
    }
}

/// Metadata are blank by default.
pub proof fn metadata_are_blank_by_default(
    info: Info,
    components: Components,
    document: Metadata,
    given: Components,
    empty: bool,
)
    requires
        call_ensures(<Info as Default>::default, (), info),
        call_ensures(<Components as Default>::default, (), components),
        call_ensures(<Metadata as Default>::default, (), document),
        call_ensures(Components::is_empty, (&given,), empty),
    ensures
        info@.title.len() == 0 && info@.version.len() == 0 && info@.description is None,
        components.schemas@.len() == 0,
        document@.schema.len() == 0 && document@.info.title.len() == 0
            && document@.info.version.len()
            == 0 && document@.info.description is None,
        document@.contracts.len() == 0 && document@.schemas.len() == 0,
        empty <==> given.schemas@.len() == 0,
{
}

/// A copy of a value says the same.
pub proof fn copies_say_the_same(value: Value, copy: Value)
    requires
        call_ensures(Value::copy, (&value,), copy),
    ensures
        copy.json() == value.json(),
{
}

} // verus!
