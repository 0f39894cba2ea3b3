//! Data types that refer to each other, and the schemas that they bring along.

use vstd::prelude::*;

use crate::data_type::{build_schema, lemma_found_through, object_schema, Property};
use crate::json::{Json, Value};
use crate::metadata::{inserted_through, schemas_json};
use crate::text;
use crate::text_map::{found, found_after_insert, inserted, TextMap};

verus! {

/// A data type: its name, its schema, and the names of the data types that its
/// fields refer to.
pub struct DataType {
    pub name: String,
    pub schema: Value,
    pub refers: Vec<String>,
}

/// What a [`DataType`] says.
#[verifier::ext_equal]
pub struct DataTypeView {
    pub name: Seq<char>,
    pub schema: Json,
    pub refers: Seq<Seq<char>>,
}

/// What texts say.
pub open spec fn text_views(texts: Seq<String>) -> Seq<Seq<char>> {
    Seq::new(texts.len(), |i: int| texts[i]@)
}

impl View for DataType {
    type V = DataTypeView;

    open spec fn view(&self) -> DataTypeView {
        DataTypeView {
            name: self.name@,
            schema: self.schema.json(),
            refers: text_views(self.refers@),
        }
    }
}

/// What data types say.
pub open spec fn table_view(table: Seq<DataType>) -> Seq<DataTypeView> {
    Seq::new(table.len(), |i: int| table[i]@)
}

/// The first data type of that name.
pub open spec fn described(table: Seq<DataTypeView>, name: Seq<char>) -> Option<DataTypeView>
    decreases table.len(),
{
    if table.len() == 0 {
        None
    } else if table[0].name == name {
        Some(table[0])
    } else {
        described(table.skip(1), name)
    }
}

/// The names that a data type of the table refers to.
pub open spec fn referred(table: Seq<DataTypeView>, name: Seq<char>) -> Seq<Seq<char>> {
    match described(table, name) {
        Some(data) => data.refers,
        None => seq![],
    }
}

/// Whether `path` leads from one of `names` from reference to reference, through
/// data types of the table that are not known.
pub open spec fn leads(
    known: Seq<(Seq<char>, Json)>,
    table: Seq<DataTypeView>,
    names: Seq<Seq<char>>,
    path: Seq<Seq<char>>,
) -> bool {
    &&& path.len() > 0
    &&& names.contains(path[0])
    &&& forall|i: int|
        0 <= i < path.len() ==> described(table, #[trigger] path[i]) is Some && found(
            known,
            path[i],
        ) is None
    &&& forall|i: int|
        0 < i < path.len() ==> referred(table, path[i - 1]).contains(#[trigger] path[i])
}

/// Whether a path leads to `name`.
pub open spec fn reached(
    known: Seq<(Seq<char>, Json)>,
    table: Seq<DataTypeView>,
    names: Seq<Seq<char>>,
    name: Seq<char>,
) -> bool {
    exists|path: Seq<Seq<char>>| #[trigger]
        leads(known, table, names, path) && path.last() == name
}

/// The schema under `name` after `names` have been registered with all that they
/// refer to. A schema that is already known stays, and nothing is looked up behind
/// it.
pub open spec fn registered(
    known: Seq<(Seq<char>, Json)>,
    table: Seq<DataTypeView>,
    names: Seq<Seq<char>>,
    name: Seq<char>,
) -> Option<Json> {
    if found(known, name) is Some {
        found(known, name)
    } else if reached(known, table, names, name) {
        Some(described(table, name)->0.schema)
    } else {
        None
    }
}

// ---- the table -------------------------------------------------------------
fn place_of(table: &Vec<DataType>, name: &str) -> (r: Option<usize>)
    ensures
        match r {
            Some(at) => at < table@.len() && described(table_view(table@), name@) == Some(
                table@[at as int]@,
            ),
            None => described(table_view(table@), name@) is None,
        },
{
    let ghost all = table_view(table@);
    let mut i: usize = 0;
    assert(all.skip(0) =~= all);
    while i < table.len()
        invariant
            0 <= i <= table@.len(),
            all == table_view(table@),
            described(all.skip(i as int), name@) == described(all, name@),
        decreases table@.len() - i,
    {
        assert(all.skip(i as int)[0] == table@[i as int]@);
        assert(all.skip(i as int).skip(1) =~= all.skip(i + 1));
        if text::same_text(table[i].name.as_str(), name) {
            return Some(i);
        }
        i = i + 1;
    }
    None
}

/// Puts a data type into the table, unless one of that name is there. Says whether
/// it was put there; the types of its fields then have to be, too.
pub fn declare_data_type(
    table: &mut Vec<DataType>,
    name: &str,
    fields: Vec<Property>,
    refers: Vec<String>,
) -> (r: bool)
    ensures
        r == described(table_view(old(table)@), name@) is None,
        table_view(final(table)@) == if r {
            table_view(old(table)@).push(
                DataTypeView {
                    name: name@,
                    schema: object_schema(fields@),
                    refers: text_views(refers@),
                },
            )
        } else {
            table_view(old(table)@)
        },
{
    if place_of(table, name).is_some() {
        return false;
    }
    let ghost earlier = table_view(table@);
    let schema = build_schema(fields);
    let data = DataType { name: name.to_owned(), schema, refers };
    let ghost said = data@;
    table.push(data);
    assert(table_view(table@) =~= earlier.push(said));
    true
}

// ---- registering -----------------------------------------------------------
/// How many data types of the table are not known.
spec fn missing(known: Seq<(Seq<char>, Json)>, table: Seq<DataTypeView>) -> nat
    decreases table.len(),
{
    if table.len() == 0 {
        0
    } else {
        missing(known, table.skip(1)) + if found(known, table[0].name) is None {
            1nat
        } else {
            0nat
        }
    }
}

proof fn lemma_fewer_missing(
    known: Seq<(Seq<char>, Json)>,
    table: Seq<DataTypeView>,
    name: Seq<char>,
    schema: Json,
)
    ensures
        missing(inserted(known, name, schema), table) <= missing(known, table),
        found(known, name) is None && described(table, name) is Some ==> missing(
            inserted(known, name, schema),
            table,
        ) < missing(known, table),
    decreases table.len(),
{
    if table.len() > 0 {
        lemma_fewer_missing(known, table.skip(1), name, schema);
        found_after_insert(known, name, schema, table[0].name);
    }
}

/// Whether `name` is one of `names`, or is referred to by a data type that is
/// reached.
spec fn asked_for(
    known: Seq<(Seq<char>, Json)>,
    table: Seq<DataTypeView>,
    names: Seq<Seq<char>>,
    name: Seq<char>,
) -> bool {
    ||| names.contains(name)
    ||| exists|from: Seq<char>| #[trigger]
        reached(known, table, names, from) && referred(table, from).contains(name)
}

proof fn lemma_asked_for_is_reached(
    known: Seq<(Seq<char>, Json)>,
    table: Seq<DataTypeView>,
    names: Seq<Seq<char>>,
    name: Seq<char>,
)
    requires
        asked_for(known, table, names, name),
        described(table, name) is Some,
        found(known, name) is None,
    ensures
        reached(known, table, names, name),
{
    if names.contains(name) {
        let path = seq![name];
        assert(leads(known, table, names, path));
        assert(path.last() == name);
    } else {
        let from = choose|from: Seq<char>| #[trigger]
            reached(known, table, names, from) && referred(table, from).contains(name);
        let path = choose|path: Seq<Seq<char>>| #[trigger]
            leads(known, table, names, path) && path.last() == from;
        let longer = path.push(name);
        assert forall|i: int| 0 < i < longer.len() implies referred(
            table,
            longer[i - 1],
        ).contains(#[trigger] longer[i]) by {
            if i < path.len() {
                assert(referred(table, path[i - 1]).contains(path[i]));
            }
        }
        assert(leads(known, table, names, longer));
        assert(longer.last() == name);
    }
}

/// Whether there is nothing left to do for `name` but what is in `pending`.
spec fn settled(
    now: Seq<(Seq<char>, Json)>,
    table: Seq<DataTypeView>,
    pending: Seq<Seq<char>>,
    name: Seq<char>,
) -> bool {
    ||| found(now, name) is Some
    ||| described(table, name) is None
    ||| pending.contains(name)
}

/// Whether `now` holds what was known and some of what is reached, and all that
/// these ask for is settled.
spec fn on_the_way(
    known: Seq<(Seq<char>, Json)>,
    now: Seq<(Seq<char>, Json)>,
    table: Seq<DataTypeView>,
    names: Seq<Seq<char>>,
    pending: Seq<Seq<char>>,
) -> bool {
    &&& forall|k: Seq<char>|
        found(known, k) is Some ==> #[trigger] found(now, k) == found(known, k)
    &&& forall|k: Seq<char>|
        found(known, k) is None && (#[trigger] found(now, k)) is Some ==> reached(
            known,
            table,
            names,
            k,
        ) && found(now, k) == Some(described(table, k)->0.schema)
    &&& forall|i: int|
        0 <= i < pending.len() ==> asked_for(known, table, names, #[trigger] pending[i])
    &&& forall|k: Seq<char>| #[trigger] names.contains(k) ==> settled(now, table, pending, k)
    &&& forall|from: Seq<char>, k: Seq<char>|
        found(known, from) is None && (#[trigger] found(now, from)) is Some && #[trigger] referred(
            table,
            from,
        ).contains(k) ==> settled(now, table, pending, k)
}

proof fn lemma_step(
    known: Seq<(Seq<char>, Json)>,
    now: Seq<(Seq<char>, Json)>,
    table: Seq<DataTypeView>,
    names: Seq<Seq<char>>,
    pending: Seq<Seq<char>>,
)
    requires
        on_the_way(known, now, table, names, pending),
        pending.len() > 0,
    ensures
        found(now, pending.last()) is Some || described(table, pending.last()) is None
            ==> on_the_way(known, now, table, names, pending.drop_last()),
        found(now, pending.last()) is None && described(table, pending.last()) is Some
            ==> on_the_way(
            known,
            inserted(now, pending.last(), described(table, pending.last())->0.schema),
            table,
            names,
            pending.drop_last() + referred(table, pending.last()),
        ),
{
    let name = pending.last();
    let rest = pending.drop_last();
    assert(forall|k: Seq<char>| pending.contains(k) ==> k == name || rest.contains(k)) by {
        assert forall|k: Seq<char>| pending.contains(k) implies k == name || rest.contains(k) by {
            let i = choose|i: int| 0 <= i < pending.len() && pending[i] == k;
            if i < rest.len() {
                assert(rest[i] == k);
            }
        }
    }
    assert(forall|i: int| 0 <= i < rest.len() ==> rest[i] == pending[i]);
    if found(now, name) is None && described(table, name) is Some {
        let schema = described(table, name)->0.schema;
        let after = inserted(now, name, schema);
        let more = rest + referred(table, name);
        assert(asked_for(known, table, names, pending[pending.len() - 1]));
        if found(known, name) is Some {
            assert(found(now, name) == found(known, name));
        }
        lemma_asked_for_is_reached(known, table, names, name);
        assert forall|k: Seq<char>| k != name implies #[trigger] found(after, k) == found(
            now,
            k,
        ) by {
            found_after_insert(now, name, schema, k);
        }
        found_after_insert(now, name, schema, name);
        assert forall|k: Seq<char>| settled(now, table, pending, k) implies #[trigger] settled(
            after,
            table,
            more,
            k,
        ) by {
            if rest.contains(k) {
                let i = choose|i: int| 0 <= i < rest.len() && rest[i] == k;
                assert(more[i] == k);
            }
        }
        assert forall|k: Seq<char>| referred(table, name).contains(k) implies #[trigger] settled(
            after,
            table,
            more,
            k,
        ) by {
            let refs = referred(table, name);
            let i = choose|i: int| 0 <= i < refs.len() && refs[i] == k;
            assert(more[rest.len() + i] == k);
        }
        assert forall|i: int| 0 <= i < more.len() implies asked_for(
            known,
            table,
            names,
            #[trigger] more[i],
        ) by {
            if i < rest.len() {
                assert(more[i] == pending[i]);
            } else {
                assert(referred(table, name).contains(more[i]));
            }
        }
        assert(on_the_way(known, after, table, names, more));
    }
}

proof fn lemma_end(
    known: Seq<(Seq<char>, Json)>,
    now: Seq<(Seq<char>, Json)>,
    table: Seq<DataTypeView>,
    names: Seq<Seq<char>>,
)
    requires
        on_the_way(known, now, table, names, seq![]),
    ensures
        forall|k: Seq<char>| #[trigger] found(now, k) == registered(known, table, names, k),
{
    assert forall|k: Seq<char>| #[trigger] found(now, k) == registered(
        known,
        table,
        names,
        k,
    ) by {
        if found(known, k) is None && reached(known, table, names, k) {
            let path = choose|path: Seq<Seq<char>>| #[trigger]
                leads(known, table, names, path) && path.last() == k;
            lemma_path_is_found(known, now, table, names, path, path.len() - 1);
        }
    }
}

proof fn lemma_path_is_found(
    known: Seq<(Seq<char>, Json)>,
    now: Seq<(Seq<char>, Json)>,
    table: Seq<DataTypeView>,
    names: Seq<Seq<char>>,
    path: Seq<Seq<char>>,
    at: int,
)
    requires
        on_the_way(known, now, table, names, seq![]),
        leads(known, table, names, path),
        0 <= at < path.len(),
    ensures
        found(now, path[at]) is Some,
    decreases at,
{
    let none = Seq::<Seq<char>>::empty();
    if at == 0 {
        assert(settled(now, table, none, path[0]));
    } else {
        lemma_path_is_found(known, now, table, names, path, at - 1);
        assert(referred(table, path[at - 1]).contains(path[at]));
        assert(settled(now, table, none, path[at]));
    }
}

proof fn lemma_order_is_free(
    known: Seq<(Seq<char>, Json)>,
    now: Seq<(Seq<char>, Json)>,
    table: Seq<DataTypeView>,
    names: Seq<Seq<char>>,
    pending: Seq<Seq<char>>,
    other: Seq<Seq<char>>,
)
    requires
        on_the_way(known, now, table, names, pending),
        forall|k: Seq<char>| pending.contains(k) <==> #[trigger] other.contains(k),
    ensures
        on_the_way(known, now, table, names, other),
{
    assert forall|i: int| 0 <= i < other.len() implies asked_for(
        known,
        table,
        names,
        #[trigger] other[i],
    ) by {
        assert(other.contains(other[i]));
        let k = choose|k: int| 0 <= k < pending.len() && pending[k] == other[i];
        assert(asked_for(known, table, names, pending[k]));
    }
    assert forall|k: Seq<char>| settled(now, table, pending, k) implies #[trigger] settled(
        now,
        table,
        other,
        k,
    ) by {
        assert(other.contains(k) == pending.contains(k));
    }
}

proof fn lemma_next_to_the_end(rest: Seq<Seq<char>>, list: Seq<Seq<char>>, at: int)
    requires
        0 <= at < list.len(),
    ensures
        forall|k: Seq<char>|
            (rest + list.skip(at)).contains(k) <==> #[trigger] (rest + list.skip(at + 1)).push(
                list[at],
            ).contains(k),
{
    let here = rest + list.skip(at);
    let moved = (rest + list.skip(at + 1)).push(list[at]);
    assert forall|k: Seq<char>| here.contains(k) <==> #[trigger] moved.contains(k) by {
        if here.contains(k) {
            let i = choose|i: int| 0 <= i < here.len() && here[i] == k;
            if i < rest.len() {
                assert(moved[i] == k);
            } else if i == rest.len() {
                assert(moved[moved.len() - 1] == k);
            } else {
                assert(moved[i - 1] == k);
            }
        }
        if moved.contains(k) {
            let i = choose|i: int| 0 <= i < moved.len() && moved[i] == k;
            if i < rest.len() {
                assert(here[i] == k);
            } else if i == moved.len() - 1 {
                assert(here[rest.len() as int] == k);
            } else {
                assert(here[i + 1] == k);
            }
        }
    }
}

/// Registers one data type and, where it was not known, what it refers to.
fn register_from(
    out: &mut TextMap<Value>,
    table: &Vec<DataType>,
    name: &str,
    Ghost(known): Ghost<Seq<(Seq<char>, Json)>>,
    Ghost(names): Ghost<Seq<Seq<char>>>,
    Ghost(rest): Ghost<Seq<Seq<char>>>,
)
    requires
        on_the_way(
            known,
            schemas_json(old(out)@),
            table_view(table@),
            names,
            rest.push(name@),
        ),
    ensures
        on_the_way(known, schemas_json(final(out)@), table_view(table@), names, rest),
        missing(schemas_json(final(out)@), table_view(table@)) <= missing(
            schemas_json(old(out)@),
            table_view(table@),
        ),
    decreases missing(schemas_json(old(out)@), table_view(table@)),
{
    let ghost now = schemas_json(out@);
    let ghost types = table_view(table@);
    proof {
        assert(rest.push(name@).drop_last() =~= rest);
        lemma_step(known, now, types, names, rest.push(name@));
        lemma_found_through(out@, name@);
    }
    if out.contains_key(name) {
        return;
    }
    let at: usize = match place_of(table, name) {
        Some(at) => at,
        None => return,
    };
    let data = &table[at];
    let schema = data.schema.copy();
    proof {
        inserted_through(out@, name@, schema, |value: Value| value.json());
        lemma_fewer_missing(now, types, name@, schema.json());
    }
    out.insert(name.to_owned(), schema);
    let ghost refs = text_views(data.refers@);
    let mut i: usize = 0;
    assert(refs.skip(0) =~= refs);
    while i < data.refers.len()
        invariant
            0 <= i <= data.refers@.len(),
            refs == text_views(data.refers@),
            types == table_view(table@),
            on_the_way(known, schemas_json(out@), types, names, rest + refs.skip(i as int)),
            missing(schemas_json(out@), types) < missing(now, types),
            now == schemas_json(old(out)@),
        decreases data.refers@.len() - i,
    {
        let next = data.refers[i].as_str();
        let ghost left = rest + refs.skip(i + 1);
        proof {
            assert(refs[i as int] == next@);
            lemma_next_to_the_end(rest, refs, i as int);
            lemma_order_is_free(
                known,
                schemas_json(out@),
                types,
                names,
                rest + refs.skip(i as int),
                left.push(next@),
            );
        }
        register_from(out, table, next, Ghost(known), Ghost(names), Ghost(left));
        i = i + 1;
    }
    assert(rest + refs.skip(i as int) =~= rest);
}

/// Whether `after` has every schema that there is after the named data types have been
/// registered, and no other.
pub open spec fn all_registered(
    known: Seq<(Seq<char>, Json)>,
    table: Seq<DataTypeView>,
    names: Seq<Seq<char>>,
    after: Seq<(Seq<char>, Json)>,
) -> bool {
    forall|name: Seq<char>| #[trigger]
        found(after, name) == registered(known, table, names, name)
}

/// Registers the schemas of the named data types and of all that they refer to, from
/// reference to reference. A name that is not in the table brings nothing.
pub fn register_data_types(out: &mut TextMap<Value>, table: &Vec<DataType>, names: &Vec<String>)
    ensures
        all_registered(
            schemas_json(old(out)@),
            table_view(table@),
            text_views(names@),
            schemas_json(final(out)@),
        ),
{
    let ghost known = schemas_json(out@);
    let ghost types = table_view(table@);
    let ghost wanted = text_views(names@);
    let ghost none = Seq::<Seq<char>>::empty();
    let mut i: usize = 0;
    proof {
        assert(none + wanted.skip(0) =~= wanted);
        assert forall|k: int| 0 <= k < wanted.len() implies asked_for(
            known,
            types,
            wanted,
            #[trigger] wanted[k],
        ) by {
            assert(wanted.contains(wanted[k]));
        }
    }
    while i < names.len()
        invariant
            0 <= i <= names@.len(),
            none == Seq::<Seq<char>>::empty(),
            types == table_view(table@),
            wanted == text_views(names@),
            on_the_way(known, schemas_json(out@), types, wanted, none + wanted.skip(i as int)),
        decreases names@.len() - i,
    {
        let next = names[i].as_str();
        let ghost left = none + wanted.skip(i + 1);
        proof {
            assert(wanted[i as int] == next@);
            lemma_next_to_the_end(none, wanted, i as int);
            lemma_order_is_free(
                known,
                schemas_json(out@),
                types,
                wanted,
                none + wanted.skip(i as int),
                left.push(next@),
            );
        }
        register_from(out, table, next, Ghost(known), Ghost(wanted), Ghost(left));
        i = i + 1;
    }
    proof {
        assert(none + wanted.skip(i as int) =~= seq![]);
        lemma_end(known, schemas_json(out@), types, wanted);
    }
}

// ---- laws ------------------------------------------------------------------
/// From nothing known, every data type that can be reached is registered with its
/// schema, and nothing else is.
pub proof fn all_that_is_reached_is_registered(
    table: Seq<DataTypeView>,
    names: Seq<Seq<char>>,
    name: Seq<char>,
)
    ensures
        registered(seq![], table, names, name) == if reached(seq![], table, names, name) {
            Some(described(table, name)->0.schema)
        } else {
            None
        },
{
}

/// Schemas that are known stay as they are.
pub proof fn known_schemas_stay(
    known: Seq<(Seq<char>, Json)>,
    table: Seq<DataTypeView>,
    names: Seq<Seq<char>>,
    name: Seq<char>,
)
    requires
        found(known, name) is Some,
    ensures
        registered(known, table, names, name) == found(known, name),
{
}

/// What a data type refers to is registered along with it, as far as the table
/// describes it.
pub proof fn referred_types_come_along(
    known: Seq<(Seq<char>, Json)>,
    table: Seq<DataTypeView>,
    names: Seq<Seq<char>>,
    from: Seq<char>,
    name: Seq<char>,
)
    requires
        found(known, from) is None,
        registered(known, table, names, from) is Some,
        referred(table, from).contains(name),
        described(table, name) is Some,
    ensures
        registered(known, table, names, name) is Some,
{
    if found(known, name) is None {
        lemma_asked_for_is_reached(known, table, names, name);
    }
}

/// Registering the same data types again changes nothing.
pub proof fn registering_again_changes_nothing(
    known: Seq<(Seq<char>, Json)>,
    after: Seq<(Seq<char>, Json)>,
    table: Seq<DataTypeView>,
    names: Seq<Seq<char>>,
    name: Seq<char>,
)
    requires
        forall|k: Seq<char>| #[trigger] found(after, k) == registered(known, table, names, k),
    ensures
        registered(after, table, names, name) == found(after, name),
{
    if found(after, name) is None && reached(after, table, names, name) {
        let path = choose|path: Seq<Seq<char>>| #[trigger]
            leads(after, table, names, path) && path.last() == name;
        assert forall|i: int| 0 <= i < path.len() implies described(
            table,
            #[trigger] path[i],
        ) is Some && found(known, path[i]) is None by {
            assert(found(after, path[i]) == registered(known, table, names, path[i]));
        }
        assert(leads(known, table, names, path));
        assert(reached(known, table, names, name));
    }
}

} // verus!
