//! Decomposition: an object with embedded objects becomes a flat object that
//! names them by id, each embedded object is stored under its own id, and the
//! collections that the objects refer to are reported.

use vstd::prelude::*;
use vstd::string::*;
use crate::assoc::{lemma_position, lemma_same_keys_same_position, lookup, position};
use crate::schema::{CatalogView, Properties, PropertyDefinition, SchemaCatalog};
use crate::text::{is_text, last_segment, take_last_segment};
use crate::value::{entries_view, items_view, Json, Value};

verus! {

/// What decomposing an object asks of its surroundings.
#[derive(Debug, PartialEq, Eq)]
pub enum Effect {
    /// Store `object`, which is flat, under `id`.
    Store { id: String, object: Value },
    /// A collection was found at `url`.
    Emit { url: String },
}

/// The content of an `Effect`.
pub enum EffectView {
    Store { id: Seq<char>, object: Json },
    Emit { url: Seq<char> },
}

impl View for Effect {
    type V = EffectView;

    open spec fn view(&self) -> EffectView {
        match self {
            Effect::Store { id, object } => EffectView::Store { id: id@, object: object@ },
            Effect::Emit { url } => EffectView::Emit { url: url@ },
        }
    }
}

/// The contents of a list of effects.
pub open spec fn effects_view(effects: Seq<Effect>) -> Seq<EffectView> {
    Seq::new(effects.len(), |i: int| effects[i]@)
}

/// Why an object cannot be decomposed.
#[derive(Debug, Clone, Copy, PartialEq, Eq)]
pub enum DecomposeError {
    /// The object names no type of the catalog: it is no record, it has no
    /// text under `type`, or the catalog has no type of the name that this
    /// text ends in.
    UnknownType,
    /// The object lacks a text under `id`, or holds something other than a
    /// text where a collection's URL belongs. A cache also calls an object
    /// malformed whose id or collection is no URL, or which is nested too
    /// deep to be written.
    MalformedObject,
}

/// What decomposing gives: the flat value or the failure, and the effects up
/// to there, in their order.
pub struct Outcome {
    pub result: Result<Json, DecomposeError>,
    pub effects: Seq<EffectView>,
}

/// What decomposing the first items of a list gives.
pub struct ItemsOutcome {
    pub items: Seq<Json>,
    pub effects: Seq<EffectView>,
    pub failure: Option<DecomposeError>,
}

/// What decomposing the first entries of a record gives.
pub struct EntriesOutcome {
    pub entries: Seq<(Seq<char>, Json)>,
    pub effects: Seq<EffectView>,
    pub failure: Option<DecomposeError>,
}

/// A value that stays as it is, without effects.
pub open spec fn unchanged(value: Json) -> Outcome {
    Outcome { result: Ok(value), effects: Seq::empty() }
}

/// A failure without effects.
pub open spec fn failed(error: DecomposeError) -> Outcome {
    Outcome { result: Err(error), effects: Seq::empty() }
}

/// Whether a value is an opaque geometry payload: a record whose `type` is
/// the text `Feature`.
pub open spec fn is_geometry(value: Json) -> bool {
    value.text_field("type"@) == Some("Feature"@)
}

/// What decomposing a property's value under its definition gives. A plain
/// value stays. A list is decomposed item by item. An embedded object stays
/// where it is a geometry payload; otherwise it is decomposed as an object
/// and the text of its id takes its place. A collection's URL stays and is
/// emitted; anything but a text in its place is a failure.
pub open spec fn flatten_value(
    value: Json,
    definition: PropertyDefinition,
    catalog: CatalogView,
) -> Outcome
    decreases value, 1int, 0int,
{
    match definition {
        PropertyDefinition::Scalar => unchanged(value),
        PropertyDefinition::Array(inner) => match value {
            Json::List(items) => {
                let all = flatten_items(items, items.len() as int, *inner, catalog);
                Outcome {
                    result: match all.failure {
                        Some(error) => Err(error),
                        None => Ok(Json::List(all.items)),
                    },
                    effects: all.effects,
                }
            },
            _ => unchanged(value),
        },
        PropertyDefinition::Object => if is_geometry(value) {
            unchanged(value)
        } else {
            let inner = flatten_object(value, catalog);
            Outcome {
                result: match inner.result {
                    Ok(flat) => match flat.text_field("id"@) {
                        Some(id) => Ok(Json::Text(id)),
                        None => Err(DecomposeError::MalformedObject),
                    },
                    Err(error) => Err(error),
                },
                effects: inner.effects,
            }
        },
        PropertyDefinition::ExternalList => match value {
            Json::Text(url) => Outcome {
                result: Ok(value),
                effects: seq![EffectView::Emit { url }],
            },
            _ => failed(DecomposeError::MalformedObject),
        },
    }
}

/// What decomposing the first `n` items of a list gives: the items are
/// taken in their order, and the first failure ends the work.
pub open spec fn flatten_items(
    items: Seq<Json>,
    n: int,
    definition: PropertyDefinition,
    catalog: CatalogView,
) -> ItemsOutcome
    decreases items, 0int, n,
{
    if n <= 0 || n > items.len() {
        ItemsOutcome { items: Seq::empty(), effects: Seq::empty(), failure: None }
    } else {
        let before = flatten_items(items, n - 1, definition, catalog);
        if before.failure is Some {
            before
        } else {
            let this = flatten_value(items[n - 1], definition, catalog);
            match this.result {
                Ok(flat) => ItemsOutcome {
                    items: before.items.push(flat),
                    effects: before.effects + this.effects,
                    failure: None,
                },
                Err(error) => ItemsOutcome {
                    items: before.items,
                    effects: before.effects + this.effects,
                    failure: Some(error),
                },
            }
        }
    }
}

/// What decomposing the first `n` entries of a record gives. An entry whose
/// name the type defines is decomposed under that definition; every other
/// entry stays as it is.
pub open spec fn flatten_entries(
    entries: Seq<(Seq<char>, Json)>,
    n: int,
    properties: Properties,
    catalog: CatalogView,
) -> EntriesOutcome
    decreases entries, 0int, n,
{
    if n <= 0 || n > entries.len() {
        EntriesOutcome { entries: Seq::empty(), effects: Seq::empty(), failure: None }
    } else {
        let before = flatten_entries(entries, n - 1, properties, catalog);
        if before.failure is Some {
            before
        } else {
            match lookup(properties, entries[n - 1].0) {
                None => EntriesOutcome {
                    entries: before.entries.push(entries[n - 1]),
                    effects: before.effects,
                    failure: None,
                },
                Some(definition) => {
                    let this = flatten_value(entries[n - 1].1, definition, catalog);
                    match this.result {
                        Ok(flat) => EntriesOutcome {
                            entries: before.entries.push((entries[n - 1].0, flat)),
                            effects: before.effects + this.effects,
                            failure: None,
                        },
                        Err(error) => EntriesOutcome {
                            entries: before.entries,
                            effects: before.effects + this.effects,
                            failure: Some(error),
                        },
                    }
                },
            }
        }
    }
}

/// What decomposing an object gives. The object is a record with a text
/// under `type`, whose last segment names a type of the catalog; an object
/// that names no such type, be it for want of a `type`, fails with
/// `UnknownType` before anything is done. Its entries are decomposed in
/// their order. The flat object then has a text under `id`, else it fails
/// with `MalformedObject`; storing it under that id is the last effect.
pub open spec fn flatten_object(object: Json, catalog: CatalogView) -> Outcome
    decreases object, 0int, 0int,
{
    match object {
        Json::Record(entries) => match object.text_field("type"@) {
            None => failed(DecomposeError::UnknownType),
            Some(kind) => match lookup(catalog, last_segment(kind)) {
                None => failed(DecomposeError::UnknownType),
                Some(properties) => {
                    let all = flatten_entries(entries, entries.len() as int, properties, catalog);
                    let flat = Json::Record(all.entries);
                    match all.failure {
                        Some(error) => Outcome { result: Err(error), effects: all.effects },
                        None => match flat.text_field("id"@) {
                            None => Outcome {
                                result: Err(DecomposeError::MalformedObject),
                                effects: all.effects,
                            },
                            Some(id) => Outcome {
                                result: Ok(flat),
                                effects: all.effects.push(EffectView::Store { id, object: flat }),
                            },
                        },
                    }
                },
            },
        },
        _ => failed(DecomposeError::UnknownType),
    }
}

/// Once the first `k` items have failed, taking more items changes nothing.
pub proof fn lemma_items_failure_stays(
    items: Seq<Json>,
    k: int,
    n: int,
    definition: PropertyDefinition,
    catalog: CatalogView,
)
    requires
        0 <= k <= n <= items.len(),
        flatten_items(items, k, definition, catalog).failure is Some,
    ensures
        flatten_items(items, n, definition, catalog) == flatten_items(
            items,
            k,
            definition,
            catalog,
        ),
    decreases n - k,
{
    if k < n {
        lemma_items_failure_stays(items, k, n - 1, definition, catalog);
    }
}

/// Once the first `k` entries have failed, taking more entries changes
/// nothing.
pub proof fn lemma_entries_failure_stays(
    entries: Seq<(Seq<char>, Json)>,
    k: int,
    n: int,
    properties: Properties,
    catalog: CatalogView,
)
    requires
        0 <= k <= n <= entries.len(),
        flatten_entries(entries, k, properties, catalog).failure is Some,
    ensures
        flatten_entries(entries, n, properties, catalog) == flatten_entries(
            entries,
            k,
            properties,
            catalog,
        ),
    decreases n - k,
{
    if k < n {
        lemma_entries_failure_stays(entries, k, n - 1, properties, catalog);
    }
}

/// Whether a value is an opaque geometry payload.
pub fn is_geometry_value(value: &Value) -> (b: bool)
    ensures
        b == is_geometry(value@),
{
    is_text(value.get_text("type"), "Feature")
}

/// Decomposes a property's value under its definition, and appends the
/// effects to `effects`.
#[verifier::loop_isolation(false)]
fn decompose_value(
    value: &Value,
    definition: &PropertyDefinition,
    catalog: &SchemaCatalog,
    effects: &mut Vec<Effect>,
) -> (r: Result<Value, DecomposeError>)
    ensures
        effects_view(final(effects)@) == effects_view(old(effects)@) + flatten_value(
            value@,
            *definition,
            catalog@,
        ).effects,
        match r {
            Ok(flat) => flatten_value(value@, *definition, catalog@).result == Ok::<
                Json,
                DecomposeError,
            >(flat@),
            Err(error) => flatten_value(value@, *definition, catalog@).result == Err::<
                Json,
                DecomposeError,
            >(error),
        },
    decreases value, 1int, 0int,
{
    let ghost start = effects_view(effects@);
    match definition {
        PropertyDefinition::Scalar => {
            assert(start + Seq::<EffectView>::empty() =~= start);
            Ok(value.copy())
        },
        PropertyDefinition::Array(inner) => match value {
            Value::List(items) => {
                let ghost all = items_view(items@);
                let mut flat: Vec<Value> = Vec::new();
                let mut i: usize = 0;
                assert(items_view(flat@) =~= Seq::<Json>::empty());
                assert(start + Seq::<EffectView>::empty() =~= start);
                while i < items.len()
                    invariant
                        i <= items.len(),
                        flatten_items(all, i as int, **inner, catalog@).failure is None,
                        flatten_items(all, i as int, **inner, catalog@).items == items_view(
                            flat@,
                        ),
                        effects_view(effects@) == start + flatten_items(
                            all,
                            i as int,
                            **inner,
                            catalog@,
                        ).effects,
                    decreases items.len() - i,
                {
                    let ghost before = flatten_items(all, i as int, **inner, catalog@);
                    let ghost this = flatten_value(all[i as int], **inner, catalog@);
                    let ghost flat_before = items_view(flat@);
                    assert(all[i as int] == items@[i as int]@);
                    match decompose_value(&items[i], inner, catalog, effects) {
                        Ok(item) => {
                            let ghost content = item@;
                            flat.push(item);
                            assert(items_view(flat@) =~= flat_before.push(content));
                            assert(start + (before.effects + this.effects) =~= (start
                                + before.effects) + this.effects);
                        },
                        Err(error) => {
                            proof {
                                assert(start + (before.effects + this.effects) =~= (start
                                    + before.effects) + this.effects);
                                lemma_items_failure_stays(
                                    all,
                                    i + 1,
                                    all.len() as int,
                                    **inner,
                                    catalog@,
                                );
                            }
                            return Err(error);
                        },
                    }
                    i = i + 1;
                }
                Ok(Value::List(flat))
            },
            _ => {
                assert(start + Seq::<EffectView>::empty() =~= start);
                Ok(value.copy())
            },
        },
        PropertyDefinition::Object => {
            if is_geometry_value(value) {
                assert(start + Seq::<EffectView>::empty() =~= start);
                Ok(value.copy())
            } else {
                match decompose_object(value, catalog, effects) {
                    Ok(flat) => match flat.get_text("id") {
                        Some(id) => Ok(Value::Text(String::from_str(id))),
                        None => Err(DecomposeError::MalformedObject),
                    },
                    Err(error) => Err(error),
                }
            }
        },
        PropertyDefinition::ExternalList => match value {
            Value::Text(url) => {
                let ghost one = Effect::Emit { url: *url }@;
                effects.push(Effect::Emit { url: url.clone() });
                assert(effects_view(effects@) =~= start + seq![one]);
                Ok(value.copy())
            },
            _ => {
                assert(start + Seq::<EffectView>::empty() =~= start);
                Err(DecomposeError::MalformedObject)
            },
        },
    }
}

/// Decomposes an object, and appends the effects to `effects`.
#[verifier::loop_isolation(false)]
fn decompose_object(object: &Value, catalog: &SchemaCatalog, effects: &mut Vec<Effect>) -> (r:
    Result<Value, DecomposeError>)
    ensures
        effects_view(final(effects)@) == effects_view(old(effects)@) + flatten_object(
            object@,
            catalog@,
        ).effects,
        match r {
            Ok(flat) => flatten_object(object@, catalog@).result == Ok::<Json, DecomposeError>(
                flat@,
            ),
            Err(error) => flatten_object(object@, catalog@).result == Err::<
                Json,
                DecomposeError,
            >(error),
        },
    decreases object, 0int, 0int,
{
    let ghost start = effects_view(effects@);
    assert(start + Seq::<EffectView>::empty() =~= start);
    match object {
        Value::Record(entries) => {
            let kind = match object.get_text("type") {
                Some(kind) => kind,
                None => {
                    return Err(DecomposeError::UnknownType);
                },
            };
            let name = take_last_segment(kind);
            let definition = match catalog.definition_for(name.as_str()) {
                Some(definition) => definition,
                None => {
                    return Err(DecomposeError::UnknownType);
                },
            };
            let ghost all = entries_view(entries@);
            let ghost properties = definition@.1;
            let mut flat: Vec<(String, Value)> = Vec::new();
            let mut i: usize = 0;
            assert(entries_view(flat@) =~= Seq::<(Seq<char>, Json)>::empty());
            while i < entries.len()
                invariant
                    i <= entries.len(),
                    flatten_entries(all, i as int, properties, catalog@).failure is None,
                    flatten_entries(all, i as int, properties, catalog@).entries == entries_view(
                        flat@,
                    ),
                    effects_view(effects@) == start + flatten_entries(
                        all,
                        i as int,
                        properties,
                        catalog@,
                    ).effects,
                decreases entries.len() - i,
            {
                let ghost before = flatten_entries(all, i as int, properties, catalog@);
                let ghost flat_before = entries_view(flat@);
                assert(all[i as int] == (entries@[i as int].0@, entries@[i as int].1@));
                match definition.property(entries[i].0.as_str()) {
                    None => {
                        let copy = entries[i].1.copy();
                        flat.push((entries[i].0.clone(), copy));
                        assert(entries_view(flat@) =~= flat_before.push(all[i as int]));
                    },
                    Some(property) => {
                        let ghost this = flatten_value(all[i as int].1, *property, catalog@);
                        match decompose_value(&entries[i].1, property, catalog, effects) {
                            Ok(value) => {
                                let ghost content = value@;
                                flat.push((entries[i].0.clone(), value));
                                assert(entries_view(flat@) =~= flat_before.push(
                                    (all[i as int].0, content),
                                ));
                                assert(start + (before.effects + this.effects) =~= (start
                                    + before.effects) + this.effects);
                            },
                            Err(error) => {
                                proof {
                                    assert(start + (before.effects + this.effects) =~= (start
                                        + before.effects) + this.effects);
                                    lemma_entries_failure_stays(
                                        all,
                                        i + 1,
                                        all.len() as int,
                                        properties,
                                        catalog@,
                                    );
                                }
                                return Err(error);
                            },
                        }
                    },
                }
                i = i + 1;
            }
            let flat = Value::Record(flat);
            let id = match flat.get_text("id") {
                Some(id) => String::from_str(id),
                None => {
                    return Err(DecomposeError::MalformedObject);
                },
            };
            let ghost before = effects_view(effects@);
            let ghost one = EffectView::Store { id: id@, object: flat@ };
            effects.push(Effect::Store { id, object: flat.copy() });
            assert(effects_view(effects@) =~= before.push(one));
            assert(start + flatten_entries(all, all.len() as int, properties, catalog@).effects.push(
                one,
            ) =~= before.push(one));
            Ok(flat)
        },
        _ => Err(DecomposeError::UnknownType),
    }
}

/// What came of decomposing an object.
#[derive(Debug, PartialEq, Eq)]
pub struct Decomposition {
    /// The effects, in the order in which they are to happen. After a
    /// failure these are the effects up to the failure.
    pub effects: Vec<Effect>,
    /// The flat object, or why there is none.
    pub result: Result<Value, DecomposeError>,
}

impl Decomposition {
    /// The content of a decomposition.
    pub open spec fn outcome(&self) -> Outcome {
        Outcome {
            result: match self.result {
                Ok(flat) => Ok(flat@),
                Err(error) => Err(error),
            },
            effects: effects_view(self.effects@),
        }
    }
}

/// Decomposes the value of a property under its definition.
pub fn decompose_entry(
    value: &Value,
    definition: &PropertyDefinition,
    catalog: &SchemaCatalog,
) -> (r: Decomposition)
    ensures
        r.outcome() == flatten_value(value@, *definition, catalog@),
{
    let mut effects: Vec<Effect> = Vec::new();
    assert(effects_view(effects@) =~= Seq::<EffectView>::empty());
    let result = decompose_value(value, definition, catalog, &mut effects);
    assert(Seq::<EffectView>::empty() + flatten_value(value@, *definition, catalog@).effects
        =~= flatten_value(value@, *definition, catalog@).effects);
    Decomposition { effects, result }
}

/// Decomposes an object against the catalog.
pub fn decompose(object: &Value, catalog: &SchemaCatalog) -> (r: Decomposition)
    ensures
        r.outcome() == flatten_object(object@, catalog@),
{
    let mut effects: Vec<Effect> = Vec::new();
    assert(effects_view(effects@) =~= Seq::<EffectView>::empty());
    let result = decompose_object(object, catalog, &mut effects);
    assert(Seq::<EffectView>::empty() + flatten_object(object@, catalog@).effects
        =~= flatten_object(object@, catalog@).effects);
    Decomposition { effects, result }
}

/// What becomes of one entry of a record whose entries all decompose.
pub open spec fn flat_entry(
    entry: (Seq<char>, Json),
    properties: Properties,
    catalog: CatalogView,
) -> (Seq<char>, Json) {
    match lookup(properties, entry.0) {
        None => entry,
        Some(definition) => (entry.0, flatten_value(entry.1, definition, catalog).result->Ok_0),
    }
}

/// Where the first `n` items decompose, each of them does, and the flat
/// items stand in their places.
pub proof fn lemma_items_pointwise(
    items: Seq<Json>,
    n: int,
    definition: PropertyDefinition,
    catalog: CatalogView,
)
    requires
        0 <= n <= items.len(),
        flatten_items(items, n, definition, catalog).failure is None,
    ensures
        flatten_items(items, n, definition, catalog).items.len() == n,
        forall|i: int|
            0 <= i < n ==> flatten_value(#[trigger] items[i], definition, catalog).result
                == Ok::<Json, DecomposeError>(
                flatten_items(items, n, definition, catalog).items[i],
            ),
    decreases n,
{
    if n > 0 {
        lemma_items_pointwise(items, n - 1, definition, catalog);
    }
}

/// Where the first `n` entries decompose, each defined one does, and the
/// flat entries stand in their places under their names.
pub proof fn lemma_entries_pointwise(
    entries: Seq<(Seq<char>, Json)>,
    n: int,
    properties: Properties,
    catalog: CatalogView,
)
    requires
        0 <= n <= entries.len(),
        flatten_entries(entries, n, properties, catalog).failure is None,
    ensures
        flatten_entries(entries, n, properties, catalog).entries.len() == n,
        forall|i: int|
            0 <= i < n ==> flatten_entries(entries, n, properties, catalog).entries[i]
                == flat_entry(#[trigger] entries[i], properties, catalog),
        forall|i: int|
            0 <= i < n && lookup(properties, (#[trigger] entries[i]).0) is Some ==> flatten_value(
                entries[i].1,
                lookup(properties, entries[i].0)->Some_0,
                catalog,
            ).result is Ok,
    decreases n,
{
    if n > 0 {
        lemma_entries_pointwise(entries, n - 1, properties, catalog);
    }
}

/// A geometry payload in the place of an embedded object stays as it is:
/// nothing is stored for it, and no id takes its place.
pub proof fn lemma_geometry_stays(value: Json, catalog: CatalogView)
    requires
        is_geometry(value),
    ensures
        flatten_value(value, PropertyDefinition::Object, catalog) == unchanged(value),
        flatten_value(value, PropertyDefinition::Object, catalog).effects.len() == 0,
{
}

/// In an object that decomposes, an entry that the type defines as an
/// embedded object and that holds a geometry payload is the same entry of
/// the flat object.
pub proof fn lemma_geometry_entry_stays(
    entries: Seq<(Seq<char>, Json)>,
    catalog: CatalogView,
    at: int,
)
    requires
        flatten_object(Json::Record(entries), catalog).result is Ok,
        0 <= at < entries.len(),
        is_geometry(entries[at].1),
        lookup(
            lookup(
                catalog,
                last_segment(Json::Record(entries).text_field("type"@)->Some_0),
            )->Some_0,
            entries[at].0,
        ) == Some(PropertyDefinition::Object),
    ensures
        flatten_object(Json::Record(entries), catalog).result->Ok_0 is Record,
        flatten_object(Json::Record(entries), catalog).result->Ok_0->Record_0.len()
            == entries.len(),
        flatten_object(Json::Record(entries), catalog).result->Ok_0->Record_0[at] == entries[at],
{
    let kind = Json::Record(entries).text_field("type"@)->Some_0;
    let properties = lookup(catalog, last_segment(kind))->Some_0;
    lemma_entries_pointwise(entries, entries.len() as int, properties, catalog);
}

/// Where a value decomposes and what comes of it decomposes again under the
/// same definition, the value was flat already.
pub proof fn lemma_value_flat_again(
    value: Json,
    definition: PropertyDefinition,
    catalog: CatalogView,
)
    requires
        flatten_value(value, definition, catalog).result is Ok,
        flatten_value(
            flatten_value(value, definition, catalog).result->Ok_0,
            definition,
            catalog,
        ).result is Ok,
    ensures
        flatten_value(value, definition, catalog).result->Ok_0 == value,
    decreases value,
{
    let flat = flatten_value(value, definition, catalog).result->Ok_0;
    match definition {
        PropertyDefinition::Scalar => {},
        PropertyDefinition::Array(inner) => match value {
            Json::List(items) => {
                let n = items.len() as int;
                let first = flatten_items(items, n, *inner, catalog);
                lemma_items_pointwise(items, n, *inner, catalog);
                assert(flat == Json::List(first.items));
                lemma_items_pointwise(first.items, n, *inner, catalog);
                assert forall|i: int| 0 <= i < n implies first.items[i] == items[i] by {
                    assert(flatten_value(items[i], *inner, catalog).result == Ok::<
                        Json,
                        DecomposeError,
                    >(first.items[i]));
                    assert(flatten_value(first.items[i], *inner, catalog).result is Ok);
                    lemma_value_flat_again(items[i], *inner, catalog);
                }
                assert(first.items =~= items);
            },
            _ => {},
        },
        PropertyDefinition::Object => {
            if !is_geometry(value) {
                let inner = flatten_object(value, catalog);
                let id = inner.result->Ok_0.text_field("id"@)->Some_0;
                assert(flat == Json::Text(id));
                assert(!is_geometry(flat));
                assert(flatten_object(flat, catalog).result is Err);
            }
        },
        PropertyDefinition::ExternalList => {},
    }
}

/// Where an object decomposes and the flat object decomposes again, the
/// object was flat already, so the second decomposition gives what the first
/// gave: the same flat object and the same effects.
pub proof fn lemma_decompose_idempotent(object: Json, catalog: CatalogView)
    requires
        flatten_object(object, catalog).result is Ok,
        flatten_object(flatten_object(object, catalog).result->Ok_0, catalog).result is Ok,
    ensures
        flatten_object(object, catalog).result->Ok_0 == object,
        flatten_object(flatten_object(object, catalog).result->Ok_0, catalog) == flatten_object(
            object,
            catalog,
        ),
{
    let flat = flatten_object(object, catalog).result->Ok_0;
    let entries = object->Record_0;
    let n = entries.len() as int;
    let kind = object.text_field("type"@)->Some_0;
    let properties = lookup(catalog, last_segment(kind))->Some_0;
    let first = flatten_entries(entries, n, properties, catalog);
    lemma_entries_pointwise(entries, n, properties, catalog);
    assert(flat == Json::Record(first.entries));
    assert forall|i: int| 0 <= i < n implies first.entries[i].0 == entries[i].0 by {
        assert(first.entries[i] == flat_entry(entries[i], properties, catalog));
    }
    lemma_same_keys_same_position(first.entries, entries, "type"@);
    let at = position(entries, "type"@);
    lemma_position(entries, "type"@);
    assert(entries[at].1 == Json::Text(kind));
    assert(first.entries[at] == flat_entry(entries[at], properties, catalog));
    assert(first.entries[at].1 == Json::Text(kind)) by {
        if lookup(properties, entries[at].0) is Some {
            let definition = lookup(properties, entries[at].0)->Some_0;
            assert(flatten_value(entries[at].1, definition, catalog).result is Ok);
            match definition {
                PropertyDefinition::Object => {
                    assert(!is_geometry(Json::Text(kind)));
                    assert(flatten_object(Json::Text(kind), catalog).result is Err);
                },
                _ => {},
            }
        }
    }
    assert(flat.text_field("type"@) == Some(kind));
    let second = flatten_entries(first.entries, n, properties, catalog);
    assert(second.failure is None);
    lemma_entries_pointwise(first.entries, n, properties, catalog);
    assert forall|i: int| 0 <= i < n implies first.entries[i] == entries[i] by {
        assert(first.entries[i] == flat_entry(entries[i], properties, catalog));
        if lookup(properties, entries[i].0) is Some {
            let definition = lookup(properties, entries[i].0)->Some_0;
            assert(flatten_value(entries[i].1, definition, catalog).result is Ok);
            assert(lookup(properties, first.entries[i].0) is Some);
            assert(flatten_value(first.entries[i].1, definition, catalog).result is Ok);
            lemma_value_flat_again(entries[i].1, definition, catalog);
        }
    }
    assert(first.entries =~= entries);
}

} // verus!
