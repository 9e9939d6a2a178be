//! The schema catalog: for each type of object, which of its properties are
//! plain values, lists, embedded objects or references to collections.

use vstd::prelude::*;
use vstd::string::*;
use crate::assoc::{lemma_position, lemma_position_is, lookup, position, put};
use crate::codec::{decode, decoded};
use crate::text::{is_text, same_text};
use crate::value::{entries_view, items_view, Json, Value};

verus! {

/// How many type definitions a complete schema holds.
pub const EXPECTED_TYPES: usize = 12;

/// What the schema says of one property.
#[derive(Debug, PartialEq, Eq)]
pub enum PropertyDefinition {
    /// A plain value, stored as it is.
    Scalar,
    /// A list, each of whose items falls under the definition inside.
    Array(Box<PropertyDefinition>),
    /// An object that is stored under its own id.
    Object,
    /// The URL of a paginated collection.
    ExternalList,
}

/// The four kinds of property.
#[derive(Debug, Clone, Copy, PartialEq, Eq)]
pub enum PropertyKind {
    Scalar,
    Array,
    Object,
    ExternalCollection,
}

/// The properties of one type, by name.
pub type Properties = Seq<(Seq<char>, PropertyDefinition)>;

/// The types of a catalog, by name.
pub type CatalogView = Seq<(Seq<char>, Properties)>;

/// One type of the schema: its name and what it says of its properties.
#[derive(Debug, PartialEq, Eq)]
pub struct TypeDefinition {
    pub name: String,
    pub properties: Vec<(String, PropertyDefinition)>,
}

/// The schema: the types that objects can have.
#[derive(Debug, PartialEq, Eq)]
pub struct SchemaCatalog {
    pub types: Vec<TypeDefinition>,
}

/// Why a schema could not be loaded.
#[derive(Debug, Clone, Copy, PartialEq, Eq)]
pub enum SchemaLoadFailure {
    /// A document is no JSON, or declares no title.
    Malformed,
    /// The documents do not define the expected number of types.
    Incomplete,
}

/// The properties of a list of definitions.
pub open spec fn properties_view(properties: Seq<(String, PropertyDefinition)>) -> Properties {
    Seq::new(properties.len(), |i: int| (properties[i].0@, properties[i].1))
}

/// The types of a list of type definitions.
pub open spec fn types_view(types: Seq<TypeDefinition>) -> CatalogView {
    Seq::new(types.len(), |i: int| (types[i].name@, properties_view(types[i].properties@)))
}

impl View for TypeDefinition {
    type V = (Seq<char>, Properties);

    open spec fn view(&self) -> (Seq<char>, Properties) {
        (self.name@, properties_view(self.properties@))
    }
}

impl View for SchemaCatalog {
    type V = CatalogView;

    open spec fn view(&self) -> CatalogView {
        types_view(self.types@)
    }
}

/// What a property definition of a schema document says: a list where its
/// `type` is `array`, with the definition under `items` for the items; an
/// embedded object where its `type` is `object`; a collection where it
/// `references` an `externalList`; a plain value in every other case.
pub open spec fn classify(definition: Json) -> PropertyDefinition
    decreases definition,
{
    if definition.text_field("type"@) == Some("array"@) {
        PropertyDefinition::Array(
            Box::new(
                match definition {
                    Json::Record(entries) => {
                        let at = position(entries, "items"@);
                        if 0 <= at < entries.len() {
                            classify(entries[at].1)
                        } else {
                            PropertyDefinition::Scalar
                        }
                    },
                    _ => PropertyDefinition::Scalar,
                },
            ),
        )
    } else if definition.text_field("type"@) == Some("object"@) {
        PropertyDefinition::Object
    } else if definition.text_field("references"@) == Some("externalList"@) {
        PropertyDefinition::ExternalList
    } else {
        PropertyDefinition::Scalar
    }
}

/// The definitions under `properties` in a type's document, classified.
pub open spec fn properties_of(document: Json) -> Properties {
    match document.field("properties"@) {
        Some(Json::Record(entries)) => Seq::new(
            entries.len(),
            |i: int| (entries[i].0, classify(entries[i].1)),
        ),
        _ => Seq::empty(),
    }
}

/// The catalog that a list of documents defines, each under its `title`, a
/// later document taking the place of an earlier one of the same title; or
/// nothing where a document has no title.
pub open spec fn catalog_of(documents: Seq<Json>) -> Option<CatalogView>
    decreases documents.len(),
{
    if documents.len() == 0 {
        Some(Seq::empty())
    } else {
        match (catalog_of(documents.drop_last()), documents.last().text_field("title"@)) {
            (Some(catalog), Some(title)) => Some(
                put(catalog, title, properties_of(documents.last())),
            ),
            _ => None,
        }
    }
}

/// What loading a list of documents gives.
pub open spec fn loaded(documents: Seq<Json>, expected: int) -> Result<
    CatalogView,
    SchemaLoadFailure,
> {
    match catalog_of(documents) {
        None => Err(SchemaLoadFailure::Malformed),
        Some(catalog) => if catalog.len() == expected {
            Ok(catalog)
        } else {
            Err(SchemaLoadFailure::Incomplete)
        },
    }
}

/// The documents that a list of texts holds, or nothing where one of them is
/// no JSON.
pub open spec fn documents_of(texts: Seq<Seq<char>>) -> Option<Seq<Json>>
    decreases texts.len(),
{
    if texts.len() == 0 {
        Some(Seq::empty())
    } else {
        match (documents_of(texts.drop_last()), decoded(texts.last())) {
            (Some(documents), Some(document)) => Some(documents.push(document)),
            _ => None,
        }
    }
}

impl PropertyDefinition {
    /// The kind of this definition.
    pub open spec fn kind_of(self) -> PropertyKind {
        match self {
            PropertyDefinition::Scalar => PropertyKind::Scalar,
            PropertyDefinition::Array(_) => PropertyKind::Array,
            PropertyDefinition::Object => PropertyKind::Object,
            PropertyDefinition::ExternalList => PropertyKind::ExternalCollection,
        }
    }

    /// The kind of this definition.
    pub fn kind(&self) -> (k: PropertyKind)
        ensures
            k == self.kind_of(),
    {
        match self {
            PropertyDefinition::Scalar => PropertyKind::Scalar,
            PropertyDefinition::Array(_) => PropertyKind::Array,
            PropertyDefinition::Object => PropertyKind::Object,
            PropertyDefinition::ExternalList => PropertyKind::ExternalCollection,
        }
    }

    /// A copy of this definition.
    pub fn copy(&self) -> (r: PropertyDefinition)
        ensures
            r == *self,
        decreases self,
    {
        match self {
            PropertyDefinition::Scalar => PropertyDefinition::Scalar,
            PropertyDefinition::Array(inner) => PropertyDefinition::Array(Box::new(inner.copy())),
            PropertyDefinition::Object => PropertyDefinition::Object,
            PropertyDefinition::ExternalList => PropertyDefinition::ExternalList,
        }
    }

    /// Reads one property definition of a schema document.
    pub fn from_schema(definition: &Value) -> (r: PropertyDefinition)
        ensures
            r == classify(definition@),
        decreases definition,
    {
        if is_text(definition.get_text("type"), "array") {
            let inner = match definition.get("items") {
                Some(items) => PropertyDefinition::from_schema(items),
                None => PropertyDefinition::Scalar,
            };
            proof {
                lemma_position(definition@->Record_0, "items"@);
            }
            PropertyDefinition::Array(Box::new(inner))
        } else if is_text(definition.get_text("type"), "object") {
            PropertyDefinition::Object
        } else if is_text(definition.get_text("references"), "externalList") {
            PropertyDefinition::ExternalList
        } else {
            PropertyDefinition::Scalar
        }
    }
}

impl TypeDefinition {
    /// What this type says of the property `name`, if anything.
    pub fn property(&self, name: &str) -> (r: Option<&PropertyDefinition>)
        ensures
            r == match lookup(self@.1, name@) {
                Some(d) => Some(&d),
                None => None,
            },
    {
        let mut i: usize = 0;
        while i < self.properties.len()
            invariant
                i <= self.properties.len(),
                forall|j: int| 0 <= j < i ==> self.properties@[j].0@ != name@,
            decreases self.properties.len() - i,
        {
            if same_text(self.properties[i].0.as_str(), name) {
                proof {
                    lemma_position_is(self@.1, name@, i as int);
                }
                return Some(&self.properties[i].1);
            }
            i = i + 1;
        }
        proof {
            lemma_position_is(self@.1, name@, self.properties@.len() as int);
        }
        None
    }

    /// Reads the document of one type: its `title` is the type's name, and
    /// the definitions under `properties` are classified.
    #[verifier::loop_isolation(false)]
    pub fn from_document(document: &Value) -> (r: Option<TypeDefinition>)
        ensures
            match r {
                Some(t) => document@.text_field("title"@) == Some(t@.0) && t@.1 == properties_of(
                    document@,
                ),
                None => document@.text_field("title"@).is_none(),
            },
    {
        let name = match document.get_text("title") {
            Some(title) => String::from_str(title),
            None => {
                return None;
            },
        };
        let mut properties: Vec<(String, PropertyDefinition)> = Vec::new();
        match document.get("properties") {
            Some(Value::Record(entries)) => {
                let mut i: usize = 0;
                while i < entries.len()
                    invariant
                        i <= entries.len(),
                        properties.len() == i,
                        forall|j: int|
                            0 <= j < i ==> properties@[j].0@ == entries@[j].0@ && properties@[j].1
                                == classify(entries@[j].1@),
                    decreases entries.len() - i,
                {
                    let definition = PropertyDefinition::from_schema(&entries[i].1);
                    properties.push((entries[i].0.clone(), definition));
                    i = i + 1;
                }
                proof {
                    let view = entries_view(entries@);
                    assert(document@.field("properties"@) == Some(Json::Record(view)));
                    assert forall|j: int| 0 <= j < view.len() implies properties_view(
                        properties@,
                    )[j] == (view[j].0, classify(view[j].1)) by {
                        assert(view[j] == (entries@[j].0@, entries@[j].1@));
                    }
                    assert(properties_view(properties@) =~= properties_of(document@));
                }
            },
            _ => {
                assert(properties_view(properties@) =~= properties_of(document@));
            },
        }
        Some(TypeDefinition { name, properties })
    }
}

impl SchemaCatalog {
    /// A catalog without types.
    pub fn new() -> (r: SchemaCatalog)
        ensures
            r@ == Seq::<(Seq<char>, Properties)>::empty(),
    {
        let r = SchemaCatalog { types: Vec::new() };
        assert(r@ =~= Seq::<(Seq<char>, Properties)>::empty());
        r
    }

    /// The number of types in the catalog.
    pub fn len(&self) -> (n: usize)
        ensures
            n == self@.len(),
    {
        self.types.len()
    }

    /// The place of the type `name`, or the number of types where the
    /// catalog has none of that name.
    fn find(&self, name: &str) -> (at: usize)
        ensures
            at == position(self@, name@),
            at <= self.types.len(),
    {
        let mut i: usize = 0;
        while i < self.types.len()
            invariant
                i <= self.types.len(),
                forall|j: int| 0 <= j < i ==> self.types@[j].name@ != name@,
            decreases self.types.len() - i,
        {
            if same_text(self.types[i].name.as_str(), name) {
                proof {
                    lemma_position_is(self@, name@, i as int);
                }
                return i;
            }
            i = i + 1;
        }
        proof {
            lemma_position_is(self@, name@, self.types@.len() as int);
        }
        i
    }

    /// The definition of the type `name`, where the catalog has one.
    pub fn definition_for(&self, name: &str) -> (r: Option<&TypeDefinition>)
        ensures
            match r {
                Some(t) => lookup(self@, name@) == Some(t@.1) && t@.0 == name@,
                None => lookup(self@, name@).is_none(),
            },
    {
        let at = self.find(name);
        if at < self.types.len() {
            proof {
                lemma_position(self@, name@);
            }
            Some(&self.types[at])
        } else {
            None
        }
    }

    /// Puts a type into the catalog: in the place of the type of the same
    /// name, or at the end where there is none.
    pub fn define(&mut self, definition: TypeDefinition)
        ensures
            final(self)@ == put(old(self)@, definition@.0, definition@.1),
    {
        let at = self.find(definition.name.as_str());
        let ghost before = self@;
        let ghost entry = definition@;
        if at < self.types.len() {
            self.types.set(at, definition);
            assert(self@ =~= before.update(at as int, entry));
        } else {
            self.types.push(definition);
            assert(self@ =~= before.push(entry));
        }
    }

    /// Builds the catalog from the documents of the types. Fails where a
    /// document has no title, or where the number of types defined is not
    /// the expected one.
    pub fn load(documents: &Vec<Value>, expected: usize) -> (r: Result<
        SchemaCatalog,
        SchemaLoadFailure,
    >)
        ensures
            match r {
                Ok(catalog) => loaded(items_view(documents@), expected as int) == Ok::<
                    CatalogView,
                    SchemaLoadFailure,
                >(catalog@),
                Err(e) => loaded(items_view(documents@), expected as int) == Err::<
                    CatalogView,
                    SchemaLoadFailure,
                >(e),
            },
    {
        let mut catalog = SchemaCatalog::new();
        let ghost all = items_view(documents@);
        let mut i: usize = 0;
        assert(all.take(0) =~= Seq::<Json>::empty());
        while i < documents.len()
            invariant
                i <= documents.len(),
                all == items_view(documents@),
                catalog_of(all.take(i as int)) == Some(catalog@),
            decreases documents.len() - i,
        {
            proof {
                assert(all.take(i + 1).drop_last() =~= all.take(i as int));
                assert(all.take(i + 1).last() == documents@[i as int]@);
            }
            match TypeDefinition::from_document(&documents[i]) {
                Some(definition) => {
                    catalog.define(definition);
                },
                None => {
                    proof {
                        lemma_catalog_of_fails(all, i + 1);
                    }
                    return Err(SchemaLoadFailure::Malformed);
                },
            }
            i = i + 1;
        }
        assert(all.take(i as int) =~= all);
        if catalog.len() == expected {
            Ok(catalog)
        } else {
            Err(SchemaLoadFailure::Incomplete)
        }
    }

    /// Builds the catalog from the texts of the documents. Fails where a
    /// text is no JSON, and where `load` fails on the documents.
    pub fn from_texts(texts: &Vec<String>, expected: usize) -> (r: Result<
        SchemaCatalog,
        SchemaLoadFailure,
    >)
        ensures
            match documents_of(texts.deep_view()) {
                None => r == Err::<SchemaCatalog, SchemaLoadFailure>(SchemaLoadFailure::Malformed),
                Some(documents) => match r {
                    Ok(catalog) => loaded(documents, expected as int) == Ok::<
                        CatalogView,
                        SchemaLoadFailure,
                    >(catalog@),
                    Err(e) => loaded(documents, expected as int) == Err::<
                        CatalogView,
                        SchemaLoadFailure,
                    >(e),
                },
            },
    {
        let mut documents: Vec<Value> = Vec::new();
        let ghost all = texts.deep_view();
        let mut i: usize = 0;
        assert(all.take(0) =~= Seq::<Seq<char>>::empty());
        assert(items_view(documents@) =~= Seq::<Json>::empty());
        while i < texts.len()
            invariant
                i <= texts.len(),
                all == texts.deep_view(),
                documents_of(all.take(i as int)) == Some(items_view(documents@)),
            decreases texts.len() - i,
        {
            proof {
                assert(all.take(i + 1).drop_last() =~= all.take(i as int));
                assert(all.take(i + 1).last() == texts@[i as int]@);
            }
            let ghost before = items_view(documents@);
            match decode(texts[i].as_str()) {
                Some(document) => {
                    let ghost content = document@;
                    documents.push(document);
                    assert(items_view(documents@) =~= before.push(content));
                },
                None => {
                    proof {
                        lemma_documents_of_fails(all, i + 1);
                    }
                    return Err(SchemaLoadFailure::Malformed);
                },
            }
            i = i + 1;
        }
        assert(all.take(i as int) =~= all);
        SchemaCatalog::load(&documents, expected)
    }
}

/// Where the first `n` documents define no catalog, all of them define none.
proof fn lemma_catalog_of_fails(documents: Seq<Json>, n: int)
    requires
        0 <= n <= documents.len(),
        catalog_of(documents.take(n)).is_none(),
    ensures
        catalog_of(documents).is_none(),
    decreases documents.len() - n,
{
    if n < documents.len() {
        assert(documents.take(n + 1).drop_last() =~= documents.take(n));
        lemma_catalog_of_fails(documents, n + 1);
    } else {
        assert(documents.take(n) =~= documents);
    }
}

/// Where one of the first `n` texts is no JSON, the texts hold no list of
/// documents.
proof fn lemma_documents_of_fails(texts: Seq<Seq<char>>, n: int)
    requires
        0 <= n <= texts.len(),
        documents_of(texts.take(n)).is_none(),
    ensures
        documents_of(texts).is_none(),
    decreases texts.len() - n,
{
    if n < texts.len() {
        assert(texts.take(n + 1).drop_last() =~= texts.take(n));
        lemma_documents_of_fails(texts, n + 1);
    } else {
        assert(texts.take(n) =~= texts);
    }
}

} // verus!
