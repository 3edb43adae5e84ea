//! Data sources, the entities they hold and the fields of the entities.

use crate::error::PGError;
use crate::name_index::NameIndex;
use crate::parse::common::DataType;
use crate::text::{copy_optional, lemma_flatten_step, optional};
use vstd::prelude::*;

verus! {

/// The data of a project: its data sources and what they hold.
#[derive(Debug)]
pub struct DataDefinition {
    pub datasources: Vec<DataSource>,
    /// The entities of all data sources, found by name.
    pub entity_ref: NameIndex<Entity>,
}

/// A database and the entities kept in it.
#[derive(Debug, Clone)]
pub struct DataSource {
    pub host: String,
    pub port: u16,
    pub username: String,
    pub password: String,
    pub database: String,
    pub entities: Vec<Entity>,
}

/// An entity: a table and its fields. Fields of other entities refer to it by
/// its name.
#[derive(Debug, Clone)]
pub struct Entity {
    pub name: String,
    pub table: String,
    pub fields: Vec<Field>,
}

/// A field of an entity.
#[derive(Debug, Clone)]
pub struct Field {
    pub name: String,
    pub column: String,
    pub field_type: DataType,
    pub reference: Option<String>,
    pub list: Option<TypeList>,
}

/// The elements of a list: values of a type, or entities of a name.
#[derive(Debug, Clone)]
pub struct TypeList {
    pub list_type: DataType,
    pub ref_type: Option<String>,
}

/// The mathematical content of a `TypeList`.
pub struct TypeListView {
    pub list_type: DataType,
    pub ref_type: Option<Seq<char>>,
}

/// The mathematical content of a `Field`.
pub struct FieldView {
    pub name: Seq<char>,
    pub column: Seq<char>,
    pub field_type: DataType,
    pub reference: Option<Seq<char>>,
    pub list: Option<TypeListView>,
}

/// The mathematical content of an `Entity`.
pub struct EntityView {
    pub name: Seq<char>,
    pub table: Seq<char>,
    pub fields: Seq<FieldView>,
}

impl View for TypeList {
    type V = TypeListView;

    open spec fn view(&self) -> TypeListView {
        TypeListView { list_type: self.list_type, ref_type: optional(self.ref_type) }
    }
}

impl View for Field {
    type V = FieldView;

    open spec fn view(&self) -> FieldView {
        FieldView {
            name: self.name@,
            column: self.column@,
            field_type: self.field_type,
            reference: optional(self.reference),
            list: match self.list {
                Some(l) => Some(l@),
                None => None,
            },
        }
    }
}

impl DeepView for Field {
    type V = FieldView;

    open spec fn deep_view(&self) -> FieldView {
        self.view()
    }
}

impl View for Entity {
    type V = EntityView;

    open spec fn view(&self) -> EntityView {
        EntityView { name: self.name@, table: self.table@, fields: self.fields.deep_view() }
    }
}

impl DeepView for Entity {
    type V = EntityView;

    open spec fn deep_view(&self) -> EntityView {
        self.view()
    }
}

/// The entities of a data source.
pub open spec fn entities_of(source: DataSource) -> Seq<EntityView> {
    source.entities.deep_view()
}

/// The entities of the data sources, source by source.
pub open spec fn all_entities(sources: Seq<DataSource>) -> Seq<EntityView> {
    sources.map_values(|s: DataSource| entities_of(s)).flatten()
}

/// `base` with each of `entities` put under its name, one after another: of
/// two entities with the same name the later one stays.
pub open spec fn indexed(base: Map<Seq<char>, EntityView>, entities: Seq<EntityView>) -> Map<
    Seq<char>,
    EntityView,
>
    decreases entities.len(),
{
    if entities.len() == 0 {
        base
    } else {
        indexed(base, entities.drop_last()).insert(entities.last().name, entities.last())
    }
}

/// Entities put under their names in two parts are put there as a whole.
pub(crate) proof fn lemma_indexed_concat(
    base: Map<Seq<char>, EntityView>,
    first: Seq<EntityView>,
    second: Seq<EntityView>,
)
    ensures
        indexed(base, first + second) == indexed(indexed(base, first), second),
    decreases second.len(),
{
    if second.len() == 0 {
        assert(first + second =~= first);
    } else {
        lemma_indexed_concat(base, first, second.drop_last());
        assert((first + second).drop_last() =~= first + second.drop_last());
        assert((first + second).last() == second.last());
    }
}

/// The port of a database where none is given.
pub fn default_port() -> (port: u16)
    ensures
        port == 3306,
{
    3306
}

/// The host of a database where none is given.
pub fn default_host() -> (host: String)
    ensures
        host@ == "127.0.0.1"@,
{
    "127.0.0.1".to_owned()
}

impl TypeList {
    /// A copy of these elements.
    pub fn duplicate(&self) -> (copy: TypeList)
        ensures
            copy@ == self@,
    {
        TypeList { list_type: self.list_type, ref_type: copy_optional(&self.ref_type) }
    }
}

impl Field {
    /// A copy of this field.
    pub fn duplicate(&self) -> (copy: Field)
        ensures
            copy@ == self@,
    {
        Field {
            name: self.name.clone(),
            column: self.column.clone(),
            field_type: self.field_type,
            reference: copy_optional(&self.reference),
            list: match &self.list {
                Some(l) => Some(l.duplicate()),
                None => None,
            },
        }
    }
}

impl Entity {
    /// A copy of this entity.
    pub fn duplicate(&self) -> (copy: Entity)
        ensures
            copy@ == self@,
    {
        let mut fields: Vec<Field> = Vec::new();
        let mut i: usize = 0;
        while i < self.fields.len()
            invariant
                i <= self.fields.len(),
                fields.deep_view() == self.fields.deep_view().take(i as int),
            decreases self.fields.len() - i,
        {
            let ghost before = fields.deep_view();
            fields.push(self.fields[i].duplicate());
            proof {
                assert(fields.deep_view() =~= before.push(self.fields@[i as int]@));
                assert(self.fields.deep_view().take(i + 1) =~= self.fields.deep_view().take(
                    i as int,
                ).push(self.fields@[i as int]@));
            }
            i = i + 1;
        }
        proof {
            assert(self.fields.deep_view().take(self.fields.len() as int)
                =~= self.fields.deep_view());
        }
        Entity { name: self.name.clone(), table: self.table.clone(), fields }
    }
}

impl DataDefinition {
    /// Puts the entities of `source` under their names.
    fn index_source(&mut self, source: &DataSource)
        ensures
            final(self).entity_ref@ == indexed(old(self).entity_ref@, entities_of(*source)),
            final(self).datasources == old(self).datasources,
    {
        let ghost all = entities_of(*source);
        let ghost base = self.entity_ref@;
        let mut i: usize = 0;
        proof {
            assert(all.take(0) =~= Seq::<EntityView>::empty());
        }
        while i < source.entities.len()
            invariant
                i <= source.entities.len(),
                all == source.entities.deep_view(),
                self.datasources == old(self).datasources,
                self.entity_ref@ == indexed(base, all.take(i as int)),
            decreases source.entities.len() - i,
        {
            proof {
                assert(all.take(i + 1).drop_last() =~= all.take(i as int));
                assert(all.take(i + 1).last() == source.entities@[i as int]@);
            }
            self.entity_ref.insert(source.entities[i].name.clone(), source.entities[i].duplicate());
            i = i + 1;
        }
        proof {
            assert(all.take(source.entities.len() as int) =~= all);
        }
    }

    /// Puts the entities of every data source under their names, so that
    /// they are found when a field refers to them.
    pub fn check(&mut self) -> (r: Result<(), PGError>)
        ensures
            r is Ok,
            final(self).entity_ref@ == indexed(
                old(self).entity_ref@,
                all_entities(old(self).datasources@),
            ),
            final(self).datasources == old(self).datasources,
    {
        let ghost base = self.entity_ref@;
        let ghost sources = self.datasources@;
        let ghost each = sources.map_values(|s: DataSource| entities_of(s));
        let mut sources_taken: Vec<DataSource> = Vec::new();
        std::mem::swap(&mut sources_taken, &mut self.datasources);
        let mut i: usize = 0;
        proof {
            assert(each.take(0) =~= Seq::<Seq<EntityView>>::empty());
        }
        while i < sources_taken.len()
            invariant
                i <= sources_taken.len(),
                sources == sources_taken@,
                each == sources.map_values(|s: DataSource| entities_of(s)),
                self.entity_ref@ == indexed(base, each.take(i as int).flatten()),
            decreases sources_taken.len() - i,
        {
            let ghost before = each.take(i as int).flatten();
            self.index_source(&sources_taken[i]);
            proof {
                lemma_flatten_step(each, i as int);
                lemma_indexed_concat(base, before, each[i as int]);
            }
            i = i + 1;
        }
        proof {
            assert(each.take(sources_taken.len() as int) =~= each);
        }
        self.datasources = sources_taken;
        Ok(())
    }
}

} // verus!
