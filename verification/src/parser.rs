//! The description of a project: where it lives, the data it works on and
//! the interfaces it offers.

use crate::error::PGError;
use crate::name_index::NameIndex;
use crate::text::{copy_optional, optional};
use vstd::prelude::*;

verus! {

/// What a piece of data is for.
#[derive(Debug, Clone, Copy, PartialEq, Eq, Structural)]
pub enum DataKind {
    Db,
    Dto,
}

/// The type of a property or of a parameter.
#[derive(Debug, Clone, Copy, PartialEq, Eq, Structural)]
pub enum DataType {
    Id,
    String,
    Byte,
    Short,
    Int,
    Long,
    Float,
    Double,
    Bool,
    DateTime,
    Object,
}

/// The description of a project.
#[derive(Debug)]
pub struct Parser {
    pub project: String,
    pub dir: Option<String>,
    pub base_package: String,
    pub group: Option<String>,
    pub git: String,
    pub data_source: Option<DataSource>,
    pub data: Option<Vec<Data>>,
    pub api: Vec<Api>,
    /// The data of the project, found by name.
    pub data_ref: NameIndex<Data>,
}

/// The database of a project.
#[derive(Debug, Clone)]
pub struct DataSource {
    pub ip: String,
    pub port: u16,
    pub username: String,
    pub password: String,
    pub database: String,
}

/// A piece of data: an entity of the database or an object that is handed
/// around. Other parts of the project refer to it by its name.
#[derive(Debug, Clone)]
pub struct Data {
    pub name: String,
    pub kind: DataKind,
    pub table: Option<String>,
    pub props: Vec<DataProp>,
}

/// A property of a piece of data. Of its type, its reference and its list at
/// most one is given.
#[derive(Debug, Clone)]
pub struct DataProp {
    pub name: String,
    pub prop_type: Option<DataType>,
    pub db: Option<String>,
    pub reference: Option<String>,
    pub list: Option<TypeList>,
}

/// The elements of a list: values of a type, or pieces of data of a name.
#[derive(Debug, Clone)]
pub struct TypeList {
    pub list_type: Option<DataType>,
    pub ref_type: Option<String>,
}

/// An interface of the project.
#[derive(Debug, Clone)]
pub struct Api {
    pub name: String,
    pub base_url: Option<String>,
    pub requests: Vec<ApiRequest>,
}

/// A request that an interface answers.
#[derive(Debug, Clone)]
pub struct ApiRequest {
    pub name: String,
    pub method: String,
    pub path: Option<String>,
    pub params: Option<Vec<ApiRequestParamter>>,
}

/// A parameter of a request.
#[derive(Debug, Clone)]
pub struct ApiRequestParamter {
    pub name: Option<String>,
    pub param_type: Option<DataType>,
    pub path_variable: Option<String>,
    pub reference: Option<String>,
    pub list: Option<TypeList>,
}

/// The mathematical content of a `TypeList`.
pub struct TypeListView {
    pub list_type: Option<DataType>,
    pub ref_type: Option<Seq<char>>,
}

/// The mathematical content of a `DataProp`.
pub struct DataPropView {
    pub name: Seq<char>,
    pub prop_type: Option<DataType>,
    pub db: Option<Seq<char>>,
    pub reference: Option<Seq<char>>,
    pub list: Option<TypeListView>,
}

/// The mathematical content of a `Data`.
pub struct DataView {
    pub name: Seq<char>,
    pub kind: DataKind,
    pub table: Option<Seq<char>>,
    pub props: Seq<DataPropView>,
}

impl View for TypeList {
    type V = TypeListView;

    open spec fn view(&self) -> TypeListView {
        TypeListView { list_type: self.list_type, ref_type: optional(self.ref_type) }
    }
}

impl View for DataProp {
    type V = DataPropView;

    open spec fn view(&self) -> DataPropView {
        DataPropView {
            name: self.name@,
            prop_type: self.prop_type,
            db: optional(self.db),
            reference: optional(self.reference),
            list: match self.list {
                Some(l) => Some(l@),
                None => None,
            },
        }
    }
}

impl DeepView for DataProp {
    type V = DataPropView;

    open spec fn deep_view(&self) -> DataPropView {
        self.view()
    }
}

impl View for Data {
    type V = DataView;

    open spec fn view(&self) -> DataView {
        DataView {
            name: self.name@,
            kind: self.kind,
            table: optional(self.table),
            props: self.props.deep_view(),
        }
    }
}

impl DeepView for Data {
    type V = DataView;

    open spec fn deep_view(&self) -> DataView {
        self.view()
    }
}

/// The port of a database where none is given.
pub fn default_port() -> (port: u16)
    ensures
        port == 3306,
{
    3306
}

/// `base` with each piece of `data` put under its name, one after another:
/// of two pieces with the same name the later one stays.
pub open spec fn indexed(base: Map<Seq<char>, DataView>, data: Seq<DataView>) -> Map<
    Seq<char>,
    DataView,
>
    decreases data.len(),
{
    if data.len() == 0 {
        base
    } else {
        indexed(base, data.drop_last()).insert(data.last().name, data.last())
    }
}

/// The pieces of data that a project describes.
pub open spec fn described(data: Option<Vec<Data>>) -> Seq<DataView> {
    match data {
        Some(list) => list.deep_view(),
        None => Seq::empty(),
    }
}

impl TypeList {
    /// A copy of these elements.
    pub fn duplicate(&self) -> (copy: TypeList)
        ensures
            copy@ == self@,
    {
        TypeList { list_type: self.list_type, ref_type: copy_optional(&self.ref_type) }
    }
}

impl DataProp {
    /// A copy of this property.
    pub fn duplicate(&self) -> (copy: DataProp)
        ensures
            copy@ == self@,
    {
        DataProp {
            name: self.name.clone(),
            prop_type: self.prop_type,
            db: copy_optional(&self.db),
            reference: copy_optional(&self.reference),
            list: match &self.list {
                Some(l) => Some(l.duplicate()),
                None => None,
            },
        }
    }
}

impl Data {
    /// A copy of this piece of data.
    pub fn duplicate(&self) -> (copy: Data)
        ensures
            copy@ == self@,
    {
        let mut props: Vec<DataProp> = Vec::new();
        let mut i: usize = 0;
        while i < self.props.len()
            invariant
                i <= self.props.len(),
                props.deep_view() == self.props.deep_view().take(i as int),
            decreases self.props.len() - i,
        {
            let ghost before = props.deep_view();
            props.push(self.props[i].duplicate());
            proof {
                assert(props.deep_view() =~= before.push(self.props@[i as int]@));
                assert(self.props.deep_view().take(i + 1) =~= self.props.deep_view().take(
                    i as int,
                ).push(self.props@[i as int]@));
            }
            i = i + 1;
        }
        proof {
            assert(self.props.deep_view().take(self.props.len() as int) =~= self.props.deep_view());
        }
        Data {
            name: self.name.clone(),
            kind: self.kind,
            table: copy_optional(&self.table),
            props,
        }
    }
}

impl Parser {
    /// Whether this description says what `other` says, whatever the two
    /// hold in their indexes.
    pub open spec fn describes_as(&self, other: &Parser) -> bool {
        &&& self.project == other.project
        &&& self.dir == other.dir
        &&& self.base_package == other.base_package
        &&& self.group == other.group
        &&& self.git == other.git
        &&& self.data_source == other.data_source
        &&& self.data == other.data
        &&& self.api == other.api
    }

    /// Puts every piece of data of the project under its name, so that it is
    /// found when another part of the project refers to it.
    pub fn check(&mut self) -> (r: Result<(), PGError>)
        ensures
            r is Ok,
            final(self).data_ref@ == indexed(old(self).data_ref@, described(old(self).data)),
            final(self).describes_as(old(self)),
    {
        let ghost all = described(self.data);
        let ghost base = self.data_ref@;
        match &self.data {
            Some(data) => {
                let mut i: usize = 0;
                proof {
                    assert(all.take(0) =~= Seq::<DataView>::empty());
                }
                while i < data.len()
                    invariant
                        i <= data.len(),
                        all == data.deep_view(),
                        self.describes_as(old(self)),
                        self.data_ref@ == indexed(base, all.take(i as int)),
                    decreases data.len() - i,
                {
                    proof {
                        assert(all.take(i + 1).drop_last() =~= all.take(i as int));
                        assert(all.take(i + 1).last() == data@[i as int]@);
                    }
                    self.data_ref.insert(data[i].name.clone(), data[i].duplicate());
                    i = i + 1;
                }
                proof {
                    assert(all.take(data.len() as int) =~= all);
                }
            },
            None => {},
        }
        Ok(())
    }
}

} // verus!
