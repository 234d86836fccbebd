//! The schema that a text describes: type aliases, tables and ratios.

use crate::error::ReferenceError;
use crate::text::str_eq;
use vstd::prelude::*;

verus! {

/// What qualifies a base type or a ratio: one number, or a range whose two
/// ends are kept in the order in which they were written.
#[derive(Clone, Copy, Debug, PartialEq, Eq, Structural)]
pub enum Specifier {
    Const(u32),
    Range(u32, u32),
}

/// The type of a property.
#[derive(Debug, PartialEq)]
pub enum DataType {
    Int(Specifier),
    GUIDv4,
    FirstName,
    LastName,
    CountryISO,
    PhoneNo,
    Email,
    String(Specifier),
    /// A reference to the primary key of a table declared earlier:
    /// `table` is the index of that table in [`Schema::tables`], `property`
    /// the name of its primary-key property.
    ForeignKey { table: usize, property: String },
}

/// A name bound to a type, to be used in place of the type.
#[derive(Debug, PartialEq)]
pub struct TypeDef {
    pub name: String,
    pub data_type: DataType,
}

/// A named, typed field of a table.
#[derive(Debug, PartialEq)]
pub struct Property {
    pub name: String,
    pub data_type: DataType,
}

/// A named record type. `primary_key` is a copy of the one property that
/// carried the primary-key marker; that property is among `properties` too.
#[derive(Debug, PartialEq)]
pub struct Table {
    pub name: String,
    pub primary_key: Property,
    pub properties: Vec<Property>,
}

/// How many rows of `first` there are, or, with a second table, how many rows
/// of `second` there are for each row of `first`.
#[derive(Debug, PartialEq)]
pub struct Ratio {
    pub first: Table,
    pub second: Option<Table>,
    pub ratio: Specifier,
}

/// Everything that one schema text declares, in the order of declaration.
#[derive(Debug, PartialEq)]
pub struct Schema {
    pub type_defs: Vec<TypeDef>,
    pub ratios: Vec<Ratio>,
    pub tables: Vec<Table>,
}

/// [`DataType`] as a mathematical value.
pub enum DataTypeView {
    Int(Specifier),
    GUIDv4,
    FirstName,
    LastName,
    CountryISO,
    PhoneNo,
    Email,
    String(Specifier),
    ForeignKey { table: nat, property: Seq<char> },
}

/// [`TypeDef`] as a mathematical value.
pub struct TypeDefView {
    pub name: Seq<char>,
    pub data_type: DataTypeView,
}

/// [`Property`] as a mathematical value.
pub struct PropertyView {
    pub name: Seq<char>,
    pub data_type: DataTypeView,
}

/// [`Table`] as a mathematical value.
pub struct TableView {
    pub name: Seq<char>,
    pub primary_key: PropertyView,
    pub properties: Seq<PropertyView>,
}

/// [`Ratio`] as a mathematical value.
pub struct RatioView {
    pub first: TableView,
    pub second: Option<TableView>,
    pub ratio: Specifier,
}

/// [`Schema`] as a mathematical value.
pub struct SchemaView {
    pub type_defs: Seq<TypeDefView>,
    pub ratios: Seq<RatioView>,
    pub tables: Seq<TableView>,
}

impl View for DataType {
    type V = DataTypeView;

    open spec fn view(&self) -> DataTypeView {
        match self {
            DataType::Int(s) => DataTypeView::Int(*s),
            DataType::GUIDv4 => DataTypeView::GUIDv4,
            DataType::FirstName => DataTypeView::FirstName,
            DataType::LastName => DataTypeView::LastName,
            DataType::CountryISO => DataTypeView::CountryISO,
            DataType::PhoneNo => DataTypeView::PhoneNo,
            DataType::Email => DataTypeView::Email,
            DataType::String(s) => DataTypeView::String(*s),
            DataType::ForeignKey { table, property } => DataTypeView::ForeignKey {
                table: *table as nat,
                property: property@,
            },
        }
    }
}

impl DeepView for DataType {
    type V = DataTypeView;

    open spec fn deep_view(&self) -> DataTypeView {
        self@
    }
}

impl View for TypeDef {
    type V = TypeDefView;

    open spec fn view(&self) -> TypeDefView {
        TypeDefView { name: self.name@, data_type: self.data_type@ }
    }
}

impl DeepView for TypeDef {
    type V = TypeDefView;

    open spec fn deep_view(&self) -> TypeDefView {
        self@
    }
}

impl View for Property {
    type V = PropertyView;

    open spec fn view(&self) -> PropertyView {
        PropertyView { name: self.name@, data_type: self.data_type@ }
    }
}

impl DeepView for Property {
    type V = PropertyView;

    open spec fn deep_view(&self) -> PropertyView {
        self@
    }
}

impl View for Table {
    type V = TableView;

    open spec fn view(&self) -> TableView {
        TableView {
            name: self.name@,
            primary_key: self.primary_key@,
            properties: self.properties.deep_view(),
        }
    }
}

impl DeepView for Table {
    type V = TableView;

    open spec fn deep_view(&self) -> TableView {
        self@
    }
}

impl View for Ratio {
    type V = RatioView;

    open spec fn view(&self) -> RatioView {
        RatioView {
            first: self.first@,
            second: match self.second {
                Some(t) => Some(t@),
                None => None,
            },
            ratio: self.ratio,
        }
    }
}

impl DeepView for Ratio {
    type V = RatioView;

    open spec fn deep_view(&self) -> RatioView {
        self@
    }
}

impl View for Schema {
    type V = SchemaView;

    open spec fn view(&self) -> SchemaView {
        SchemaView {
            type_defs: self.type_defs.deep_view(),
            ratios: self.ratios.deep_view(),
            tables: self.tables.deep_view(),
        }
    }
}

/// The type that a built-in type name denotes, if it is one. A specifier that
/// is not given counts as `Const(0)`; only `int` and `string` keep it.
pub open spec fn builtin_type(name: Seq<char>, specifier: Option<Specifier>) -> Option<
    DataTypeView,
> {
    let s = match specifier {
        Some(s) => s,
        None => Specifier::Const(0),
    };
    if name == "int"@ {
        Some(DataTypeView::Int(s))
    } else if name == "GUIDv4"@ {
        Some(DataTypeView::GUIDv4)
    } else if name == "FirstName"@ {
        Some(DataTypeView::FirstName)
    } else if name == "LastName"@ {
        Some(DataTypeView::LastName)
    } else if name == "CountryISO"@ {
        Some(DataTypeView::CountryISO)
    } else if name == "PhoneNo"@ {
        Some(DataTypeView::PhoneNo)
    } else if name == "Email"@ {
        Some(DataTypeView::Email)
    } else if name == "string"@ {
        Some(DataTypeView::String(s))
    } else {
        None
    }
}

impl DataType {
    /// Resolves a built-in type name. The names are `int`, `GUIDv4`,
    /// `FirstName`, `LastName`, `CountryISO`, `PhoneNo`, `Email` and
    /// `string`, matched exactly; any other name is an error.
    pub fn parse_from_string(s: String, specifier: Option<Specifier>) -> (r: Result<
        DataType,
        ReferenceError,
    >)
        ensures
            match builtin_type(s@, specifier) {
                Some(t) => r matches Ok(d) && d@ == t,
                None => r matches Err(e) && e == ReferenceError::UnknownType,
            },
    {
        DataType::builtin(s.as_str(), specifier)
    }

    /// Resolves a built-in type name that is only borrowed.
    pub fn builtin(name: &str, specifier: Option<Specifier>) -> (r: Result<
        DataType,
        ReferenceError,
    >)
        ensures
            match builtin_type(name@, specifier) {
                Some(t) => r matches Ok(d) && d@ == t,
                None => r matches Err(e) && e == ReferenceError::UnknownType,
            },
    {
        let specifier = match specifier {
            Some(s) => s,
            None => Specifier::Const(0),
        };
        if str_eq(name, "int") {
            Ok(DataType::Int(specifier))
        } else if str_eq(name, "GUIDv4") {
            Ok(DataType::GUIDv4)
        } else if str_eq(name, "FirstName") {
            Ok(DataType::FirstName)
        } else if str_eq(name, "LastName") {
            Ok(DataType::LastName)
        } else if str_eq(name, "CountryISO") {
            Ok(DataType::CountryISO)
        } else if str_eq(name, "PhoneNo") {
            Ok(DataType::PhoneNo)
        } else if str_eq(name, "Email") {
            Ok(DataType::Email)
        } else if str_eq(name, "string") {
            Ok(DataType::String(specifier))
        } else {
            Err(ReferenceError::UnknownType)
        }
    }
}

impl Clone for DataType {
    fn clone(&self) -> (r: Self)
        ensures
            r == *self,
    {
        match self {
            DataType::Int(s) => DataType::Int(*s),
            DataType::GUIDv4 => DataType::GUIDv4,
            DataType::FirstName => DataType::FirstName,
            DataType::LastName => DataType::LastName,
            DataType::CountryISO => DataType::CountryISO,
            DataType::PhoneNo => DataType::PhoneNo,
            DataType::Email => DataType::Email,
            DataType::String(s) => DataType::String(*s),
            DataType::ForeignKey { table, property } => DataType::ForeignKey {
                table: *table,
                property: property.clone(),
            },
        }
    }
}

impl Clone for TypeDef {
    fn clone(&self) -> (r: Self)
        ensures
            r == *self,
    {
        TypeDef { name: self.name.clone(), data_type: self.data_type.clone() }
    }
}

impl Clone for Property {
    fn clone(&self) -> (r: Self)
        ensures
            r == *self,
    {
        Property { name: self.name.clone(), data_type: self.data_type.clone() }
    }
}

impl Clone for Table {
    fn clone(&self) -> (r: Self)
        ensures
            r@ == self@,
    {
        let properties = self.properties.clone();
        Table { name: self.name.clone(), primary_key: self.primary_key.clone(), properties }
    }
}

impl Clone for Ratio {
    fn clone(&self) -> (r: Self)
        ensures
            r@ == self@,
    {
        let second = match &self.second {
            Some(t) => Some(t.clone()),
            None => None,
        };
        Ratio { first: self.first.clone(), second, ratio: self.ratio }
    }
}

impl Clone for Schema {
    fn clone(&self) -> (r: Self)
        ensures
            r@ == self@,
    {
        let type_defs = self.type_defs.clone();
        let ratios = self.ratios.clone();
        let tables = self.tables.clone();
        assert(ratios.deep_view() =~= self.ratios.deep_view());
        assert(tables.deep_view() =~= self.tables.deep_view());
        Schema { type_defs, ratios, tables }
    }
}

impl TableView {
    /// The primary key is one of the properties, with the same name and type.
    pub open spec fn wf(self) -> bool {
        exists|k: int| 0 <= k < self.properties.len() && self.properties[k] == self.primary_key
    }
}

impl SchemaView {
    /// Whether the type `t`, if it refers to a table, refers to one of the
    /// first `limit` tables and names the primary key of that table.
    pub open spec fn refers_back(self, t: DataTypeView, limit: int) -> bool {
        t matches DataTypeView::ForeignKey { table, property } ==> table < limit
            && self.tables[table as int].primary_key.name == property
    }

    /// Whether `t` is one of the tables of the schema.
    pub open spec fn declares(self, t: TableView) -> bool {
        exists|k: int| 0 <= k < self.tables.len() && self.tables[k] == t
    }

    /// What holds of every schema that the parser builds: no type alias
    /// refers to a table; each table has its primary key among its
    /// properties; a property that refers to a table refers to one declared
    /// before its own table, and names the primary key of that table; and the
    /// tables of each ratio are tables of the schema.
    pub open spec fn wf(self) -> bool {
        &&& forall|d: int|
            0 <= d < self.type_defs.len() ==> (#[trigger] self.type_defs[d]).data_type
                !is ForeignKey
        &&& forall|t: int| 0 <= t < self.tables.len() ==> (#[trigger] self.tables[t]).wf()
        &&& forall|t: int, p: int|
            0 <= t < self.tables.len() && 0 <= p < self.tables[t].properties.len()
                ==> self.refers_back((#[trigger] self.tables[t].properties[p]).data_type, t)
        &&& forall|r: int|
            0 <= r < self.ratios.len() ==> {
                &&& self.declares((#[trigger] self.ratios[r]).first)
                &&& self.ratios[r].second matches Some(second) ==> self.declares(second)
            }
    }

    /// The schema that declares nothing.
    pub open spec fn empty() -> SchemaView {
        SchemaView { type_defs: Seq::empty(), ratios: Seq::empty(), tables: Seq::empty() }
    }

    /// The index of the first type alias named `name` at or after `from`.
    pub open spec fn typedef_from(self, name: Seq<char>, from: int) -> Option<int>
        decreases self.type_defs.len() - from,
    {
        if from < 0 || from >= self.type_defs.len() {
            None
        } else if self.type_defs[from].name == name {
            Some(from)
        } else {
            self.typedef_from(name, from + 1)
        }
    }

    /// The index of the first type alias named `name`.
    pub open spec fn find_typedef(self, name: Seq<char>) -> Option<int> {
        self.typedef_from(name, 0)
    }

    /// The index of the first table named `name` at or after `from`.
    pub open spec fn table_from(self, name: Seq<char>, from: int) -> Option<int>
        decreases self.tables.len() - from,
    {
        if from < 0 || from >= self.tables.len() {
            None
        } else if self.tables[from].name == name {
            Some(from)
        } else {
            self.table_from(name, from + 1)
        }
    }

    /// The index of the first table named `name`.
    pub open spec fn find_table(self, name: Seq<char>) -> Option<int> {
        self.table_from(name, 0)
    }

    /// The schema with one more type alias at the end.
    pub open spec fn with_typedef(self, d: TypeDefView) -> SchemaView {
        SchemaView { type_defs: self.type_defs.push(d), ..self }
    }

    /// The schema with one more table at the end.
    pub open spec fn with_table(self, t: TableView) -> SchemaView {
        SchemaView { tables: self.tables.push(t), ..self }
    }

    /// The schema with one more ratio at the end.
    pub open spec fn with_ratio(self, r: RatioView) -> SchemaView {
        SchemaView { ratios: self.ratios.push(r), ..self }
    }
}

/// What [`SchemaView::typedef_from`] finds is the first alias of that name at
/// or after `from`; it finds none only if there is none.
pub proof fn lemma_typedef_from(schema: SchemaView, name: Seq<char>, from: int)
    requires
        0 <= from,
    ensures
        match schema.typedef_from(name, from) {
            Some(k) => {
                &&& from <= k < schema.type_defs.len()
                &&& schema.type_defs[k].name == name
                &&& forall|j: int| from <= j < k ==> schema.type_defs[j].name != name
            },
            None => forall|j: int|
                from <= j < schema.type_defs.len() ==> schema.type_defs[j].name != name,
        },
    decreases schema.type_defs.len() - from,
{
    if from < schema.type_defs.len() && schema.type_defs[from].name != name {
        lemma_typedef_from(schema, name, from + 1);
    }
}

/// What [`SchemaView::table_from`] finds is the first table of that name at or
/// after `from`; it finds none only if there is none.
pub proof fn lemma_table_from(schema: SchemaView, name: Seq<char>, from: int)
    requires
        0 <= from,
    ensures
        match schema.table_from(name, from) {
            Some(k) => {
                &&& from <= k < schema.tables.len()
                &&& schema.tables[k].name == name
                &&& forall|j: int| from <= j < k ==> schema.tables[j].name != name
            },
            None => forall|j: int|
                from <= j < schema.tables.len() ==> schema.tables[j].name != name,
        },
    decreases schema.tables.len() - from,
{
    if from < schema.tables.len() && schema.tables[from].name != name {
        lemma_table_from(schema, name, from + 1);
    }
}

impl Schema {
    /// A schema that declares nothing.
    pub fn new() -> (r: Schema)
        ensures
            r@ == SchemaView::empty(),
    {
        let r = Schema { type_defs: Vec::new(), ratios: Vec::new(), tables: Vec::new() };
        assert(r@.type_defs =~= Seq::empty());
        assert(r@.ratios =~= Seq::empty());
        assert(r@.tables =~= Seq::empty());
        r
    }

    /// The index in `type_defs` of the first type alias named `name`.
    pub fn typedef_index(&self, name: &str) -> (r: Option<usize>)
        ensures
            match self@.find_typedef(name@) {
                Some(k) => r == Some(k as usize) && 0 <= k < self.type_defs.len(),
                None => r is None,
            },
    {
        let mut i: usize = 0;
        while i < self.type_defs.len()
            invariant
                i <= self.type_defs.len(),
                self@.find_typedef(name@) == self@.typedef_from(name@, i as int),
            decreases self.type_defs.len() - i,
        {
            if str_eq(self.type_defs[i].name.as_str(), name) {
                return Some(i);
            }
            i += 1;
        }
        None
    }

    /// The index in `tables` of the first table named `name`.
    pub fn table_index(&self, name: &str) -> (r: Option<usize>)
        ensures
            match self@.find_table(name@) {
                Some(k) => r == Some(k as usize) && 0 <= k < self.tables.len(),
                None => r is None,
            },
    {
        let mut i: usize = 0;
        while i < self.tables.len()
            invariant
                i <= self.tables.len(),
                self@.find_table(name@) == self@.table_from(name@, i as int),
            decreases self.tables.len() - i,
        {
            if str_eq(self.tables[i].name.as_str(), name) {
                return Some(i);
            }
            i += 1;
        }
        None
    }

    /// The first type alias named `name`, if one has been declared.
    pub fn contains_typedef(&self, name: &str) -> (r: Option<&TypeDef>)
        ensures
            match self@.find_typedef(name@) {
                Some(k) => 0 <= k < self.type_defs.len() && r == Some(&self.type_defs[k]),
                None => r is None,
            },
            r is Some <==> exists|d: int|
                0 <= d < self.type_defs.len() && self.type_defs[d].name@ == name@,
            r matches Some(found) ==> found.name@ == name@,
    {
        proof {
            lemma_typedef_from(self@, name@, 0);
            assert forall|d: int| 0 <= d < self.type_defs.len() implies self@.type_defs[d].name
                == #[trigger] self.type_defs[d].name@ by {}
        }
        match self.typedef_index(name) {
            Some(i) => Some(&self.type_defs[i]),
            None => None,
        }
    }

    /// The first table named `name`, if one has been declared.
    pub fn contains_table(&self, name: &str) -> (r: Option<&Table>)
        ensures
            match self@.find_table(name@) {
                Some(k) => 0 <= k < self.tables.len() && r == Some(&self.tables[k]),
                None => r is None,
            },
            r is Some <==> exists|t: int|
                0 <= t < self.tables.len() && self.tables[t].name@ == name@,
            r matches Some(found) ==> found.name@ == name@,
    {
        proof {
            lemma_table_from(self@, name@, 0);
            assert forall|t: int| 0 <= t < self.tables.len() implies self@.tables[t].name
                == #[trigger] self.tables[t].name@ by {}
        }
        match self.table_index(name) {
            Some(i) => Some(&self.tables[i]),
            None => None,
        }
    }
}

} // verus!
