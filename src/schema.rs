//! Schema metadata: keyspaces with their tables, columns, functions,
//! aggregates and user types, each looked up by name within its parent, and
//! immutable snapshots of all of it that are replaced whole.
use vstd::prelude::*;

verus! {

/// A raw metadata value, as read from the store's own metadata tables.
pub struct MetadataFieldValue {
    pub text: String,
}

/// One named metadata field.
pub struct MetadataField {
    pub name: String,
    pub value: MetadataFieldValue,
}

/// The role of a column in its table.
#[derive(PartialEq, Eq, Structural, Clone, Copy, Debug)]
pub enum ColumnKind {
    Regular,
    PartitionKey,
    ClusteringKey,
    Static,
    CompactValue,
}

/// Column metadata.
pub struct ColumnMeta {
    pub name: String,
    pub kind: ColumnKind,
    pub data_type: String,
    pub fields: Vec<MetadataField>,
}

/// Table metadata.
pub struct TableMeta {
    pub name: String,
    pub columns: Vec<ColumnMeta>,
    pub fields: Vec<MetadataField>,
}

/// Function metadata; a function is identified by its name and argument types.
pub struct FunctionMeta {
    pub name: String,
    pub arguments: Vec<String>,
    pub fields: Vec<MetadataField>,
}

/// Aggregate metadata; identified by its name and argument types.
pub struct AggregateMeta {
    pub name: String,
    pub arguments: Vec<String>,
    pub fields: Vec<MetadataField>,
}

/// A user-defined type: its name and its (field name, field type) pairs.
pub struct UserTypeMeta {
    pub name: String,
    pub field_types: Vec<(String, String)>,
}

/// Keyspace metadata.
pub struct KeyspaceMeta {
    pub name: String,
    pub tables: Vec<TableMeta>,
    pub functions: Vec<FunctionMeta>,
    pub aggregates: Vec<AggregateMeta>,
    pub user_types: Vec<UserTypeMeta>,
    pub fields: Vec<MetadataField>,
}

/// Metadata items that are looked up by name.
pub trait Named {
    spec fn key(&self) -> Seq<char>;

    fn name_ref(&self) -> (r: &String)
        ensures
            r@ == self.key(),
    ;
}

impl Named for MetadataField {
    open spec fn key(&self) -> Seq<char> {
        self.name@
    }

    fn name_ref(&self) -> (r: &String) {
        &self.name
    }
}

impl Named for ColumnMeta {
    open spec fn key(&self) -> Seq<char> {
        self.name@
    }

    fn name_ref(&self) -> (r: &String) {
        &self.name
    }
}

impl Named for TableMeta {
    open spec fn key(&self) -> Seq<char> {
        self.name@
    }

    fn name_ref(&self) -> (r: &String) {
        &self.name
    }
}

impl Named for UserTypeMeta {
    open spec fn key(&self) -> Seq<char> {
        self.name@
    }

    fn name_ref(&self) -> (r: &String) {
        &self.name
    }
}

impl Named for KeyspaceMeta {
    open spec fn key(&self) -> Seq<char> {
        self.name@
    }

    fn name_ref(&self) -> (r: &String) {
        &self.name
    }
}

/// Index `i` is the first item of `s` named `key`.
pub open spec fn first_named<T: Named>(s: Seq<T>, key: Seq<char>, i: int) -> bool {
    0 <= i < s.len() && s[i].key() == key && forall|j: int| 0 <= j < i ==> s[j].key() != key
}

/// Item `i` of `s` is named `key`.
pub open spec fn named_at<T: Named>(s: Seq<T>, key: Seq<char>, i: int) -> bool {
    0 <= i < s.len() && s[i].key() == key
}

/// No item of `s` is named `key`.
pub open spec fn none_named<T: Named>(s: Seq<T>, key: Seq<char>) -> bool {
    forall|j: int| 0 <= j < s.len() ==> s[j].key() != key
}

/// No two items of `s` have the same name.
pub open spec fn unique_keys<T: Named>(s: Seq<T>) -> bool {
    forall|i: int, j: int|
        0 <= i < s.len() && 0 <= j < s.len() && i != j ==> #[trigger] s[i].key() != #[trigger] s[j].key()
}

/// The index of the first item of `items` named `name`.
pub fn position_by_name<T: Named>(items: &Vec<T>, name: &String) -> (r: Option<usize>)
    ensures
        r is None <==> none_named(items@, name@),
        r matches Some(i) ==> first_named(items@, name@, i as int),
{
    let mut i: usize = 0;
    while i < items.len()
        invariant
            i <= items@.len(),
            forall|j: int| 0 <= j < i ==> items@[j].key() != name@,
        decreases items@.len() - i,
    {
        if items[i].name_ref().eq(name) {
            return Some(i);
        }
        i = i + 1;
    }
    None
}

/// The index of the item of `items` named `name`, where names are unique.
pub fn index_by_name<T: Named>(items: &Vec<T>, name: &str) -> (r: Option<usize>)
    requires
        unique_keys(items@),
    ensures
        r is None <==> none_named(items@, name@),
        forall|i: int|
            #[trigger] named_at(items@, name@, i) ==> r == Some(i as usize),
        r matches Some(i) ==> named_at(items@, name@, i as int),
{
    let key: String = name.to_owned();
    let r = position_by_name(items, &key);
    proof {
        if let Some(j) = r {
            assert forall|i: int|
                #[trigger] named_at(items@, name@, i) implies i == j as int by {
                if i != j as int {
                    assert(items@[i].key() != items@[j as int].key());
                }
            }
        }
    }
    r
}

/// The views of a list of names.
pub open spec fn names_of(v: Seq<String>) -> Seq<Seq<char>> {
    v.map_values(|s: String| s@)
}

pub open spec fn strs_of(v: Seq<&str>) -> Seq<Seq<char>> {
    v.map_values(|s: &str| s@)
}

/// Whether two lists of type names are the same.
fn same_names(a: &Vec<String>, b: &Vec<&str>) -> (r: bool)
    ensures
        r == (names_of(a@) == strs_of(b@)),
{
    if a.len() != b.len() {
        proof {
            assert(names_of(a@).len() != strs_of(b@).len());
        }
        return false;
    }
    let mut i: usize = 0;
    while i < a.len()
        invariant
            a@.len() == b@.len(),
            i <= a@.len(),
            forall|j: int| 0 <= j < i ==> a@[j]@ == b@[j]@,
        decreases a@.len() - i,
    {
        let t: String = b[i].to_owned();
        if a[i] != t {
            proof {
                assert(names_of(a@)[i as int] != strs_of(b@)[i as int]);
            }
            return false;
        }
        i = i + 1;
    }
    proof {
        assert(names_of(a@) =~= strs_of(b@));
    }
    true
}

/// Looks up a metadata field by name, where field names are unique.
fn field_in<'a>(fields: &'a Vec<MetadataField>, name: &str) -> (r: Option<&'a MetadataFieldValue>)
    requires
        unique_keys(fields@),
    ensures
        r is None <==> none_named(fields@, name@),
        forall|i: int|
            #[trigger] named_at(fields@, name@, i) ==> (r matches Some(v)
                && *v == fields@[i].value),
{
    match index_by_name(fields, name) {
        Some(i) => {
            let r = Some(&fields[i].value);
            assert forall|k: int|
                #[trigger] named_at(fields@, name@, k) implies (r matches Some(
                    v,
                ) && *v == fields@[k].value) by {
                assert(k == i as int);
            }
            r
        },
        None => None,
    }
}

/// No two functions of `s` share both name and argument types.
pub open spec fn unique_functions(s: Seq<FunctionMeta>) -> bool {
    forall|i: int, j: int|
        0 <= i < s.len() && 0 <= j < s.len() && i != j ==> !(#[trigger] s[i].name@ == #[trigger] s[j].name@
            && names_of(s[i].arguments@) == names_of(s[j].arguments@))
}

/// No two aggregates of `s` share both name and argument types.
pub open spec fn unique_aggregates(s: Seq<AggregateMeta>) -> bool {
    forall|i: int, j: int|
        0 <= i < s.len() && 0 <= j < s.len() && i != j ==> !(#[trigger] s[i].name@ == #[trigger] s[j].name@
            && names_of(s[i].arguments@) == names_of(s[j].arguments@))
}


impl ColumnMeta {
    /// Field names are unique within the column.
    pub open spec fn wf(&self) -> bool {
        unique_keys(self.fields@)
    }

    /// The column's metadata fields, each name once.
    pub fn field_iter(&self) -> (r: &[MetadataField])
        requires
            self.wf(),
        ensures
            r@ == self.fields@,
            unique_keys(r@),
    {
        self.fields.as_slice()
    }

    /// Gets the name of the column.
    pub fn name(&self) -> (r: String)
        ensures
            r@ == self.name@,
    {
        self.name.clone()
    }

    /// Gets the role of the column.
    pub fn get_type(&self) -> (r: ColumnKind)
        ensures
            r == self.kind,
    {
        self.kind
    }

    /// Gets the data type of the column.
    pub fn data_type(&self) -> (r: String)
        ensures
            r@ == self.data_type@,
    {
        self.data_type.clone()
    }

    /// Gets the value of the metadata field with the provided name.
    pub fn field_by_name(&self, name: &str) -> (r: Option<&MetadataFieldValue>)
        requires
            self.wf(),
        ensures
            r is None <==> none_named(self.fields@, name@),
            forall|i: int|
                #[trigger] named_at(self.fields@, name@, i) ==> (r matches Some(
                    v,
                ) && *v == self.fields@[i].value),
    {
        field_in(&self.fields, name)
    }
}

impl TableMeta {
    /// Column names and field names are unique within the table, and each
    /// column is well formed.
    pub open spec fn wf(&self) -> bool {
        &&& unique_keys(self.columns@)
        &&& unique_keys(self.fields@)
        &&& forall|i: int| 0 <= i < self.columns@.len() ==> (#[trigger] self.columns@[i]).wf()
    }

    /// Gets the column metadata for the provided column name.
    pub fn column_by_name(&self, name: &str) -> (r: Option<&ColumnMeta>)
        requires
            self.wf(),
        ensures
            r is None <==> none_named(self.columns@, name@),
            forall|i: int|
                #[trigger] named_at(self.columns@, name@, i) ==> (r matches Some(
                    c,
                ) && *c == self.columns@[i]),
    {
        match index_by_name(&self.columns, name) {
            Some(i) => Some(&self.columns[i]),
            None => None,
        }
    }
}

/// The function `f` has this name and these argument types.
pub open spec fn function_has(f: FunctionMeta, name: Seq<char>, args: Seq<Seq<char>>) -> bool {
    f.name@ == name && names_of(f.arguments@) == args
}

/// The aggregate `a` has this name and these argument types.
pub open spec fn aggregate_has(a: AggregateMeta, name: Seq<char>, args: Seq<Seq<char>>) -> bool {
    a.name@ == name && names_of(a.arguments@) == args
}

impl KeyspaceMeta {
    /// Within the keyspace, tables, user types and fields are unique by name,
    /// functions and aggregates by name and argument types, and each table is
    /// well formed.
    pub open spec fn wf(&self) -> bool {
        &&& unique_keys(self.tables@)
        &&& unique_keys(self.user_types@)
        &&& unique_keys(self.fields@)
        &&& unique_functions(self.functions@)
        &&& unique_aggregates(self.aggregates@)
        &&& forall|i: int| 0 <= i < self.tables@.len() ==> (#[trigger] self.tables@[i]).wf()
    }

    /// The aggregates of this keyspace, each signature once.
    pub fn aggregrates_iter(&self) -> (r: &[AggregateMeta])
        requires
            self.wf(),
        ensures
            r@ == self.aggregates@,
            unique_aggregates(r@),
    {
        self.aggregates.as_slice()
    }

    /// The metadata fields of this keyspace, each name once.
    pub fn fields_iter(&self) -> (r: &[MetadataField])
        requires
            self.wf(),
        ensures
            r@ == self.fields@,
            unique_keys(r@),
    {
        self.fields.as_slice()
    }

    /// Gets the table metadata for the provided table name.
    pub fn table_by_name(&self, name: &str) -> (r: Option<&TableMeta>)
        requires
            self.wf(),
        ensures
            r is None <==> none_named(self.tables@, name@),
            forall|i: int|
                #[trigger] named_at(self.tables@, name@, i) ==> (r matches Some(
                    t,
                ) && *t == self.tables@[i]),
    {
        match index_by_name(&self.tables, name) {
            Some(i) => Some(&self.tables[i]),
            None => None,
        }
    }

    /// Gets the user type for the provided type name.
    pub fn user_type_by_name(&self, name: &str) -> (r: Option<&UserTypeMeta>)
        requires
            self.wf(),
        ensures
            r is None <==> none_named(self.user_types@, name@),
            forall|i: int|
                #[trigger] named_at(self.user_types@, name@, i) ==> (r matches Some(
                    t,
                ) && *t == self.user_types@[i]),
    {
        match index_by_name(&self.user_types, name) {
            Some(i) => Some(&self.user_types[i]),
            None => None,
        }
    }

    /// Gets the function metadata for the provided name and argument types.
    pub fn get_function_by_name(&self, name: &str, arguments: Vec<&str>) -> (r: Option<&FunctionMeta>)
        requires
            self.wf(),
        ensures
            r is None <==> forall|j: int|
                0 <= j < self.functions@.len() ==> !function_has(
                    #[trigger] self.functions@[j],
                    name@,
                    strs_of(arguments@),
                ),
            forall|i: int|
                0 <= i < self.functions@.len() && function_has(
                    #[trigger] self.functions@[i],
                    name@,
                    strs_of(arguments@),
                ) ==> (r matches Some(f) && *f == self.functions@[i]),
    {
        let key: String = name.to_owned();
        let mut i: usize = 0;
        while i < self.functions.len()
            invariant
                self.wf(),
                key@ == name@,
                i <= self.functions@.len(),
                forall|j: int|
                    0 <= j < i ==> !function_has(#[trigger] self.functions@[j], name@, strs_of(arguments@)),
            decreases self.functions@.len() - i,
        {
            if self.functions[i].name == key && same_names(&self.functions[i].arguments, &arguments) {
                proof {
                    let fs = self.functions@;
                    assert(function_has(fs[i as int], name@, strs_of(arguments@)));
                    assert forall|j: int|
                        0 <= j < fs.len() && function_has(#[trigger] fs[j], name@, strs_of(arguments@))
                            implies j == i as int by {
                        if j != i as int {
                            assert(fs[j].name@ == fs[i as int].name@);
                            assert(names_of(fs[j].arguments@) == names_of(fs[i as int].arguments@));
                        }
                    }
                }
                return Some(&self.functions[i]);
            }
            i = i + 1;
        }
        None
    }

    /// Gets the aggregate metadata for the provided name and argument types.
    pub fn aggregate_by_name(&self, name: &str, arguments: Vec<&str>) -> (r: Option<&AggregateMeta>)
        requires
            self.wf(),
        ensures
            r is None <==> forall|j: int|
                0 <= j < self.aggregates@.len() ==> !aggregate_has(
                    #[trigger] self.aggregates@[j],
                    name@,
                    strs_of(arguments@),
                ),
            forall|i: int|
                0 <= i < self.aggregates@.len() && aggregate_has(
                    #[trigger] self.aggregates@[i],
                    name@,
                    strs_of(arguments@),
                ) ==> (r matches Some(a) && *a == self.aggregates@[i]),
    {
        let key: String = name.to_owned();
        let mut i: usize = 0;
        while i < self.aggregates.len()
            invariant
                self.wf(),
                key@ == name@,
                i <= self.aggregates@.len(),
                forall|j: int|
                    0 <= j < i ==> !aggregate_has(#[trigger] self.aggregates@[j], name@, strs_of(arguments@)),
            decreases self.aggregates@.len() - i,
        {
            if self.aggregates[i].name == key && same_names(&self.aggregates[i].arguments, &arguments) {
                proof {
                    let xs = self.aggregates@;
                    assert(aggregate_has(xs[i as int], name@, strs_of(arguments@)));
                    assert forall|j: int|
                        0 <= j < xs.len() && aggregate_has(#[trigger] xs[j], name@, strs_of(arguments@))
                            implies j == i as int by {
                        if j != i as int {
                            assert(xs[j].name@ == xs[i as int].name@);
                            assert(names_of(xs[j].arguments@) == names_of(xs[i as int].arguments@));
                        }
                    }
                }
                return Some(&self.aggregates[i]);
            }
            i = i + 1;
        }
        None
    }

    /// The tables of this keyspace, each name once.
    pub fn table_iter(&self) -> (r: &[TableMeta])
        requires
            self.wf(),
        ensures
            r@ == self.tables@,
            unique_keys(r@),
    {
        self.tables.as_slice()
    }

    /// The functions of this keyspace, each signature once.
    pub fn function_iter(&self) -> (r: &[FunctionMeta])
        requires
            self.wf(),
        ensures
            r@ == self.functions@,
            unique_functions(r@),
    {
        self.functions.as_slice()
    }

    /// The user types of this keyspace, each name once.
    pub fn user_type_iter(&self) -> (r: &[UserTypeMeta])
        requires
            self.wf(),
        ensures
            r@ == self.user_types@,
            unique_keys(r@),
    {
        self.user_types.as_slice()
    }

    /// Gets the name of the keyspace.
    pub fn name(&self) -> (r: String)
        ensures
            r@ == self.name@,
    {
        self.name.clone()
    }

    /// Gets the value of the metadata field with the provided name.
    pub fn field_by_name(&self, name: &str) -> (r: Option<&MetadataFieldValue>)
        requires
            self.wf(),
        ensures
            r is None <==> none_named(self.fields@, name@),
            forall|i: int|
                #[trigger] named_at(self.fields@, name@, i) ==> (r matches Some(
                    v,
                ) && *v == self.fields@[i].value),
    {
        field_in(&self.fields, name)
    }
}

} // verus!
