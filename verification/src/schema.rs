//! Table schemas of the indexed Solana data and the SQL that creates them.

use vstd::prelude::*;
use crate::query_builder::{joined, join_strings, string_texts};
use crate::text::concat_str;

verus! {

/// Column types.
#[derive(Debug, Clone, Copy, PartialEq, Eq, Structural)]
pub enum DataType {
    Text,
    Integer,
    BigInt,
    Real,
    Boolean,
    Timestamp,
    Json,
    Blob,
    Uuid,
}

/// Index kinds.
#[derive(Debug, Clone, Copy, PartialEq, Eq, Structural)]
pub enum IndexType {
    BTree,
    Hash,
    Gin,
    Gist,
}

/// Constraint kinds; a check carries its condition.
#[derive(Debug, Clone)]
pub enum ConstraintType {
    PrimaryKey,
    ForeignKey,
    Unique,
    Check(String),
    NotNull,
}

/// A column: name, type, whether it may be null, and its default.
#[derive(Debug, Clone)]
pub struct ColumnDefinition {
    pub name: String,
    pub data_type: DataType,
    pub nullable: bool,
    pub default_value: Option<String>,
}

/// An index over columns.
#[derive(Debug, Clone)]
pub struct IndexDefinition {
    pub name: String,
    pub columns: Vec<String>,
    pub unique: bool,
    pub index_type: IndexType,
}

/// A table constraint; a foreign key names the table and columns it refers
/// to.
#[derive(Debug, Clone)]
pub struct ConstraintDefinition {
    pub name: String,
    pub constraint_type: ConstraintType,
    pub columns: Vec<String>,
    pub reference_table: Option<String>,
    pub reference_columns: Option<Vec<String>>,
}

/// A table: its columns, indexes and constraints.
#[derive(Debug, Clone)]
pub struct TableSchema {
    pub name: String,
    pub columns: Vec<ColumnDefinition>,
    pub indexes: Vec<IndexDefinition>,
    pub constraints: Vec<ConstraintDefinition>,
}

/// A column as values.
pub struct ColumnView {
    pub name: Seq<char>,
    pub data_type: DataType,
    pub nullable: bool,
    pub default_value: Option<Seq<char>>,
}

impl View for ColumnDefinition {
    type V = ColumnView;

    open spec fn view(&self) -> ColumnView {
        ColumnView {
            name: self.name@,
            data_type: self.data_type,
            nullable: self.nullable,
            default_value: match self.default_value { Some(d) => Some(d@), None => None },
        }
    }
}

/// An index as values.
pub struct IndexView {
    pub name: Seq<char>,
    pub columns: Seq<Seq<char>>,
    pub unique: bool,
    pub index_type: IndexType,
}

impl View for IndexDefinition {
    type V = IndexView;

    open spec fn view(&self) -> IndexView {
        IndexView { name: self.name@, columns: string_texts(self.columns@), unique: self.unique, index_type: self.index_type }
    }
}

/// A constraint kind as values.
pub enum ConstraintTypeView {
    PrimaryKey,
    ForeignKey,
    Unique,
    Check(Seq<char>),
    NotNull,
}

/// A constraint as values.
pub struct ConstraintView {
    pub name: Seq<char>,
    pub constraint_type: ConstraintTypeView,
    pub columns: Seq<Seq<char>>,
    pub reference_table: Option<Seq<char>>,
    pub reference_columns: Option<Seq<Seq<char>>>,
}

impl View for ConstraintDefinition {
    type V = ConstraintView;

    open spec fn view(&self) -> ConstraintView {
        ConstraintView {
            name: self.name@,
            constraint_type: match self.constraint_type {
                ConstraintType::PrimaryKey => ConstraintTypeView::PrimaryKey,
                ConstraintType::ForeignKey => ConstraintTypeView::ForeignKey,
                ConstraintType::Unique => ConstraintTypeView::Unique,
                ConstraintType::Check(c) => ConstraintTypeView::Check(c@),
                ConstraintType::NotNull => ConstraintTypeView::NotNull,
            },
            columns: string_texts(self.columns@),
            reference_table: match self.reference_table { Some(t) => Some(t@), None => None },
            reference_columns: match self.reference_columns { Some(c) => Some(string_texts(c@)), None => None },
        }
    }
}

/// A table as values.
pub struct TableView {
    pub name: Seq<char>,
    pub columns: Seq<ColumnView>,
    pub indexes: Seq<IndexView>,
    pub constraints: Seq<ConstraintView>,
}

impl View for TableSchema {
    type V = TableView;

    open spec fn view(&self) -> TableView {
        TableView {
            name: self.name@,
            columns: self.columns@.map_values(|c: ColumnDefinition| c@),
            indexes: self.indexes@.map_values(|x: IndexDefinition| x@),
            constraints: self.constraints@.map_values(|c: ConstraintDefinition| c@),
        }
    }
}

/// The views of a list of tables.
pub open spec fn table_views(s: Seq<TableSchema>) -> Seq<TableView> {
    s.map_values(|t: TableSchema| t@)
}

/// A column.
pub open spec fn column_v(name: Seq<char>, data_type: DataType, nullable: bool, default_value: Option<Seq<char>>) -> ColumnView {
    ColumnView { name, data_type, nullable, default_value }
}

/// An index over one column.
pub open spec fn index_v(name: Seq<char>, column: Seq<char>, unique: bool, index_type: IndexType) -> IndexView {
    IndexView { name, columns: seq![column], unique, index_type }
}

/// A primary key over one column.
pub open spec fn primary_key_v(name: Seq<char>, column: Seq<char>) -> ConstraintView {
    ConstraintView {
        name,
        constraint_type: ConstraintTypeView::PrimaryKey,
        columns: seq![column],
        reference_table: None,
        reference_columns: None,
    }
}

/// A foreign key from one column to one column of another table.
pub open spec fn foreign_key_v(name: Seq<char>, column: Seq<char>, table: Seq<char>, ref_column: Seq<char>) -> ConstraintView {
    ConstraintView {
        name,
        constraint_type: ConstraintTypeView::ForeignKey,
        columns: seq![column],
        reference_table: Some(table),
        reference_columns: Some(seq![ref_column]),
    }
}

/// The table of blocks.
pub open spec fn blocks_table() -> TableView {
    TableView {
        name: "blocks"@,
        columns: seq![
            column_v("slot"@, DataType::BigInt, false, None),
            column_v("blockhash"@, DataType::Text, false, None),
            column_v("parent_slot"@, DataType::BigInt, false, None),
            column_v("block_time"@, DataType::Timestamp, true, None),
            column_v("block_height"@, DataType::BigInt, true, None),
            column_v("transaction_count"@, DataType::Integer, false, Some("0"@)),
            column_v("successful_transactions"@, DataType::Integer, false, Some("0"@)),
            column_v("failed_transactions"@, DataType::Integer, false, Some("0"@)),
            column_v("total_fees"@, DataType::BigInt, false, Some("0"@)),
            column_v("leader"@, DataType::Text, false, None),
            column_v("created_at"@, DataType::Timestamp, false, Some("CURRENT_TIMESTAMP"@)),
        ],
        indexes: seq![
            index_v("idx_blocks_slot"@, "slot"@, true, IndexType::BTree),
            index_v("idx_blocks_block_time"@, "block_time"@, false, IndexType::BTree),
            index_v("idx_blocks_leader"@, "leader"@, false, IndexType::Hash),
        ],
        constraints: seq![primary_key_v("pk_blocks"@, "slot"@)],
    }
}

/// The table of transactions.
pub open spec fn transactions_table() -> TableView {
    TableView {
        name: "transactions"@,
        columns: seq![
            column_v("id"@, DataType::Uuid, false, None),
            column_v("signature"@, DataType::Text, false, None),
            column_v("slot"@, DataType::BigInt, false, None),
            column_v("block_time"@, DataType::Timestamp, true, None),
            column_v("fee"@, DataType::BigInt, false, None),
            column_v("success"@, DataType::Boolean, false, None),
            column_v("compute_units_consumed"@, DataType::BigInt, true, None),
            column_v("log_messages"@, DataType::Json, true, None),
            column_v("created_at"@, DataType::Timestamp, false, Some("CURRENT_TIMESTAMP"@)),
        ],
        indexes: seq![
            index_v("idx_transactions_signature"@, "signature"@, true, IndexType::Hash),
            index_v("idx_transactions_slot"@, "slot"@, false, IndexType::BTree),
            index_v("idx_transactions_block_time"@, "block_time"@, false, IndexType::BTree),
            index_v("idx_transactions_success"@, "success"@, false, IndexType::Hash),
        ],
        constraints: seq![
            primary_key_v("pk_transactions"@, "id"@),
            foreign_key_v("fk_transactions_slot"@, "slot"@, "blocks"@, "slot"@),
        ],
    }
}

/// The table of accounts touched by transactions.
pub open spec fn accounts_table() -> TableView {
    TableView {
        name: "accounts"@,
        columns: seq![
            column_v("id"@, DataType::Uuid, false, None),
            column_v("transaction_id"@, DataType::Uuid, false, None),
            column_v("pubkey"@, DataType::Text, false, None),
            column_v("is_signer"@, DataType::Boolean, false, Some("false"@)),
            column_v("is_writable"@, DataType::Boolean, false, Some("false"@)),
            column_v("pre_balance"@, DataType::BigInt, false, Some("0"@)),
            column_v("post_balance"@, DataType::BigInt, false, Some("0"@)),
        ],
        indexes: seq![
            index_v("idx_accounts_transaction_id"@, "transaction_id"@, false, IndexType::Hash),
            index_v("idx_accounts_pubkey"@, "pubkey"@, false, IndexType::Hash),
        ],
        constraints: seq![
            primary_key_v("pk_accounts"@, "id"@),
            foreign_key_v("fk_accounts_transaction"@, "transaction_id"@, "transactions"@, "id"@),
        ],
    }
}

/// The table of instructions.
pub open spec fn instructions_table() -> TableView {
    TableView {
        name: "instructions"@,
        columns: seq![
            column_v("id"@, DataType::Uuid, false, None),
            column_v("transaction_id"@, DataType::Uuid, false, None),
            column_v("program_id"@, DataType::Text, false, None),
            column_v("accounts"@, DataType::Json, false, Some("[]"@)),
            column_v("data"@, DataType::Text, false, None),
            column_v("instruction_index"@, DataType::Integer, false, None),
        ],
        indexes: seq![
            index_v("idx_instructions_transaction_id"@, "transaction_id"@, false, IndexType::Hash),
            index_v("idx_instructions_program_id"@, "program_id"@, false, IndexType::Hash),
        ],
        constraints: seq![
            primary_key_v("pk_instructions"@, "id"@),
            foreign_key_v("fk_instructions_transaction"@, "transaction_id"@, "transactions"@, "id"@),
        ],
    }
}

/// The four Solana tables, in order of registration.
pub open spec fn solana_schema_views() -> Seq<TableView> {
    seq![blocks_table(), transactions_table(), accounts_table(), instructions_table()]
}

/// The SQL name of a column type.
pub open spec fn type_sql(t: DataType) -> Seq<char> {
    match t {
        DataType::Text => "TEXT"@,
        DataType::Integer => "INTEGER"@,
        DataType::BigInt => "BIGINT"@,
        DataType::Real => "REAL"@,
        DataType::Boolean => "BOOLEAN"@,
        DataType::Timestamp => "TIMESTAMP"@,
        DataType::Json => "JSON"@,
        DataType::Blob => "BLOB"@,
        DataType::Uuid => "UUID"@,
    }
}

/// The line that defines a column.
pub open spec fn column_sql(c: ColumnDefinition) -> Seq<char> {
    "    "@ + c.name@ + " "@ + type_sql(c.data_type)
        + (if c.nullable { Seq::<char>::empty() } else { " NOT NULL"@ })
        + match c.default_value { Some(d) => " DEFAULT "@ + d@, None => Seq::<char>::empty() }
}

/// The line that defines a constraint; empty for `NOT NULL`, which the
/// columns carry, and for a foreign key that names no reference.
pub open spec fn constraint_sql(c: ConstraintDefinition) -> Seq<char> {
    let cols = joined(string_texts(c.columns@), ", "@);
    match c.constraint_type {
        ConstraintType::PrimaryKey => "    CONSTRAINT "@ + c.name@ + " PRIMARY KEY ("@ + cols + ")"@,
        ConstraintType::ForeignKey => match (c.reference_table, c.reference_columns) {
            (Some(t), Some(rc)) => "    CONSTRAINT "@ + c.name@ + " FOREIGN KEY ("@ + cols + ") REFERENCES "@
                + t@ + " ("@ + joined(string_texts(rc@), ", "@) + ")"@,
            _ => Seq::empty(),
        },
        ConstraintType::Unique => "    CONSTRAINT "@ + c.name@ + " UNIQUE ("@ + cols + ")"@,
        ConstraintType::Check(cond) => "    CONSTRAINT "@ + c.name@ + " CHECK ("@ + cond@ + ")"@,
        ConstraintType::NotNull => Seq::empty(),
    }
}

/// The constraint lines, each after a separator.
pub open spec fn constraints_sql(cs: Seq<ConstraintDefinition>) -> Seq<char>
    decreases cs.len(),
{
    if cs.len() == 0 {
        Seq::empty()
    } else {
        constraints_sql(cs.drop_last()) + ",\n"@ + constraint_sql(cs.last())
    }
}

/// The `CREATE TABLE` statement of a table.
pub open spec fn create_table_sql(t: TableSchema) -> Seq<char> {
    "CREATE TABLE IF NOT EXISTS "@ + t.name@ + " (\n"@
        + joined(Seq::new(t.columns@.len(), |i: int| column_sql(t.columns@[i])), ",\n"@)
        + constraints_sql(t.constraints@)
        + "\n);"@
}

/// The `CREATE INDEX` statement of an index of a table.
pub open spec fn create_index_sql(table: Seq<char>, i: IndexDefinition) -> Seq<char> {
    "CREATE "@ + (if i.unique { "UNIQUE "@ } else { Seq::<char>::empty() }) + "INDEX IF NOT EXISTS "@ + i.name@
        + " ON "@ + table + " ("@ + joined(string_texts(i.columns@), ", "@) + ");"@
}

/// The schema registered last under a name.
pub open spec fn schema_named(s: Seq<TableSchema>, name: Seq<char>) -> Option<TableSchema>
    decreases s.len(),
{
    if s.len() == 0 {
        None
    } else if s.last().name@ == name {
        Some(s.last())
    } else {
        schema_named(s.drop_last(), name)
    }
}

/// No two tables share a name.
pub open spec fn distinct_names(s: Seq<TableView>) -> bool {
    forall|i: int, j: int| 0 <= i < j < s.len() ==> s[i].name != s[j].name
}

/// The tables after registering `t`: a table of its name is replaced in
/// place, otherwise `t` comes last.
pub open spec fn put_table(s: Seq<TableView>, t: TableView) -> Seq<TableView> {
    if exists|i: int| 0 <= i < s.len() && s[i].name == t.name {
        s.update(choose|i: int| 0 <= i < s.len() && s[i].name == t.name, t)
    } else {
        s.push(t)
    }
}

/// Registering `t` keeps names distinct, holds `t`, and keeps every table
/// of another name.
proof fn lemma_put_table(s: Seq<TableView>, t: TableView)
    requires
        distinct_names(s),
    ensures
        distinct_names(put_table(s, t)),
        put_table(s, t).contains(t),
        forall|u: TableView| s.contains(u) && u.name != t.name ==> put_table(s, t).contains(u),
        forall|u: TableView| #[trigger] put_table(s, t).contains(u) ==> u == t || s.contains(u),
{
    let r = put_table(s, t);
    if exists|i: int| 0 <= i < s.len() && s[i].name == t.name {
        let k = choose|i: int| 0 <= i < s.len() && s[i].name == t.name;
        assert(r[k] == t);
        assert forall|u: TableView| s.contains(u) && u.name != t.name implies r.contains(u) by {
            let j = choose|j: int| 0 <= j < s.len() && s[j] == u;
            assert(j != k);
            assert(r[j] == u);
        }
        assert forall|u: TableView| #[trigger] r.contains(u) implies u == t || s.contains(u) by {
            let j = choose|j: int| 0 <= j < r.len() && r[j] == u;
            if j != k {
                assert(s[j] == u);
            }
        }
    } else {
        assert(r[s.len() as int] == t);
        assert forall|u: TableView| s.contains(u) && u.name != t.name implies r.contains(u) by {
            let j = choose|j: int| 0 <= j < s.len() && s[j] == u;
            assert(r[j] == u);
        }
        assert forall|u: TableView| #[trigger] r.contains(u) implies u == t || s.contains(u) by {
            let j = choose|j: int| 0 <= j < r.len() && r[j] == u;
            if j < s.len() {
                assert(s[j] == u);
            }
        }
    }
}

/// Registering a table a second time changes nothing: the tables stay
/// those of registering it once.
pub proof fn law_register_twice(s: Seq<TableView>, t: TableView)
    requires
        distinct_names(s),
    ensures
        put_table(put_table(s, t), t) == put_table(s, t),
{
    lemma_put_table(s, t);
    let r = put_table(s, t);
    let k = choose|j: int| 0 <= j < r.len() && r[j] == t;
    assert(r[k].name == t.name);
    let c = choose|i: int| 0 <= i < r.len() && r[i].name == t.name;
    assert(c == k);
    assert(r.update(k, t) =~= r);
}

/// With distinct names, the schema found under a name is the one at the
/// place of that name.
proof fn lemma_schema_named_at(s: Seq<TableSchema>, i: int)
    requires
        distinct_names(table_views(s)),
        0 <= i < s.len(),
    ensures
        schema_named(s, s[i].name@) == Some(s[i]),
    decreases s.len(),
{
    assert(table_views(s)[i].name == s[i].name@);
    if i < s.len() - 1 {
        assert(table_views(s)[s.len() - 1].name == s.last().name@);
        assert(table_views(s.drop_last()) =~= table_views(s).drop_last());
        lemma_schema_named_at(s.drop_last(), i);
    }
}

/// Whether two texts are equal.
fn same_text(a: &str, b: &str) -> (res: bool)
    ensures
        res <==> a@ == b@,
{
    let av = crate::text::chars_of(a);
    let bv = crate::text::chars_of(b);
    if av.len() != bv.len() {
        return false;
    }
    let mut i: usize = 0;
    while i < av.len()
        invariant
            av@ == a@,
            bv@ == b@,
            av@.len() == bv@.len(),
            i <= av@.len(),
            forall|j: int| 0 <= j < i ==> av@[j] == bv@[j],
        decreases av@.len() - i,
    {
        if av[i] != bv[i] {
            return false;
        }
        i = i + 1;
    }
    assert(a@ =~= b@);
    true
}

fn col(name: &str, data_type: DataType, nullable: bool, default_value: Option<&str>) -> (res: ColumnDefinition)
    ensures
        res.name@ == name@,
        res.data_type == data_type,
        res.nullable == nullable,
        match default_value {
            Some(d) => res.default_value matches Some(v) && v@ == d@,
            None => res.default_value is None,
        },
{
    let default_value = match default_value {
        Some(d) => Some(d.to_owned()),
        None => None,
    };
    ColumnDefinition { name: name.to_owned(), data_type, nullable, default_value }
}

fn one_name(name: &str) -> (res: Vec<String>)
    ensures
        string_texts(res@) == seq![name@],
{
    let mut v: Vec<String> = Vec::new();
    v.push(name.to_owned());
    assert(string_texts(v@) =~= seq![name@]);
    v
}

fn index(name: &str, column: &str, unique: bool, index_type: IndexType) -> (res: IndexDefinition)
    ensures
        res.name@ == name@,
        string_texts(res.columns@) == seq![column@],
        res.unique == unique,
        res.index_type == index_type,
{
    IndexDefinition { name: name.to_owned(), columns: one_name(column), unique, index_type }
}

fn primary_key(name: &str, column: &str) -> (res: ConstraintDefinition)
    ensures
        res.name@ == name@,
        res.constraint_type is PrimaryKey,
        string_texts(res.columns@) == seq![column@],
        res.reference_table is None,
        res.reference_columns is None,
{
    ConstraintDefinition {
        name: name.to_owned(),
        constraint_type: ConstraintType::PrimaryKey,
        columns: one_name(column),
        reference_table: None,
        reference_columns: None,
    }
}

fn foreign_key(name: &str, column: &str, table: &str, ref_column: &str) -> (res: ConstraintDefinition)
    ensures
        res.name@ == name@,
        res.constraint_type is ForeignKey,
        string_texts(res.columns@) == seq![column@],
        res.reference_table matches Some(t) && t@ == table@,
        res.reference_columns matches Some(rc) && string_texts(rc@) == seq![ref_column@],
{
    ConstraintDefinition {
        name: name.to_owned(),
        constraint_type: ConstraintType::ForeignKey,
        columns: one_name(column),
        reference_table: Some(table.to_owned()),
        reference_columns: Some(one_name(ref_column)),
    }
}

/// Holds the table schemas by name.
pub struct SchemaManager {
    schemas: Vec<TableSchema>,
}

impl SchemaManager {
    /// The registered schemas, in order of registration.
    pub closed spec fn spec_schemas(&self) -> Seq<TableSchema> {
        self.schemas@
    }

    /// Each table name is registered once.
    pub closed spec fn wf(&self) -> bool {
        distinct_names(table_views(self.schemas@))
    }

    /// No schemas.
    pub fn new() -> (res: Self)
        ensures
            res.wf(),
            res.spec_schemas().len() == 0,
    {
        SchemaManager { schemas: Vec::new() }
    }

    /// Registers a schema under its name, replacing one of the same name.
    fn register(&mut self, schema: TableSchema)
        requires
            old(self).wf(),
        ensures
            final(self).wf(),
            table_views(final(self).spec_schemas()) == put_table(table_views(old(self).spec_schemas()), schema@),
    {
        let ghost s0 = table_views(self.schemas@);
        let ghost t = schema@;
        let mut i: usize = 0;
        while i < self.schemas.len() && !same_text(self.schemas[i].name.as_str(), schema.name.as_str())
            invariant
                table_views(self.schemas@) == s0,
                i <= s0.len(),
                forall|k: int| 0 <= k < i ==> s0[k].name != t.name,
                t == schema@,
            decreases s0.len() - i,
        {
            proof { assert(s0[i as int].name == self.schemas@[i as int].name@); }
            i = i + 1;
        }
        proof { lemma_put_table(s0, t); }
        if i < self.schemas.len() {
            proof {
                assert(s0[i as int].name == t.name);
                let c = choose|k: int| 0 <= k < s0.len() && s0[k].name == t.name;
                assert(c == i);
            }
            self.schemas.set(i, schema);
            assert(table_views(self.schemas@) =~= s0.update(i as int, t));
        } else {
            self.schemas.push(schema);
            assert(table_views(self.schemas@) =~= s0.push(t));
        }
    }

    /// Registers the tables of blocks, transactions, accounts and
    /// instructions.
    pub fn initialize_solana_schema(&mut self) -> (res: Result<(), String>)
        requires
            old(self).wf(),
        ensures
            res is Ok,
            final(self).wf(),
            table_views(final(self).spec_schemas()) == put_table(put_table(put_table(put_table(
                table_views(old(self).spec_schemas()), blocks_table()), transactions_table()), accounts_table()),
                instructions_table()),
            schema_named(final(self).spec_schemas(), "blocks"@) matches Some(t) && t@ == blocks_table(),
            schema_named(final(self).spec_schemas(), "transactions"@) matches Some(t) && t@ == transactions_table(),
            schema_named(final(self).spec_schemas(), "accounts"@) matches Some(t) && t@ == accounts_table(),
            schema_named(final(self).spec_schemas(), "instructions"@) matches Some(t) && t@ == instructions_table(),
            forall|u: TableView| table_views(old(self).spec_schemas()).contains(u)
                && u.name != "blocks"@ && u.name != "transactions"@ && u.name != "accounts"@ && u.name != "instructions"@
                ==> table_views(final(self).spec_schemas()).contains(u),
            forall|u: TableView| #[trigger] table_views(final(self).spec_schemas()).contains(u) ==>
                table_views(old(self).spec_schemas()).contains(u) || solana_schema_views().contains(u),
    {
        let ts = Some("CURRENT_TIMESTAMP");
        let zero = Some("0");
        let blocks = TableSchema {
            name: "blocks".to_owned(),
            columns: vec![
                col("slot", DataType::BigInt, false, None),
                col("blockhash", DataType::Text, false, None),
                col("parent_slot", DataType::BigInt, false, None),
                col("block_time", DataType::Timestamp, true, None),
                col("block_height", DataType::BigInt, true, None),
                col("transaction_count", DataType::Integer, false, zero),
                col("successful_transactions", DataType::Integer, false, zero),
                col("failed_transactions", DataType::Integer, false, zero),
                col("total_fees", DataType::BigInt, false, zero),
                col("leader", DataType::Text, false, None),
                col("created_at", DataType::Timestamp, false, ts),
            ],
            indexes: vec![
                index("idx_blocks_slot", "slot", true, IndexType::BTree),
                index("idx_blocks_block_time", "block_time", false, IndexType::BTree),
                index("idx_blocks_leader", "leader", false, IndexType::Hash),
            ],
            constraints: vec![primary_key("pk_blocks", "slot")],
        };
        let transactions = TableSchema {
            name: "transactions".to_owned(),
            columns: vec![
                col("id", DataType::Uuid, false, None),
                col("signature", DataType::Text, false, None),
                col("slot", DataType::BigInt, false, None),
                col("block_time", DataType::Timestamp, true, None),
                col("fee", DataType::BigInt, false, None),
                col("success", DataType::Boolean, false, None),
                col("compute_units_consumed", DataType::BigInt, true, None),
                col("log_messages", DataType::Json, true, None),
                col("created_at", DataType::Timestamp, false, ts),
            ],
            indexes: vec![
                index("idx_transactions_signature", "signature", true, IndexType::Hash),
                index("idx_transactions_slot", "slot", false, IndexType::BTree),
                index("idx_transactions_block_time", "block_time", false, IndexType::BTree),
                index("idx_transactions_success", "success", false, IndexType::Hash),
            ],
            constraints: vec![
                primary_key("pk_transactions", "id"),
                foreign_key("fk_transactions_slot", "slot", "blocks", "slot"),
            ],
        };
        let accounts = TableSchema {
            name: "accounts".to_owned(),
            columns: vec![
                col("id", DataType::Uuid, false, None),
                col("transaction_id", DataType::Uuid, false, None),
                col("pubkey", DataType::Text, false, None),
                col("is_signer", DataType::Boolean, false, Some("false")),
                col("is_writable", DataType::Boolean, false, Some("false")),
                col("pre_balance", DataType::BigInt, false, zero),
                col("post_balance", DataType::BigInt, false, zero),
            ],
            indexes: vec![
                index("idx_accounts_transaction_id", "transaction_id", false, IndexType::Hash),
                index("idx_accounts_pubkey", "pubkey", false, IndexType::Hash),
            ],
            constraints: vec![
                primary_key("pk_accounts", "id"),
                foreign_key("fk_accounts_transaction", "transaction_id", "transactions", "id"),
            ],
        };
        let instructions = TableSchema {
            name: "instructions".to_owned(),
            columns: vec![
                col("id", DataType::Uuid, false, None),
                col("transaction_id", DataType::Uuid, false, None),
                col("program_id", DataType::Text, false, None),
                col("accounts", DataType::Json, false, Some("[]")),
                col("data", DataType::Text, false, None),
                col("instruction_index", DataType::Integer, false, None),
            ],
            indexes: vec![
                index("idx_instructions_transaction_id", "transaction_id", false, IndexType::Hash),
                index("idx_instructions_program_id", "program_id", false, IndexType::Hash),
            ],
            constraints: vec![
                primary_key("pk_instructions", "id"),
                foreign_key("fk_instructions_transaction", "transaction_id", "transactions", "id"),
            ],
        };
        proof {
            assert(blocks@.columns =~= blocks_table().columns);
            assert(blocks@.indexes =~= blocks_table().indexes);
            assert(blocks@.constraints =~= blocks_table().constraints);
            assert(transactions@.columns =~= transactions_table().columns);
            assert(transactions@.indexes =~= transactions_table().indexes);
            assert(transactions@.constraints =~= transactions_table().constraints);
            assert(accounts@.columns =~= accounts_table().columns);
            assert(accounts@.indexes =~= accounts_table().indexes);
            assert(accounts@.constraints =~= accounts_table().constraints);
            assert(instructions@.columns =~= instructions_table().columns);
            assert(instructions@.indexes =~= instructions_table().indexes);
            assert(instructions@.constraints =~= instructions_table().constraints);
        }
        let ghost v0 = table_views(self.schemas@);
        self.register(blocks);
        let ghost v1 = table_views(self.schemas@);
        self.register(transactions);
        let ghost v2 = table_views(self.schemas@);
        self.register(accounts);
        let ghost v3 = table_views(self.schemas@);
        self.register(instructions);
        proof {
            let s = self.schemas@;
            let v4 = table_views(s);
            reveal_strlit("blocks");
            reveal_strlit("transactions");
            reveal_strlit("accounts");
            reveal_strlit("instructions");
            lemma_put_table(v0, blocks_table());
            lemma_put_table(v1, transactions_table());
            lemma_put_table(v2, accounts_table());
            lemma_put_table(v3, instructions_table());
            assert(blocks_table().name == "blocks"@);
            assert(transactions_table().name == "transactions"@);
            assert(accounts_table().name == "accounts"@);
            assert(instructions_table().name == "instructions"@);
            assert("blocks"@ != "transactions"@) by { assert("blocks"@.len() != "transactions"@.len()); }
            assert("blocks"@ != "accounts"@) by { assert("blocks"@[0] != "accounts"@[0]); }
            assert("blocks"@ != "instructions"@) by { assert("blocks"@.len() != "instructions"@.len()); }
            assert("transactions"@ != "accounts"@) by { assert("transactions"@.len() != "accounts"@.len()); }
            assert("transactions"@ != "instructions"@) by { assert("transactions"@[0] != "instructions"@[0]); }
            assert("accounts"@ != "instructions"@) by { assert("accounts"@.len() != "instructions"@.len()); }
            assert(v4.contains(blocks_table()));
            assert(v4.contains(transactions_table()));
            assert(v4.contains(accounts_table()));
            assert(v4.contains(instructions_table()));
            let kb = choose|k: int| 0 <= k < v4.len() && v4[k] == blocks_table();
            assert(s[kb]@ == blocks_table());
            lemma_schema_named_at(s, kb);
            let kt = choose|k: int| 0 <= k < v4.len() && v4[k] == transactions_table();
            assert(s[kt]@ == transactions_table());
            lemma_schema_named_at(s, kt);
            let ka = choose|k: int| 0 <= k < v4.len() && v4[k] == accounts_table();
            assert(s[ka]@ == accounts_table());
            lemma_schema_named_at(s, ka);
            let ki = choose|k: int| 0 <= k < v4.len() && v4[k] == instructions_table();
            assert(s[ki]@ == instructions_table());
            lemma_schema_named_at(s, ki);
            assert forall|u: TableView| #[trigger] v4.contains(u) implies v0.contains(u) || solana_schema_views().contains(u) by {
                if u == blocks_table() { assert(solana_schema_views()[0] == u); }
                else if u == transactions_table() { assert(solana_schema_views()[1] == u); }
                else if u == accounts_table() { assert(solana_schema_views()[2] == u); }
                else if u == instructions_table() { assert(solana_schema_views()[3] == u); }
                else { assert(v3.contains(u)); assert(v2.contains(u)); assert(v1.contains(u)); }
            }
        }
        Ok(())
    }

    /// The schema registered last under a name.
    pub fn get_schema(&self, table_name: &str) -> (res: Option<&TableSchema>)
        ensures
            match schema_named(self.spec_schemas(), table_name@) {
                Some(t) => res == Some(&t),
                None => res is None,
            },
    {
        let mut i: usize = self.schemas.len();
        assert(self.schemas@.subrange(0, i as int) =~= self.schemas@);
        while i > 0
            invariant
                i <= self.schemas@.len(),
                schema_named(self.schemas@, table_name@) == schema_named(self.schemas@.subrange(0, i as int), table_name@),
            decreases i,
        {
            assert(self.schemas@.subrange(0, i as int).drop_last() =~= self.schemas@.subrange(0, i - 1));
            if same_text(self.schemas[i - 1].name.as_str(), table_name) {
                return Some(&self.schemas[i - 1]);
            }
            i = i - 1;
        }
        None
    }

    /// All registered schemas.
    pub fn get_all_schemas(&self) -> (res: &Vec<TableSchema>)
        ensures
            res@ == self.spec_schemas(),
    {
        &self.schemas
    }

    /// The `CREATE TABLE` statement of a registered table.
    pub fn generate_create_table_sql(&self, table_name: &str) -> (res: Result<String, String>)
        ensures
            match schema_named(self.spec_schemas(), table_name@) {
                Some(t) => res matches Ok(s) && s@ == create_table_sql(t),
                None => res matches Err(m) && m@ == "Schema not found: "@ + table_name@,
            },
    {
        let schema = match self.get_schema(table_name) {
            Some(s) => s,
            None => return Err(concat_str("Schema not found: ", table_name)),
        };
        let head = concat_str("CREATE TABLE IF NOT EXISTS ", schema.name.as_str());
        let mut sql = concat_str(head.as_str(), " (\n");
        let mut lines: Vec<String> = Vec::new();
        let mut i: usize = 0;
        while i < schema.columns.len()
            invariant
                i <= schema.columns@.len(),
                string_texts(lines@) == Seq::new(i as nat, |k: int| column_sql(schema.columns@[k])),
            decreases schema.columns@.len() - i,
        {
            let line = column_line(&schema.columns[i]);
            let ghost before = lines@;
            lines.push(line);
            assert(string_texts(lines@) =~= string_texts(before).push(column_sql(schema.columns@[i as int])));
            assert(string_texts(lines@) =~= Seq::new((i + 1) as nat, |k: int| column_sql(schema.columns@[k])));
            i = i + 1;
        }
        let cols = join_strings(&lines, ",\n");
        sql = concat_str(sql.as_str(), cols.as_str());
        let mut j: usize = 0;
        let ghost start = sql@;
        assert(schema.constraints@.subrange(0, 0) =~= Seq::<ConstraintDefinition>::empty());
        while j < schema.constraints.len()
            invariant
                j <= schema.constraints@.len(),
                sql@ == start + constraints_sql(schema.constraints@.subrange(0, j as int)),
            decreases schema.constraints@.len() - j,
        {
            let line = constraint_line(&schema.constraints[j]);
            let sep = concat_str(sql.as_str(), ",\n");
            sql = concat_str(sep.as_str(), line.as_str());
            proof {
                let pre = schema.constraints@.subrange(0, j as int);
                let next = schema.constraints@.subrange(0, j + 1);
                assert(next.drop_last() =~= pre);
            }
            j = j + 1;
        }
        assert(schema.constraints@.subrange(0, schema.constraints@.len() as int) =~= schema.constraints@);
        let res = concat_str(sql.as_str(), "\n);");
        assert(res@ =~= create_table_sql(*schema));
        Ok(res)
    }

    /// The `CREATE INDEX` statements of a registered table's indexes.
    pub fn generate_create_index_sql(&self, table_name: &str) -> (res: Result<Vec<String>, String>)
        ensures
            match schema_named(self.spec_schemas(), table_name@) {
                Some(t) => res matches Ok(v) && string_texts(v@)
                    == Seq::new(t.indexes@.len(), |k: int| create_index_sql(t.name@, t.indexes@[k])),
                None => res matches Err(m) && m@ == "Schema not found: "@ + table_name@,
            },
    {
        let schema = match self.get_schema(table_name) {
            Some(s) => s,
            None => return Err(concat_str("Schema not found: ", table_name)),
        };
        let mut sqls: Vec<String> = Vec::new();
        let mut i: usize = 0;
        while i < schema.indexes.len()
            invariant
                i <= schema.indexes@.len(),
                string_texts(sqls@) == Seq::new(i as nat, |k: int| create_index_sql(schema.name@, schema.indexes@[k])),
            decreases schema.indexes@.len() - i,
        {
            let index = &schema.indexes[i];
            let unique_str = if index.unique { "UNIQUE " } else { "" };
            let a = concat_str("CREATE ", unique_str);
            let b = concat_str(a.as_str(), "INDEX IF NOT EXISTS ");
            let c = concat_str(b.as_str(), index.name.as_str());
            let d = concat_str(c.as_str(), " ON ");
            let e = concat_str(d.as_str(), schema.name.as_str());
            let f = concat_str(e.as_str(), " (");
            let cols = join_strings(&index.columns, ", ");
            let g = concat_str(f.as_str(), cols.as_str());
            let sql = concat_str(g.as_str(), ");");
            proof {
                if !index.unique {
                    reveal_strlit("");
                }
                assert(sql@ =~= create_index_sql(schema.name@, *index));
            }
            let ghost before = sqls@;
            sqls.push(sql);
            assert(string_texts(sqls@) =~= string_texts(before).push(create_index_sql(schema.name@, schema.indexes@[i as int])));
            assert(string_texts(sqls@) =~= Seq::new((i + 1) as nat, |k: int| create_index_sql(schema.name@, schema.indexes@[k])));
            i = i + 1;
        }
        Ok(sqls)
    }
}

fn type_text(t: DataType) -> (res: &'static str)
    ensures
        res@ == type_sql(t),
{
    match t {
        DataType::Text => "TEXT",
        DataType::Integer => "INTEGER",
        DataType::BigInt => "BIGINT",
        DataType::Real => "REAL",
        DataType::Boolean => "BOOLEAN",
        DataType::Timestamp => "TIMESTAMP",
        DataType::Json => "JSON",
        DataType::Blob => "BLOB",
        DataType::Uuid => "UUID",
    }
}

fn column_line(c: &ColumnDefinition) -> (res: String)
    ensures
        res@ == column_sql(*c),
{
    let a = concat_str("    ", c.name.as_str());
    let b = concat_str(a.as_str(), " ");
    let mut s = concat_str(b.as_str(), type_text(c.data_type));
    if !c.nullable {
        s = concat_str(s.as_str(), " NOT NULL");
    }
    match &c.default_value {
        Some(d) => {
            let part = concat_str(" DEFAULT ", d.as_str());
            s = concat_str(s.as_str(), part.as_str());
        },
        None => {},
    }
    proof {
        let n = if c.nullable { Seq::<char>::empty() } else { " NOT NULL"@ };
        let cc = *c;
        let dv = match cc.default_value { Some(d) => " DEFAULT "@ + d@, None => Seq::<char>::empty() };
        assert(s@ =~= "    "@ + c.name@ + " "@ + type_sql(c.data_type) + n + dv);
    }
    s
}

fn constraint_line(c: &ConstraintDefinition) -> (res: String)
    ensures
        res@ == constraint_sql(*c),
{
    let cols = join_strings(&c.columns, ", ");
    let head = concat_str("    CONSTRAINT ", c.name.as_str());
    match &c.constraint_type {
        ConstraintType::PrimaryKey => {
            let a = concat_str(head.as_str(), " PRIMARY KEY (");
            let b = concat_str(a.as_str(), cols.as_str());
            concat_str(b.as_str(), ")")
        },
        ConstraintType::ForeignKey => {
            match (&c.reference_table, &c.reference_columns) {
                (Some(t), Some(rc)) => {
                    let a = concat_str(head.as_str(), " FOREIGN KEY (");
                    let b = concat_str(a.as_str(), cols.as_str());
                    let d = concat_str(b.as_str(), ") REFERENCES ");
                    let e = concat_str(d.as_str(), t.as_str());
                    let f = concat_str(e.as_str(), " (");
                    let rcols = join_strings(rc, ", ");
                    let g = concat_str(f.as_str(), rcols.as_str());
                    concat_str(g.as_str(), ")")
                },
                _ => String::new(),
            }
        },
        ConstraintType::Unique => {
            let a = concat_str(head.as_str(), " UNIQUE (");
            let b = concat_str(a.as_str(), cols.as_str());
            concat_str(b.as_str(), ")")
        },
        ConstraintType::Check(cond) => {
            let a = concat_str(head.as_str(), " CHECK (");
            let b = concat_str(a.as_str(), cond.as_str());
            concat_str(b.as_str(), ")")
        },
        ConstraintType::NotNull => String::new(),
    }
}

} // verus!
