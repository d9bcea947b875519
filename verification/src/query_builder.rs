//! SQL text for the common queries over the indexed Solana tables.

use vstd::prelude::*;
use crate::text::{concat_str, decimal, u64_to_decimal};

verus! {

/// Parts joined with a separator between each two.
pub open spec fn joined(parts: Seq<Seq<char>>, sep: Seq<char>) -> Seq<char>
    decreases parts.len(),
{
    if parts.len() == 0 {
        Seq::empty()
    } else if parts.len() == 1 {
        parts[0]
    } else {
        joined(parts.drop_last(), sep) + sep + parts.last()
    }
}

/// The texts of a list of strings.
pub open spec fn string_texts(v: Seq<String>) -> Seq<Seq<char>> {
    Seq::new(v.len(), |i: int| v[i]@)
}

/// `join` of a list of strings.
pub fn join_strings(parts: &Vec<String>, sep: &str) -> (res: String)
    ensures
        res@ == joined(string_texts(parts@), sep@),
{
    let mut out = String::new();
    let mut i: usize = 0;
    let ghost texts = string_texts(parts@);
    while i < parts.len()
        invariant
            i <= parts@.len(),
            texts == string_texts(parts@),
            out@ == joined(texts.subrange(0, i as int), sep@),
        decreases parts@.len() - i,
    {
        proof {
            let pre = texts.subrange(0, i as int);
            let next = texts.subrange(0, i + 1);
            assert(next.drop_last() =~= pre);
            assert(next.last() == parts@[i as int]@);
        }
        if i == 0 {
            out = parts[0].clone();
            proof {
                assert(texts.subrange(0, 1).len() == 1);
            }
        } else {
            let with_sep = concat_str(out.as_str(), sep);
            out = concat_str(with_sep.as_str(), parts[i].as_str());
        }
        i = i + 1;
    }
    assert(texts.subrange(0, parts@.len() as int) =~= texts);
    out
}

/// The text of a query under construction.
pub struct QueryBuilderView {
    pub table: Seq<char>,
    pub conditions: Seq<Seq<char>>,
    pub order_by: Option<Seq<char>>,
    pub limit: Option<u32>,
    pub offset: Option<u32>,
}

/// Builds `SELECT` and `COUNT` queries over one table.
pub struct QueryBuilder {
    table: String,
    conditions: Vec<String>,
    order_by: Option<String>,
    limit: Option<u32>,
    offset: Option<u32>,
}

impl View for QueryBuilder {
    type V = QueryBuilderView;

    closed spec fn view(&self) -> QueryBuilderView {
        QueryBuilderView {
            table: self.table@,
            conditions: string_texts(self.conditions@),
            order_by: match self.order_by { Some(o) => Some(o@), None => None },
            limit: self.limit,
            offset: self.offset,
        }
    }
}

/// The `WHERE` clause of a query, empty without conditions.
pub open spec fn where_clause(conditions: Seq<Seq<char>>) -> Seq<char> {
    if conditions.len() == 0 { Seq::empty() } else { " WHERE "@ + joined(conditions, " AND "@) }
}

/// The text of the `SELECT` query.
pub open spec fn select_sql(q: QueryBuilderView) -> Seq<char> {
    "SELECT * FROM "@ + q.table + where_clause(q.conditions)
        + match q.order_by { Some(o) => " ORDER BY "@ + o, None => Seq::empty() }
        + match q.limit { Some(l) => " LIMIT "@ + decimal(l as nat), None => Seq::empty() }
        + match q.offset { Some(o) => " OFFSET "@ + decimal(o as nat), None => Seq::empty() }
}

/// The text of the `COUNT` query.
pub open spec fn count_sql(q: QueryBuilderView) -> Seq<char> {
    "SELECT COUNT(*) as count FROM "@ + q.table + where_clause(q.conditions)
}

impl QueryBuilder {
    /// A query over `table` with no conditions, order, limit or offset.
    pub fn new(table: &str) -> (res: Self)
        ensures
            res@.table == table@,
            res@.conditions.len() == 0,
            res@.order_by is None,
            res@.limit is None,
            res@.offset is None,
    {
        let res = QueryBuilder { table: table.to_owned(), conditions: Vec::new(), order_by: None, limit: None, offset: None };
        assert(res@.conditions =~= Seq::<Seq<char>>::empty());
        res
    }

    /// Adds a condition; the conditions are joined with `AND`.
    pub fn where_condition(self, condition: &str) -> (res: Self)
        ensures
            res@ == (QueryBuilderView { conditions: self@.conditions.push(condition@), ..self@ }),
    {
        let mut q = self;
        let ghost before = q.conditions@;
        q.conditions.push(condition.to_owned());
        assert(string_texts(q.conditions@) =~= string_texts(before).push(condition@));
        q
    }

    /// Orders by a column in a direction.
    pub fn order_by(self, column: &str, direction: &str) -> (res: Self)
        ensures
            res@ == (QueryBuilderView { order_by: Some(column@ + " "@ + direction@), ..self@ }),
    {
        let mut q = self;
        let a = concat_str(column, " ");
        q.order_by = Some(concat_str(a.as_str(), direction));
        q
    }

    pub fn limit(self, limit: u32) -> (res: Self)
        ensures
            res@ == (QueryBuilderView { limit: Some(limit), ..self@ }),
    {
        let mut q = self;
        q.limit = Some(limit);
        q
    }

    pub fn offset(self, offset: u32) -> (res: Self)
        ensures
            res@ == (QueryBuilderView { offset: Some(offset), ..self@ }),
    {
        let mut q = self;
        q.offset = Some(offset);
        q
    }

    fn where_text(&self) -> (res: String)
        ensures
            res@ == where_clause(self@.conditions),
    {
        if self.conditions.len() == 0 {
            String::new()
        } else {
            let j = join_strings(&self.conditions, " AND ");
            concat_str(" WHERE ", j.as_str())
        }
    }

    /// The `SELECT *` query with conditions, order, limit and offset.
    pub fn build_select(&self) -> (res: String)
        ensures
            res@ == select_sql(self@),
    {
        let mut sql = concat_str("SELECT * FROM ", self.table.as_str());
        let w = self.where_text();
        sql = concat_str(sql.as_str(), w.as_str());
        match &self.order_by {
            Some(o) => {
                let part = concat_str(" ORDER BY ", o.as_str());
                sql = concat_str(sql.as_str(), part.as_str());
            },
            None => {},
        }
        match self.limit {
            Some(l) => {
                let n = u64_to_decimal(l as u64);
                let part = concat_str(" LIMIT ", n.as_str());
                sql = concat_str(sql.as_str(), part.as_str());
            },
            None => {},
        }
        match self.offset {
            Some(o) => {
                let n = u64_to_decimal(o as u64);
                let part = concat_str(" OFFSET ", n.as_str());
                sql = concat_str(sql.as_str(), part.as_str());
            },
            None => {},
        }
        proof {
            let q = self@;
            let o_part = match q.order_by { Some(o) => " ORDER BY "@ + o, None => Seq::<char>::empty() };
            let l_part = match q.limit { Some(l) => " LIMIT "@ + decimal(l as nat), None => Seq::<char>::empty() };
            let f_part = match q.offset { Some(o) => " OFFSET "@ + decimal(o as nat), None => Seq::<char>::empty() };
            assert(sql@ =~= "SELECT * FROM "@ + q.table + where_clause(q.conditions) + o_part + l_part + f_part);
        }
        sql
    }

    /// The `COUNT(*)` query with the conditions.
    pub fn build_count(&self) -> (res: String)
        ensures
            res@ == count_sql(self@),
    {
        let sql = concat_str("SELECT COUNT(*) as count FROM ", self.table.as_str());
        let w = self.where_text();
        concat_str(sql.as_str(), w.as_str())
    }

    /// Slots from `start_slot` to `end_slot`, both included.
    pub fn by_slot_range(self, start_slot: u64, end_slot: u64) -> (res: Self)
        ensures
            res@ == (QueryBuilderView {
                conditions: self@.conditions.push(
                    "slot >= "@ + decimal(start_slot as nat) + " AND slot <= "@ + decimal(end_slot as nat)),
                ..self@
            }),
    {
        let s = u64_to_decimal(start_slot);
        let e = u64_to_decimal(end_slot);
        let a = concat_str("slot >= ", s.as_str());
        let b = concat_str(a.as_str(), " AND slot <= ");
        let c = concat_str(b.as_str(), e.as_str());
        self.where_condition(c.as_str())
    }

    /// The transaction with the given signature.
    pub fn by_signature(self, signature: &str) -> (res: Self)
        ensures
            res@ == (QueryBuilderView {
                conditions: self@.conditions.push("signature = '"@ + signature@ + "'"@),
                ..self@
            }),
    {
        let a = concat_str("signature = '", signature);
        let c = concat_str(a.as_str(), "'");
        self.where_condition(c.as_str())
    }

    /// Successful transactions only.
    pub fn successful_only(self) -> (res: Self)
        ensures
            res@ == (QueryBuilderView { conditions: self@.conditions.push("success = true"@), ..self@ }),
    {
        self.where_condition("success = true")
    }

    /// Newest blocks first.
    pub fn recent_first(self) -> (res: Self)
        ensures
            res@ == (QueryBuilderView { order_by: Some("block_time"@ + " "@ + "DESC"@), ..self@ }),
    {
        self.order_by("block_time", "DESC")
    }
}

} // verus!
