//! What the store and the library hand each other: rows as plain values,
//! and the queries that select them.
use crate::error::Error;
use core::marker::PhantomData;
use vstd::prelude::*;
use vstd::string::StringExecFns;

verus! {

/// One row of the table of sections, as the store holds it.
#[derive(Debug, Clone, Copy)]
pub struct Row<'r> {
    /// The detail level, counted from the finest level at which sections
    /// are kept.
    pub detail_level: u8,
    pub pos_x: i32,
    pub pos_z: i32,
    pub min_y: i32,
    pub data_checksum: i32,
    pub data: &'r [u8],
    pub column_generation_step: &'r [u8],
    pub column_world_compression_mode: &'r [u8],
    pub mapping: &'r [u8],
    pub data_format_version: u8,
    pub compression_mode: u8,
    pub apply_to_parent: Option<bool>,
    pub apply_to_children: Option<bool>,
    pub last_modified_unix_date_time: i64,
    pub created_unix_date_time: i64,
}

/// A value that is bound to a placeholder of a statement.
#[derive(Debug, Clone, Copy, PartialEq, Eq, Structural)]
pub enum Param {
    /// A number of 32 bits.
    Int(i32),
    /// A number of 64 bits.
    Long(i64),
    /// A truth value.
    Bool(bool),
}

/// A selection of rows: a condition, an order, and the values that the
/// placeholders of the condition stand for.
pub trait Query<P = ()> {
    /// The condition that the rows meet.
    spec fn condition(&self) -> Seq<char>;

    /// The order in which the rows come, if one is asked for.
    spec fn order(&self) -> Option<Seq<char>>;

    /// The values of the placeholders, in their order, for `params`.
    spec fn bound(&self, params: P) -> Seq<Param>;

    /// The condition that the rows meet.
    fn where_clause(&self) -> (clause: &str)
        ensures
            clause@ == self.condition(),
    ;

    /// The order in which the rows come, if one is asked for.
    fn order_by(&self) -> (order: Option<&str>)
        ensures
            match order {
                Some(order) => self.order() == Some(order@),
                None => self.order() is None,
            },
    ;

    /// The values of the placeholders, in their order, for `params`.
    fn bind_params(&self, params: P) -> (values: Vec<Param>)
        ensures
            values@ == self.bound(params),
    ;
}

/// The selection of all rows.
#[derive(Debug, Clone, Copy)]
pub struct All;

impl Query for All {
    open spec fn condition(&self) -> Seq<char> {
        "1"@
    }

    open spec fn order(&self) -> Option<Seq<char>> {
        None
    }

    open spec fn bound(&self, params: ()) -> Seq<Param> {
        Seq::empty()
    }

    fn where_clause(&self) -> (clause: &str) {
        "1"
    }

    fn order_by(&self) -> (order: Option<&str>) {
        None
    }

    fn bind_params(&self, params: ()) -> (values: Vec<Param>) {
        Vec::new()
    }
}

/// A selection with an order of its own: the rows of `query`, in the order
/// `order`.
pub struct Ordered<P, Q: Query<P>> {
    pub order: &'static str,
    pub query: Q,
    pub _p: PhantomData<P>,
}

impl<P, Q: Query<P>> Query<P> for Ordered<P, Q> {
    open spec fn condition(&self) -> Seq<char> {
        self.query.condition()
    }

    open spec fn order(&self) -> Option<Seq<char>> {
        Some(self.order@)
    }

    open spec fn bound(&self, params: P) -> Seq<Param> {
        self.query.bound(params)
    }

    fn where_clause(&self) -> (clause: &str) {
        self.query.where_clause()
    }

    fn order_by(&self) -> (order: Option<&str>) {
        Some(self.order)
    }

    fn bind_params(&self, params: P) -> (values: Vec<Param>) {
        self.query.bind_params(params)
    }
}

/// The rows of `query`, in the order `order`: the condition and the values
/// stay, and `order` takes the place of the order that `query` had.
pub fn ordered<P, Q: Query<P>>(query: Q, order: &'static str) -> (r: Ordered<P, Q>)
    ensures
        r.condition() == query.condition(),
        r.order() == Some(order@),
        forall|params: P| #[trigger] r.bound(params) == query.bound(params),
{
    Ordered { order, query, _p: PhantomData }
}

/// The text of the statement that selects `selection` from `table` where
/// `condition` holds, in the order `order`.
pub open spec fn select_text(
    selection: Seq<char>,
    table: Seq<char>,
    condition: Seq<char>,
    order: Option<Seq<char>>,
) -> Seq<char> {
    "SELECT "@ + selection + " FROM "@ + table + " WHERE "@ + condition + " "@ + match order {
        Some(order) => "ORDER BY "@ + order,
        None => Seq::empty(),
    }
}

/// The statement that selects the rows of `query` from `table`.
pub fn select_sql<P, Q: Query<P>>(selection: &str, table: &str, query: &Q) -> (sql: String)
    ensures
        sql@ == select_text(selection@, table@, query.condition(), query.order()),
{
    let mut sql = String::from_str("SELECT ");
    sql.append(selection);
    sql.append(" FROM ");
    sql.append(table);
    sql.append(" WHERE ");
    sql.append(query.where_clause());
    sql.append(" ");
    match query.order_by() {
        Some(order) => {
            proof {
                assert(sql@ + ("ORDER BY "@ + order@) =~= sql@ + "ORDER BY "@ + order@);
            }
            sql.append("ORDER BY ");
            sql.append(order);
        },
        None => {
            proof {
                assert(sql@ + Seq::<char>::empty() =~= sql@);
            }
        },
    }
    sql
}

/// The text of the statement that inserts into `table` what `insert`
/// names.
pub open spec fn insert_text(table: Seq<char>, insert: Seq<char>) -> Seq<char> {
    "INSERT INTO "@ + table + " "@ + insert
}

/// The statement that inserts into `table` what `insert` names.
pub fn insert_sql(table: &str, insert: &str) -> (sql: String)
    ensures
        sql@ == insert_text(table@, insert@),
{
    let mut sql = String::from_str("INSERT INTO ");
    sql.append(table);
    sql.append(" ");
    sql.append(insert);
    sql
}

/// Whether an insert that changed `changed` rows did what it was for: it
/// did if it changed one row.
pub fn insert_outcome(changed: usize) -> (r: Result<(), Error>)
    ensures
        match r {
            Ok(_) => changed == 1,
            Err(error) => changed != 1 && error == Error::StatementChangedRows(changed),
        },
{
    if changed == 1 {
        Ok(())
    } else {
        Err(Error::StatementChangedRows(changed))
    }
}

/// A table of the store, and how its rows become values.
pub trait Repo {
    /// What is selected of each row.
    const SELECTION: &'static str;

    /// What an insert names: the columns and their placeholders.
    const INSERT: &'static str;

    /// The name of the table.
    const TABLE: &'static str;

    /// What a row becomes.
    type Element<'r>: Sized;

    /// Why `row` becomes no value, if it becomes none.
    spec fn refusal(row: Row<'_>) -> Option<Error>;

    /// Whether `element` is the value that `row` holds.
    spec fn read(row: Row<'_>, element: Self::Element<'_>) -> bool;

    /// The value that `row` holds.
    fn from_row<'r>(row: &Row<'r>) -> (r: Result<Self::Element<'r>, Error>)
        ensures
            match r {
                Ok(element) => Self::refusal(*row) is None && Self::read(*row, element),
                Err(error) => Self::refusal(*row) == Some(error),
            },
    ;

    /// Whether `outcome` is what writing `element` gives: the row that
    /// holds it, or why no row does.
    spec fn written(element: Self::Element<'_>, outcome: Result<Row<'_>, Error>) -> bool;

    /// The row that holds `element`.
    fn bind_insert<'r>(element: &'r Self::Element<'_>) -> (r: Result<Row<'r>, Error>)
        ensures
            Self::written(*element, r),
    ;
}

/// The statement that selects the rows of `query` from the table of `R`.
pub fn select_from<R: Repo, P, Q: Query<P>>(query: &Q) -> (sql: String)
    ensures
        sql@ == select_text(R::SELECTION@, R::TABLE@, query.condition(), query.order()),
{
    select_sql(R::SELECTION, R::TABLE, query)
}

/// The statement that inserts a row into the table of `R`.
pub fn insert_into<R: Repo>() -> (sql: String)
    ensures
        sql@ == insert_text(R::TABLE@, R::INSERT@),
{
    insert_sql(R::TABLE, R::INSERT)
}

} // verus!
