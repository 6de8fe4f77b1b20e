use distant_horizons::detail_level::DetailLevel;
use distant_horizons::error::Error;
use distant_horizons::repo::{
    insert_into, insert_outcome, insert_sql, ordered, select_from, select_sql, All, Param, Query,
    Repo,
};
use distant_horizons::section::{ByDetailLevel, Section};

#[test]
fn all_rows_meet_the_condition_that_always_holds() {
    assert_eq!(All.where_clause(), "1");
    assert_eq!(All.order_by(), None);
    assert_eq!(All.bind_params(()), vec![]);
    assert_eq!(select_sql("*", "FullData", &All), "SELECT * FROM FullData WHERE 1 ");
}

#[test]
fn an_order_is_put_on_a_query_without_changing_it() {
    let query = ordered(ByDetailLevel, "PosX DESC");
    assert_eq!(query.where_clause(), "DetailLevel = ?");
    assert_eq!(query.order_by(), Some("PosX DESC"));
    assert_eq!(query.bind_params(DetailLevel::Block4), vec![Param::Int(2)]);
    assert_eq!(
        select_sql("a, b", "T", &query),
        "SELECT a, b FROM T WHERE DetailLevel = ? ORDER BY PosX DESC"
    );
    let again = ordered(query, "PosZ");
    assert_eq!(again.where_clause(), "DetailLevel = ?");
    assert_eq!(again.order_by(), Some("PosZ"));
    assert_eq!(select_sql("*", "T", &again), "SELECT * FROM T WHERE DetailLevel = ? ORDER BY PosZ");
}

#[test]
fn sections_are_selected_from_their_table() {
    assert_eq!(<Section as Repo>::TABLE, "FullData");
    assert_eq!(<Section as Repo>::SELECTION, "*");
    let query = Section::all_query();
    assert_eq!(
        select_from::<Section, (), _>(&query),
        "SELECT * FROM FullData WHERE 1 ORDER BY (cast(PosX as INTEGER) ** 2 + cast(PosZ as INTEGER) ** 2) DESC"
    );
    let (query, level) = Section::detail_level_query(DetailLevel::Chunk16);
    assert_eq!(level, DetailLevel::Block4);
    assert_eq!(query.bind_params(level), vec![Param::Int(2)]);
    assert_eq!(
        select_from::<Section, DetailLevel, _>(&query),
        "SELECT * FROM FullData WHERE DetailLevel = ? "
    );
    let (_, level) = Section::detail_level_query(DetailLevel::Block2);
    assert_eq!(level, DetailLevel::Block);
}

#[test]
fn an_insert_names_its_table_and_columns() {
    assert_eq!(insert_sql("T", "VALUES (?)"), "INSERT INTO T VALUES (?)");
    let sql = insert_into::<Section>();
    assert!(sql.starts_with("INSERT INTO FullData \n"));
    assert!(sql.contains("? AS DetailLevel,"));
    assert_eq!(sql.matches('?').count(), 15);
}

#[test]
fn an_insert_changes_one_row() {
    assert_eq!(insert_outcome(1), Ok(()));
    assert_eq!(insert_outcome(0), Err(Error::StatementChangedRows(0)));
    assert_eq!(insert_outcome(2), Err(Error::StatementChangedRows(2)));
}
