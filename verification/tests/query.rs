use fc_server::{delete_many_exclude_ids_selector, QuerySelector, Selector, SortingOrder};

#[test]
fn test_query_generic() {
    let str_1 = "123";
    let str_2 = String::from("1строка");
    let num = 8u32;
    let b = true;
    let q = Selector::new("SELECT one, two FROM tests")
        .add_param("one", str_1)
        .add_param("two", &str_2)
        .add_param("num", &num.to_string())
        .add_param("bool", &b.to_string())
        .add_json_param("requisites->'mj'->'number'", &72097.to_string())
        .sort(SortingOrder::Asc("two"))
        .query();
    assert_eq!(q.0, "SELECT one, two FROM tests WHERE one = $1 AND two = $2 AND num = $3 AND bool = $4 AND requisites->'mj'->'number' = $5 ORDER BY two ASC");
    for v in q.1.as_ref().unwrap() {
        println!("{:?}", v)
    }
}

#[test]
fn test_query_generic_2() {
    let ids = vec!["1".to_owned(), "2".to_owned(), "3".to_owned(), "4".to_owned()];
    let q = Selector::new("SELECT one, two FROM tests")
        .where_in(&ids)
        .and("user_id", "=", "12345")
        .sort(SortingOrder::Asc("two"))
        .query();
    assert_eq!(q.0, "SELECT one, two FROM tests WHERE id IN (\"1\",\"2\",\"3\",\"4\") AND user_id=\"12345\" ORDER BY two ASC");
}

#[test]
fn test_sql_query() {
    let user_id = Some("123".to_owned());
    let ids = vec!["1".to_owned(), "2".to_owned(), "3".to_owned(), "4".to_owned()];
    let del = ["DELETE FROM ", "111"].concat();
    let mut sql = Selector::new(&del).where_not_in(&ids);
    if let Some(uid) = user_id {
        sql = sql.and("user_id", "=", &uid);
    }
    assert_eq!(sql.query().0, "DELETE FROM 111 WHERE id NOT IN (\"1\",\"2\",\"3\",\"4\") AND user_id=\"123\"");
}

#[test]
fn values_follow_placeholders() {
    let q = Selector::new("SELECT * FROM t")
        .add_param("a", "1")
        .add_json_param("j", "x")
        .add_params(Some(vec![("b", "2"), ("c", "3")]))
        .query();
    assert_eq!(q.0, "SELECT * FROM t WHERE a = $1 AND j = $2 AND b = $3 AND c = $4");
    assert_eq!(q.1, Some(vec!["1".to_owned(), "'\"x\"'".to_owned(), "2".to_owned(), "3".to_owned()]));
}

#[test]
fn base_alone_is_unchanged() {
    let q = Selector::new("SELECT * FROM t").query();
    assert_eq!(q.0, "SELECT * FROM t");
    assert_eq!(q.1, None);
}

#[test]
fn and_without_where_is_dropped() {
    let q = Selector::new("SELECT * FROM t").and("user_id", "=", "1").query();
    assert_eq!(q.0, "SELECT * FROM t");
}

#[test]
fn where_list_hides_id_clause() {
    let ids = vec!["7".to_owned()];
    let q = Selector::new("SELECT * FROM t")
        .where_in(&ids)
        .add_param("a", "1")
        .and("u", "<", "5")
        .query();
    assert_eq!(q.0, "SELECT * FROM t WHERE a = $1 AND u<\"5\"");
}

#[test]
fn paging_and_descending_order() {
    let q = Selector::new_concat(&["SELECT id FROM ", "packets"])
        .add_raw_query(" where x")
        .sort(SortingOrder::Desc("delivery_time"))
        .limit(&20)
        .offset(&4294967295)
        .query();
    assert_eq!(q.0, "SELECT id FROM packets where x ORDER BY delivery_time DESC LIMIT 20 OFFSET 4294967295");
}

#[test]
fn empty_params_still_open_where() {
    let q = Selector::new("SELECT * FROM t").add_params(Some(vec![])).query();
    assert_eq!(q.0, "SELECT * FROM t WHERE ");
    assert_eq!(q.1, Some(vec![]));
    let q2 = Selector::new("SELECT * FROM t").add_params(None).query();
    assert_eq!(q2.0, "SELECT * FROM t");
}

#[test]
fn delete_many_exclude_ids_statement() {
    let ids = vec!["1".to_owned(), "2".to_owned()];
    let q = delete_many_exclude_ids_selector("addresses", &ids, Some("9")).query();
    assert_eq!(q.0, "DELETE FROM addresses WHERE id NOT IN (\"1\",\"2\") AND user_id=\"9\"");
    let q2 = delete_many_exclude_ids_selector("addresses", &[], None).query();
    assert_eq!(q2.0, "DELETE FROM addresses WHERE id NOT IN ()");
}
