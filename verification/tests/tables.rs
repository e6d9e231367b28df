use fc_server::{
    executor_contact_key, AddresseTable, ExceptTable, Executor, Id, PacketTable, PacketTypesCount,
    QuerySelector, SenderInfo,
};

fn s(v: &str) -> String {
    v.to_owned()
}

#[test]
fn except_table_statements() {
    let e = ExceptTable::new("task_1", "dir_1");
    assert_eq!(e.task_id, "task_1");
    assert_eq!(e.get_id(), "dir_1");
    assert_eq!(ExceptTable::table_name(), "exceptions");
    assert_eq!(ExceptTable::table_fields(), vec!["dir_name", "task_id"]);
    assert_eq!(
        ExceptTable::exists_selector("t", "d").query().0,
        "SELECT COUNT(*) as count FROM exceptions where dir_name='d' AND  task_id='t'"
    );
    assert_eq!(
        ExceptTable::truncate_query(&vec![s("a"), s("b")], "t"),
        "INSERT INTO exceptions (dir_name, task_id) VALUES ('a','t'),('b','t')"
    );
    assert_eq!(ExceptTable::delete_task_query("t"), "DELETE FROM exceptions WHERE task_id=('t')");
    assert!(ExceptTable::create_table().starts_with("CREATE TABLE IF NOT EXISTS exceptions ("));
}

#[test]
fn packet_table_statements() {
    assert_eq!(PacketTable::like("directory", "x"), "directory LIKE '%x%'");
    let names = vec![s("a"), s("b")];
    assert_eq!(
        PacketTable::only_visible_tasks_query(&names),
        " where  task_name = \"a\" or  task_name = \"b\""
    );
    assert_eq!(PacketTable::only_visible_tasks_query(&vec![]), " where ");
    assert_eq!(
        PacketTable::packets_count_selector(&names).query().0,
        "SELECT COUNT(*) as count FROM packets where  task_name = \"a\" or  task_name = \"b\""
    );
    assert_eq!(
        PacketTable::page_ids_selector(&10, &20, &vec![s("a")]).query().0,
        "SELECT id FROM packets where  task_name = \"a\" ORDER BY delivery_time DESC LIMIT 10 OFFSET 20"
    );
    assert_eq!(
        PacketTable::page_selector("SELECT * FROM packets", &[s("1")]).query().0,
        "SELECT * FROM packets WHERE id IN (\"1\") ORDER BY delivery_time DESC"
    );
    assert_eq!(
        PacketTable::search_selector("SELECT * FROM packets", "44").query().0,
        "SELECT * FROM packets where directory LIKE '%44%' OR requisites LIKE '%44%' ORDER BY delivery_time DESC LIMIT 100"
    );
    assert_eq!(PacketTable::table_fields().len(), 16);
    let p = PacketTable { id: s("1"), task_name: s("t"), report_sended: true };
    assert_eq!(p.get_task_name(), "t");
    assert!(p.report_is_sended());
    let c = PacketTypesCount::default();
    assert_eq!((c.count, c.packet_type.as_str()), (0, "Неизвестно"));
}

fn sender(executor: Option<Executor>) -> Option<SenderInfo> {
    Some(SenderInfo {
        source_guid: Some(s("guid")),
        organization: Some(s("org")),
        medo_addressee: Some(s("addr")),
        executor,
    })
}

#[test]
fn addresse_from_sender() {
    let plain = AddresseTable::from_sender(&sender(None), "h").unwrap();
    assert_eq!((plain.id.as_str(), plain.organization.as_str()), ("guid", "org"));
    assert_eq!(plain.medo_addresse.as_deref(), Some("addr"));
    assert!(plain.contact_info.is_empty() && plain.icon.is_none());
    let ex = Executor { organization: None, person: Some(s("Иванов")), post: None, contact_info: Some(s("123")) };
    assert_eq!(executor_contact_key(&ex), Some(vec![s(""), s("Иванов"), s(""), s("123")]));
    let with = AddresseTable::from_sender(&sender(Some(ex)), "hash").unwrap();
    assert_eq!(with.contact_info.len(), 1);
    let c = &with.contact_info[0];
    assert_eq!(c.id.as_deref(), Some("hash"));
    assert_eq!(c.person.as_deref(), Some("Иванов"));
    assert_eq!(c.organization.as_deref(), Some(""));
    assert_eq!(c.contacts.len(), 1);
    assert_eq!((c.contacts[0].contact_type.as_str(), c.contacts[0].value.as_str()), ("телефон", "123"));
    let empty = Executor { organization: None, person: Some(s("")), post: None, contact_info: None };
    assert_eq!(executor_contact_key(&empty), None);
    assert!(AddresseTable::from_sender(&sender(Some(empty)), "h").unwrap().contact_info.is_empty());
    assert_eq!(AddresseTable::from_sender(&None, "h").unwrap_err(), "id организации отправителя не найден");
    let no_org = Some(SenderInfo { source_guid: Some(s("g")), organization: None, medo_addressee: None, executor: None });
    assert_eq!(AddresseTable::from_sender(&no_org, "h").unwrap_err(), "наименование организации отправителя не найдено");
    assert_eq!(AddresseTable::count_selector().query().0, "SELECT COUNT(*) as count FROM addresses");
    assert_eq!(AddresseTable::table_name(), "addresses");
}
