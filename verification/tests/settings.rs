use fc_server::{
    visible_task_names, PacketFilters, ServerTask,
    deserialize_copy_modifier, empty_rules, from_service_error, from_validation_error, vec_to_str, Args,
    Cli, CopyModifier, Error, Settings, Task,
};
use std::time::Duration;

#[test]
fn task_defaults_and_getters() {
    let t = Task::default();
    assert_eq!(t.get_task_name(), "default_thread");
    assert_eq!(t.get_source_dir(), "in");
    assert_eq!(t.get_target_dir(), "out");
    assert_eq!(t.get_task_delay(), Duration::from_millis(20000));
    assert_eq!(t.copy_modifier, CopyModifier::CopyAll);
    assert!(t.only_docs && !t.delete_after_copy && t.rules.is_empty());
    assert!(empty_rules().is_empty());
    let s = Settings::default();
    assert_eq!(s.tasks.len(), 1);
    assert_eq!(s.doc_types, vec!["Транспортный\\s+пакет".to_owned(), "Документ".to_owned()]);
    assert!(!Args::default().first_initialize);
    let c = Cli::default();
    assert_eq!((c.ws_port, c.http_port), (3010, 3009));
}

#[test]
fn copy_modifier_names() {
    for m in [CopyModifier::CopyAll, CopyModifier::CopyOnly, CopyModifier::CopyExcept] {
        assert_eq!(deserialize_copy_modifier(&m.to_string()), Ok(m));
    }
    assert_eq!(CopyModifier::CopyOnly.to_string(), "copy_only");
    assert_eq!(
        deserialize_copy_modifier("copy"),
        Err("Модификатор может быть только: copy_only, copy_all, copy_except".to_owned())
    );
}

#[test]
fn error_messages() {
    let v = vec!["a".to_owned(), "b".to_owned()];
    assert_eq!(from_validation_error(&v), "ab");
    assert_eq!(from_service_error(&v), "ab");
    assert_eq!(vec_to_str(&v), "a\\nb\\n");
    assert_eq!(Error::SettingsValidation(v.clone()).message(), "Ошибка валидации настроек: ab");
    assert_eq!(Error::ServiceErrors(vec![]).message(), "Ошибка валидации настроек: ");
    assert_eq!(Error::Io("disk".to_owned()).message(), "disk");
    assert_eq!(
        Error::FileTimeCopyError("f.pdf".to_owned()).message(),
        "Превышено максимальное количество попыток при попытке копирования файла `f.pdf`, файл должен успевать копироваться в систему в течении 2 минут"
    );
}

fn named(n: &str, timer: u64) -> ServerTask {
    ServerTask {
        name: n.to_owned(),
        source_dir: "in".to_owned(),
        target_dirs: vec!["out".to_owned(), "out2".to_owned()],
        report_dir: None,
        timer,
        copy_modifier: CopyModifier::CopyAll,
        delete_after_copy: false,
        is_active: true,
        generate_exclude_file: false,
        visible: true,
        autocleaning: false,
        clean_types: vec![],
        filters: PacketFilters { document_types: vec![], document_uids: vec![] },
    }
}

#[test]
fn tasks_are_updated_by_name() {
    let mut tasks = vec![named("a", 1), named("b", 2)];
    assert!(!fc_server::update(&mut tasks, named("b", 5)));
    assert_eq!(tasks.len(), 2);
    assert_eq!(tasks[1].timer, 5);
    let mut c = named("c", 7);
    c.generate_exclude_file = true;
    // a new task is added as it is, and its request to rebuild exclusions is answered
    assert!(fc_server::update(&mut tasks, c.clone()));
    assert_eq!(tasks.len(), 3);
    assert!(tasks[2].generate_exclude_file);
    assert_eq!(fc_server::task_position(&tasks, "c"), Some(2));
    // over an existing task the request is not kept
    assert!(fc_server::update(&mut tasks, c));
    assert_eq!(tasks.len(), 3);
    assert!(!tasks[2].generate_exclude_file);
    assert_eq!(tasks[2].timer, 7);
    tasks[0].generate_exclude_file = true;
    fc_server::clear_exclude_request(&mut tasks, "a");
    assert!(!tasks[0].generate_exclude_file);
    assert_eq!(tasks[0].get_task_name(), "a");
    assert_eq!(tasks[0].get_target_dirs(), &["out".to_owned(), "out2".to_owned()][..]);
    assert!(tasks[0].get_report_dir().is_none());
}

#[test]
fn tasks_are_deleted_by_name() {
    let mut tasks = vec![named("a", 1), named("b", 2), named("c", 3)];
    fc_server::delete(&mut tasks, "b");
    assert_eq!(tasks.iter().map(|t| t.name.as_str()).collect::<Vec<_>>(), vec!["a", "c"]);
    assert_eq!(fc_server::task_position(&tasks, "b"), None);
    fc_server::delete(&mut tasks, "zzz");
    assert_eq!(tasks.len(), 2);
}

#[test]
fn visible_tasks_are_named() {
    let mut tasks = vec![named("a", 1), named("b", 2), named("c", 3)];
    tasks[1].visible = false;
    assert_eq!(visible_task_names(&tasks), vec!["a".to_owned(), "c".to_owned()]);
}

#[test]
fn settings_need_existing_dirs() {
    let mut s = Settings::default();
    assert_eq!(s.check_dirs(&vec![true], &vec![true]), None);
    assert_eq!(
        s.check_dirs(&vec![true], &vec![false]),
        Some("Ошибка, директории `out` не существует".to_owned())
    );
    s.tasks.push(Task { task_name: "second".to_owned(), timer: 3, ..Task::default() });
    assert_eq!(
        s.check_dirs(&vec![true, false], &vec![false, false]),
        Some("Ошибка, директории `out` не существует".to_owned())
    );
    assert_eq!(
        s.check_dirs(&vec![true, false], &vec![true, true]),
        Some("Ошибка, директории `in` не существует".to_owned())
    );
}
