use fc_server::{
    next_dir_name, AddStep, ExcludesCache, ForgetWatcher,
    dir_iteration, failure_message, iterated_dir_name, pass_rules, report_decision, should_autoclean,
    split_once, parse_u32, DeliveryFacts, FileStamp, PacketCleaner, PacketFacts, PacketFilters,
    ReportDecision, RuleFailure, StabilityCheck, TaskTimers, Verdict, MAX_REPEATS,
};

fn s(v: &str) -> String {
    v.to_owned()
}

#[test]
fn test_copy() {
}

#[test]
fn test_dir_name() {
    let old_path = "some_dir_iter_231";
    let iter = if let Some(splited) = split_once(old_path, "_iter_") {
        assert_eq!(splited.1, "231");
        1
    } else {
        0
    };
    println!("{}", iter);
}

#[test]
fn dir_iteration_counts_renames() {
    assert_eq!(dir_iteration("/watch/some_dir"), Some(0));
    assert_eq!(dir_iteration("/watch/abc_iter_231"), Some(232));
    assert_eq!(dir_iteration("/watch/abc_iter_x"), Some(1));
    assert_eq!(dir_iteration("/watch/abc_iter_+7"), Some(8));
    assert_eq!(dir_iteration("/watch/abc_iter_4294967294"), Some(4294967295));
    assert_eq!(dir_iteration("/watch/abc_iter_4294967295"), None);
    let name = iterated_dir_name("0190b7c4-7b8e-7cc3-9d2e-0f3c3c1d2e4f", 5);
    assert_eq!(name, "0190b7c4-7b8e-7cc3-9d2e-0f3c3c1d2e4f_iter_5");
    assert_eq!(dir_iteration(&name), Some(6));
}

#[test]
fn parse_u32_like_std() {
    for t in ["0", "42", "+42", "4294967295", "4294967296", "", "+", "-1", " 1", "12a", "007"] {
        assert_eq!(parse_u32(t), t.parse::<u32>().ok(), "{}", t);
    }
}

#[test]
fn split_once_like_std() {
    for (t, p) in [("a_iter_b_iter_c", "_iter_"), ("abc", "x"), ("abc", ""), ("", "a"), ("ab", "ab")] {
        let expected = t.split_once(p).map(|(a, b)| (a.to_owned(), b.to_owned()));
        assert_eq!(split_once(t, p), expected);
    }
}

fn filters(types: &[&str], uids: &[&str]) -> PacketFilters {
    PacketFilters {
        document_types: types.iter().map(|t| s(t)).collect(),
        document_uids: uids.iter().map(|t| s(t)).collect(),
    }
}

#[test]
fn copy_only_and_except_are_complementary_on_one_filter() {
    let f = filters(&["Документ"], &[]);
    let doc = PacketFacts { packet_type: Some(s("Документ")), source_uid: Some(s("u1")) };
    let other = PacketFacts { packet_type: Some(s("Квитанция")), source_uid: Some(s("u1")) };
    assert!(pass_rules(&f, &doc, true).pass);
    assert!(!pass_rules(&f, &doc, false).pass);
    assert!(!pass_rules(&f, &other, true).pass);
    assert!(pass_rules(&f, &other, false).pass);
    assert!(pass_rules(&f, &doc, true).failures.is_empty());
}

#[test]
fn both_filters_take_either_match() {
    let f = filters(&["Документ"], &["u1"]);
    let one = PacketFacts { packet_type: Some(s("Документ")), source_uid: Some(s("u2")) };
    assert!(pass_rules(&f, &one, true).pass);
    assert!(pass_rules(&f, &one, false).pass);
    let none = PacketFacts { packet_type: Some(s("Х")), source_uid: Some(s("u2")) };
    assert!(!pass_rules(&f, &none, true).pass);
    assert!(pass_rules(&f, &none, false).pass);
}

#[test]
fn missing_facts_are_reported() {
    let f = filters(&["Документ"], &["u1"]);
    let bare = PacketFacts { packet_type: None, source_uid: None };
    let r = pass_rules(&f, &bare, true);
    assert!(!r.pass);
    assert_eq!(r.failures, vec![RuleFailure::MissingPacketType, RuleFailure::MissingPacketType, RuleFailure::MissingSourceUid]);
    let only_types = filters(&["Документ"], &[]);
    let r2 = pass_rules(&only_types, &bare, false);
    assert!(!r2.pass);
    assert_eq!(r2.failures, vec![RuleFailure::MissingPacketType]);
    let no_filters = filters(&[], &[]);
    let r3 = pass_rules(&no_filters, &bare, true);
    assert!(!r3.pass);
    assert!(r3.failures.is_empty());
    assert_eq!(
        failure_message(RuleFailure::MissingSourceUid, "/in/p1"),
        "Ошибка обработки пакета /in/p1 -> uid отправителя в пакете не найден"
    );
    assert_eq!(
        failure_message(RuleFailure::MissingPacketType, "/in/p1"),
        "Ошибка обработки пакета /in/p1 -> тип пакета (xdms:type) в схеме xml не найден"
    );
}

#[test]
fn autoclean_and_cleaner_decisions() {
    let clean = vec![s("Квитанция")];
    assert!(should_autoclean(true, &Some(s("Квитанция")), &clean));
    assert!(!should_autoclean(false, &Some(s("Квитанция")), &clean));
    assert!(!should_autoclean(true, &None, &clean));
    assert!(PacketCleaner::removes_dir(true, Some(0), &None, &clean));
    assert!(!PacketCleaner::removes_dir(true, Some(2), &None, &clean));
    assert!(!PacketCleaner::removes_dir(true, None, &None, &clean));
    assert!(PacketCleaner::removes_dir(false, Some(3), &Some(s("Квитанция")), &clean));
    assert!(!PacketCleaner::removes_dir(false, Some(3), &Some(s("Документ")), &clean));
    assert!(!PacketCleaner::removes_dir(true, Some(0), &None, &vec![]));
}

#[test]
fn delivery_report_decisions() {
    let full = DeliveryFacts {
        report_dir: Some(s("/reports")),
        error: None,
        document_uid: Some(s("d")),
        source_uid: Some(s("s")),
        organization: Some(s("o")),
        addressee: Some(s("a")),
    };
    assert_eq!(report_decision(&full), ReportDecision::Send);
    let no_dir = DeliveryFacts { report_dir: None, ..full_clone(&full) };
    assert_eq!(report_decision(&no_dir), ReportDecision::NoReportDir);
    let err = DeliveryFacts { error: Some(s("bad")), ..full_clone(&full) };
    assert_eq!(report_decision(&err), ReportDecision::PacketError);
    let lacking = DeliveryFacts { document_uid: None, organization: None, ..full_clone(&full) };
    assert_eq!(
        report_decision(&lacking),
        ReportDecision::MissingFields(vec![s("uid документа"), s("наименование организации отправителя")])
    );
}

fn full_clone(f: &DeliveryFacts) -> DeliveryFacts {
    DeliveryFacts {
        report_dir: f.report_dir.clone(),
        error: f.error.clone(),
        document_uid: f.document_uid.clone(),
        source_uid: f.source_uid.clone(),
        organization: f.organization.clone(),
        addressee: f.addressee.clone(),
    }
}

#[test]
fn task_fires_every_timer() {
    let mut t = TaskTimers::new();
    assert_eq!(t.remaining("a"), None);
    assert!(!t.step("a", 45000, 15000));
    assert_eq!(t.remaining("a"), Some(45000));
    assert!(!t.step("a", 45000, 15000));
    assert!(!t.step("a", 45000, 15000));
    assert!(t.step("a", 45000, 15000));
    assert_eq!(t.remaining("a"), Some(45000));
    assert!(!t.step("b", 15000, 15000));
    assert!(t.step("b", 15000, 15000));
    assert_eq!(t.remaining("a"), Some(45000));
}

#[test]
fn file_found_stable_on_equal_looks() {
    let mut c = StabilityCheck::new();
    assert_eq!(c.repeats_left(), MAX_REPEATS);
    let a = FileStamp { modified: 10, len: 5 };
    let b = FileStamp { modified: 11, len: 6 };
    assert_eq!(c.observe(Some(a)), Verdict::Wait);
    assert_eq!(c.observe(Some(b)), Verdict::Wait);
    assert_eq!(c.observe(None), Verdict::Wait);
    assert_eq!(c.observe(Some(b)), Verdict::Stable);
}

#[test]
fn changing_file_gives_up() {
    let mut c = StabilityCheck::new();
    let mut last = Verdict::Wait;
    for i in 0..MAX_REPEATS {
        last = c.observe(Some(FileStamp { modified: i as i128, len: 1 }));
        if i + 1 < MAX_REPEATS {
            assert_eq!(last, Verdict::Wait);
        }
    }
    assert_eq!(last, Verdict::GaveUp);
    assert_eq!(c.repeats_left(), 0);
}

#[test]
fn forgotten_dirs_are_renamed_on_second_sight() {
    let mut w = ForgetWatcher::new();
    w.begin_cycle(2);
    assert!(!w.visit("d1".to_owned()));
    assert!(!w.visit("d2".to_owned()));
    w.begin_cycle(1);
    assert!(w.visit("d1".to_owned()));
    let new_name = next_dir_name("0190b7c4", "/watch", "d1").unwrap();
    assert_eq!(new_name, "0190b7c4_iter_0");
    w.renamed("d1", new_name.clone());
    assert!(!w.is_seen("d1"));
    assert!(w.is_seen(&new_name));
    assert!(w.visit(new_name.clone()));
    assert_eq!(next_dir_name("ff", "/watch", &new_name), Some("ff_iter_1".to_owned()));
    assert_eq!(next_dir_name("ff", "/watch", "x_iter_4294967295"), None);
    // an empty watched directory forgets everything
    w.begin_cycle(0);
    assert!(!w.is_seen(&new_name) && !w.is_seen("d2"));
}

#[test]
fn excluded_dirs_are_not_added_twice() {
    let mut c = ExcludesCache::new(&vec!["k1".to_owned()]);
    assert!(c.is_excluded("k1"));
    assert_eq!(c.add_step("k1"), AddStep::AlreadyExcluded);
    assert_eq!(c.add_step("k2"), AddStep::Insert);
    assert!(c.record_insert("k2".to_owned(), 1));
    assert_eq!(c.add_step("k2"), AddStep::AlreadyExcluded);
    assert!(!c.record_insert("k3".to_owned(), 0));
    c.record_delete("k2", 0);
    assert!(c.is_excluded("k2"));
    c.record_delete("k2", 1);
    assert_eq!(c.add_step("k2"), AddStep::Insert);
    c.record_clear(&vec!["k1".to_owned(), "k9".to_owned()]);
    assert!(!c.is_excluded("k1") && c.is_excluded("k3"));
}

/// Excludes the directory `dir` of the task `task` as the server does: the table is asked only
/// for a directory the cache does not know, and adds a row for it.
fn add_exclude(c: &mut ExcludesCache, task: &str, dir: &str) -> bool {
    let key = [task, "/", dir].concat();
    match c.add_step(&key) {
        AddStep::Insert => c.record_insert(key, 1),
        AddStep::AlreadyExcluded => false,
    }
}

fn delete_exclude(c: &mut ExcludesCache, task: &str, dir: &str) {
    let key = [task, "/", dir].concat();
    c.record_delete(&key, 1);
}

#[test]
fn cache_add_then_delete() {
    let mut t = ExcludesCache::new(&vec![]);
    let tasks = vec!["task_1", "task_2"];
    let add_1 = add_exclude(&mut t, tasks[0], "1");
    assert!(add_1);
    delete_exclude(&mut t, tasks[0], "1");
    assert!(!t.is_excluded("task_1/1"));
}

#[test]
fn cache_skips_double_add() {
    let mut t = ExcludesCache::new(&vec![]);
    let tasks = vec!["task_1", "task_2"];
    let add_1 = add_exclude(&mut t, tasks[0], "21");
    let add_2 = add_exclude(&mut t, tasks[0], "21");
    assert!(add_1, "Ошибка добавления значения");
    assert!(!add_2, "Значение добавлено, хотя это дубликат и добавлено быть не должно!");
    delete_exclude(&mut t, tasks[0], "21");
    assert!(add_exclude(&mut t, tasks[0], "21"), "Удаление прошло не успешно");
}
