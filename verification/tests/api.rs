use fc_server::{
    find_name, pair_rows_with_tasks, packets_request, route, search_value, search_value_of,
    task_deleted_message, task_name_param, task_updated_message, Endpoint, PacketTable,
    PacketsRequest, query_param,
};

#[test]
fn route_knows_every_endpoint() {
    let table = [
        ("GET", "/api/v1/settings/tasks", Endpoint::Tasks),
        ("PUT", "/api/v1/settings/tasks/update", Endpoint::UpdateTask),
        ("DELETE", "/api/v1/settings/tasks/delete", Endpoint::DeleteTask),
        ("GET", "/api/v1/packets/truncate", Endpoint::TruncatePackets),
        ("GET", "/api/v1/packets/clean", Endpoint::CleanPackets),
        ("POST", "/api/v1/packets/rescan", Endpoint::RescanPacket),
        ("POST", "/api/v1/packets/delete", Endpoint::DeletePacket),
        ("GET", "/api/v1/packets", Endpoint::Packets),
        ("GET", "/api/v1/packets/search", Endpoint::SearchPackets),
        ("GET", "/api/v1/packets/count", Endpoint::PacketsCount),
    ];
    for (m, p, e) in table {
        assert_eq!(route(m, p), Ok(e));
    }
}

#[test]
fn route_answers_unknown_paths() {
    assert_eq!(
        route("GET", "/api/v2/x"),
        Err("Эндпоинт /api/v2/x отсутсвует в схеме API".to_owned())
    );
    // a known path with the wrong method is not found either
    assert_eq!(
        route("POST", "/api/v1/packets"),
        Err("Эндпоинт /api/v1/packets отсутсвует в схеме API".to_owned())
    );
}

#[test]
fn packet_list_requests() {
    assert_eq!(packets_request(false, None, None), Ok(PacketsRequest::All));
    assert_eq!(
        packets_request(true, Some("20"), Some("200")),
        Ok(PacketsRequest::Page { limit: 20, offset: 200 })
    );
    let missing = Err("В запросе должны присутсвовать параметры limit и offset".to_owned());
    assert_eq!(packets_request(true, Some("20"), None), missing);
    assert_eq!(packets_request(true, None, Some("1")), missing);
    assert_eq!(packets_request(true, None, None), missing);
}

#[test]
fn request_parameters() {
    assert_eq!(task_name_param(Some("t1")), Ok("t1".to_owned()));
    assert_eq!(
        task_name_param(None),
        Err("В запросе должен присутсвовать параметр name".to_owned())
    );
    let missing = Err("В запросе должен присутсвовать параметр value".to_owned());
    assert_eq!(search_value(br#"{"value":"70178878"}"#), Ok("70178878".to_owned()));
    assert_eq!(search_value(br#"{"value":12}"#), missing);
    assert_eq!(search_value(br#"{"other":"x"}"#), missing);
    assert_eq!(search_value(b"not json"), missing);
    assert_eq!(search_value_of(Some("a".to_owned())), Ok("a".to_owned()));
    assert_eq!(search_value_of(None), missing);
}

#[test]
fn task_messages() {
    assert_eq!(task_updated_message("t1"), "Задача t1 обновлена");
    assert_eq!(task_deleted_message("t1"), "Задача t1 удалена");
}

#[test]
fn rows_are_paired_with_their_tasks() {
    let names = vec!["a".to_owned(), "b".to_owned(), "a".to_owned()];
    assert_eq!(find_name(&names, "a"), Some(0));
    assert_eq!(find_name(&names, "b"), Some(1));
    assert_eq!(find_name(&names, "c"), None);
    let rows = vec![
        PacketTable::new("1", "b", false),
        PacketTable::new("2", "gone", true),
        PacketTable::new("3", "a", true),
    ];
    assert_eq!(pair_rows_with_tasks(&rows, &names), vec![(0, 1), (2, 0)]);
    assert_eq!(pair_rows_with_tasks(&rows, &vec![]), vec![]);
}

#[test]
fn query_parameters_are_read() {
    let q = "limit=20&offset=200";
    assert_eq!(query_param(q, "limit"), Some("20".to_owned()));
    assert_eq!(query_param(q, "offset"), Some("200".to_owned()));
    assert_eq!(query_param(q, "name"), None);
    assert_eq!(query_param("", "name"), None);
    assert_eq!(query_param("name=", "name"), Some("".to_owned()));
    assert_eq!(query_param("flag&name=t1&name=t2", "name"), Some("t1".to_owned()));
    assert_eq!(query_param("a=b=c", "a"), Some("b=c".to_owned()));
    assert_eq!(query_param("limitx=1", "limit"), None);
    let limit = query_param(q, "limit");
    let offset = query_param(q, "offset");
    assert_eq!(
        packets_request(true, limit.as_deref(), offset.as_deref()),
        Ok(PacketsRequest::Page { limit: 20, offset: 200 })
    );
}
