use fc_server::{AsNewdoc, Date, DateFormat, DaysProgress, PacketDocument};

#[test]
fn parse_and_write_formats() {
    let d = Date::parse("2022-10-26T13:23:52").unwrap();
    assert_eq!(d.val, "2022-10-26T13:23:52");
    assert_eq!(d.write(DateFormat::DotDate), "26.10.2022");
    assert_eq!(d.write(DateFormat::Serialize), "2022-10-26T13:23:52");
    assert_eq!(d.write(DateFormat::OnlyDate), "26-10-2022");
    assert_eq!(d.to_string(), "26.10.2022");
    assert_eq!(d.try_write(DateFormat::OnlyDate), Some("26-10-2022".to_owned()));
    assert_eq!(Date { val: "26.10.2022".to_owned() }.try_write(DateFormat::DotDate), None);
    assert_eq!(Date::parse("2024-01-01 08:05:09").unwrap().val, "2024-01-01T08:05:09");
    assert_eq!(Date::parse("26.10.2022").unwrap().val, "2022-10-26T00:00:00");
    assert!(Date::parse("2024-01-02- 00:00:00").is_err());
    assert_eq!(Date::parse("26-10-2022T13:23:52").unwrap().val, "26-10-2022T13:23:52");
    assert_eq!(Date::parse("26 октября 2020 г.").unwrap().val, "2020-10-26T00:00:00");
    assert_eq!(Date::parse("1 мая 2024").unwrap().val, "2024-05-01T00:00:00");
    assert!(Date::parse("30 февраля 2024").is_err());
    assert!(Date::parse("26 октябр 2020").is_err());
    assert!(Date::parse("26 октября 20201").is_err());
    // a leap second is kept and written as the second 60
    assert_eq!(Date::parse("2024-01-01 10:20:60").unwrap().val, "2024-01-01T10:20:60");
}

#[test]
fn date_output() {
    let date = Date::parse("26-10-2022T13:23:52").unwrap();
    println!("Парсинг 26-10-2022T13:23:52 - {} ", date.write(DateFormat::DotDate));
    let date2 = Date::parse("26 октября 2020 г.").unwrap();
    println!("Парсинг 26 октября 2020 г. - {} ", date2.write(DateFormat::DotDate));
    assert_eq!(date.write(DateFormat::DotDate), "26.10.2022".to_owned());
    assert_eq!(date.write(DateFormat::Serialize), "26-10-2022T13:23:52".to_owned());
    assert_eq!(date.write(DateFormat::OnlyDate), "26-10-2022".to_owned());
    println!("Вывод в формате DotDate: {}", date.write(DateFormat::DotDate));
    println!("Вывод в формате Serialize: {}", date.write(DateFormat::Serialize));
    println!("Вывод в формате OnlyDate: {}", date.write(DateFormat::OnlyDate));
    println!("Тукущее время: {}", Date::now().unwrap().to_string());
    println!("Дата 12 12 2056: {}", Date::new(2056, 12, 12).unwrap().to_string());
}

#[test]
fn new_date_of_calendar_days() {
    assert_eq!(Date::new(2056, 12, 12).unwrap().val, "2056-12-12T00:00:00");
    assert_eq!(Date::new(2024, 2, 29).unwrap().val, "2024-02-29T00:00:00");
    assert!(Date::new(2023, 2, 29).is_none());
    assert!(Date::new(2023, 4, 31).is_none());
    assert!(Date::new(2023, 13, 1).is_none());
    assert!(Date::new(400000, 1, 1).is_none());
    let now = Date::now().unwrap();
    assert!(Date::parse(&now.val).is_ok());
    assert_eq!(Date::new(-5, 1, 1).unwrap().val, "-0005-01-01T00:00:00");
    assert_eq!(Date::new(0, 3, 7).unwrap().val, "0000-03-07T00:00:00");
    assert_eq!(Date::new(12, 3, 7).unwrap().val, "0012-03-07T00:00:00");
    assert_eq!(Date::new(10000, 1, 1).unwrap().val, "+10000-01-01T00:00:00");
    assert_eq!(Date::new(-12345, 1, 1).unwrap().val, "-12345-01-01T00:00:00");
    assert_eq!(Date::new(-5, 1, 1).unwrap().write(DateFormat::DotDate), "01.01.-0005");
}

#[test]
fn day_counts() {
    assert_eq!(DaysProgress::days_between(0, 86400), 2);
    assert_eq!(DaysProgress::days_between(0, 86399), 1);
    assert_eq!(DaysProgress::days_between(10, 10), 0);
    assert_eq!(DaysProgress::days_between(10, 5), 0);
    // a period of two calendar days ending the day after `now`
    let now = (2024, 1, 1, 12, 0, 0, 0);
    assert_eq!(DaysProgress::day_counts("2024-01-01 00:00:00", "02.01.2024", now), Some((2, 2)));
    assert_eq!(DaysProgress::day_counts("2024-01-01 00:00:00", "2024-01-02- 00:00:00", now), None);
    assert_eq!(DaysProgress::day_counts("x", "02.01.2024", now), None);
    assert_eq!(DaysProgress::day_counts("1 января 2024", "1 января 2024", now), Some((0, 1)));
    assert!(fc_server::date::now_parts().is_some());
    let p = DaysProgress::default();
    assert_eq!((p.days, p.days_left, p.progress), (0, 0, 100));
}

#[test]
fn packet_as_document() {
    let p = PacketDocument {
        organization: Some("org".to_owned()),
        source_uid: Some("uid".to_owned()),
        document_type: Some("Письмо".to_owned()),
        document_uid: None,
        document_date: Some("01.01.2024".to_owned()),
        document_number: Some("12".to_owned()),
        source_addressee: None,
    };
    let d = (&p).as_doc();
    assert_eq!(d.organization_uid.as_deref(), Some("uid"));
    assert_eq!(d.doc_type.as_deref(), Some("Письмо"));
    assert_eq!(d.sign_date.as_deref(), Some("01.01.2024"));
    assert_eq!(d.number.as_deref(), Some("12"));
    assert!(d.doc_uid.is_none() && d.source_medo_addressee.is_none());
}
