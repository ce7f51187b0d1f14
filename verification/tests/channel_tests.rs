use wqms::channel::{
    average_interval_secs, channel_history_content, history_content, history_header,
    history_line, lastid, markdown, measurement_interval_millis, calculation_outcome, nextid,
    initial_channel_files, initial_settings, number_text, outliers, signal_line_text, signal_records, status, status_summary, unit, value,
    ChanInfo,
};
use wqms::clock::day_table_name;

#[test]
fn chan_info_new_defaults() {
    let info = ChanInfo::new("Tox", "12.5");
    assert_eq!(info.id, "none");
    assert_eq!(info.label, "Tox");
    assert_eq!(info.unit, "--");
    assert_eq!(info.value, "12.5");
}

#[test]
fn stored_values_and_their_defaults() {
    assert_eq!(status(None), "E");
    assert_eq!(status(Some("M".to_string())), "M");
    assert_eq!(unit(None), "--");
    assert_eq!(unit(Some("mg/l".to_string())), "mg/l");
    assert_eq!(value(None), "none");
    assert_eq!(value(Some("7.1".to_string())), "7.1");
}

#[test]
fn markdown_line_of_a_channel() {
    assert_eq!(markdown("pH", "6.5", "", "M"), "*pH:* `6.5` []   *M*\n");
    assert_eq!(markdown("Tox", "none", "%", "E"), "*Tox:* `none` [%]   *E*\n");
}

#[test]
fn status_after_averaging() {
    assert_eq!(calculation_outcome(0), ("E".to_string(), Some("none".to_string())));
    assert_eq!(calculation_outcome(3), ("M".to_string(), None));
}

#[test]
fn signal_records_of_a_file() {
    let text = "10,1.5\n20,2.5\nbad,3.5\nonly\n\n30,x,y\n";
    let recs = signal_records(text);
    let got: Vec<(u64, String)> = recs.into_iter().map(|r| (r.time, r.value)).collect();
    assert_eq!(
        got,
        vec![
            (10, "1.5".to_string()),
            (20, "2.5".to_string()),
            (0, "3.5".to_string()),
            (30, "x".to_string()),
        ]
    );
    assert!(signal_records("").is_empty());
}

#[test]
fn signal_line_appended_is_read_back() {
    let mut text = String::new();
    text.push_str(&signal_line_text(0, "1.25"));
    text.push_str(&signal_line_text(1500, "2"));
    assert_eq!(text, "0,1.25\n1500,2\n");
    let recs = signal_records(&text);
    assert_eq!(recs.len(), 2);
    assert_eq!((recs[1].time, recs[1].value.as_str()), (1500, "2"));
}

#[test]
fn intervals_and_their_defaults() {
    assert_eq!(measurement_interval_millis(&None), 1000);
    assert_eq!(measurement_interval_millis(&Some("250".to_string())), 250);
    assert_eq!(measurement_interval_millis(&Some("250\n".to_string())), 1000);
    assert_eq!(average_interval_secs(&None), 60);
    assert_eq!(average_interval_secs(&Some("3600".to_string())), 3600);
    assert_eq!(average_interval_secs(&Some("abc".to_string())), 60);
    assert_eq!(outliers(&None), 0);
    assert_eq!(outliers(&Some("3".to_string())), 3);
    assert_eq!(outliers(&Some("70000".to_string())), 0);
}

#[test]
fn stored_settings_are_read_back() {
    for n in [0u64, 1, 600, 86400] {
        assert_eq!(average_interval_secs(&Some(number_text(n))), n);
        assert_eq!(measurement_interval_millis(&Some(number_text(n))), n);
    }
}

#[test]
fn a_new_registry_starts_with_its_settings() {
    let (m, a) = initial_settings();
    assert_eq!((m.as_str(), a.as_str()), ("1000", "600"));
    assert_eq!(measurement_interval_millis(&Some(m)), 1000);
    assert_eq!(average_interval_secs(&Some(a)), 600);
}

#[test]
fn stored_outliers_are_read_back() {
    for n in [0u16, 1, 5, u16::MAX] {
        assert_eq!(outliers(&Some(number_text(n as u64))), n);
    }
}

#[test]
fn ids_count_up() {
    assert_eq!(lastid(&None), 0);
    assert_eq!(lastid(&Some("7".to_string())), 7);
    let next = nextid(lastid(&Some("7".to_string())));
    assert_eq!(next, 8);
    assert_eq!(lastid(&Some(number_text(next))), 8);
}

#[test]
fn registry_status_is_the_trimmed_channel_statuses() {
    let statuses = vec![" M \n".to_string(), "E".to_string(), "".to_string(), "I\n".to_string()];
    assert_eq!(status_summary(&statuses), "MEI");
    assert_eq!(status_summary(&Vec::new()), "");
}

#[test]
fn history_table_lines() {
    let labels = vec!["Tox".to_string(), "Dos".to_string()];
    assert_eq!(history_header(&labels), "timestap,Tox,Dos\n");
    let values = vec!["1.0".to_string(), "none".to_string()];
    assert_eq!(history_line("T", &values), "T,1.0,none\n");
    assert_eq!(history_header(&Vec::new()), "timestap\n");
}

#[test]
fn history_content_starts_with_the_head_line() {
    let labels = vec!["Tox".to_string()];
    let values = vec!["1.5".to_string()];
    let fresh = history_content(None, &labels, 0, 0, &values).unwrap();
    assert_eq!(fresh, "timestap,Tox\n1970-01-01 00:00:00 UTC,1.5\n");
    let more = history_content(Some(fresh.clone()), &labels, 1599811200, 500_000_000, &values).unwrap();
    assert_eq!(more, format!("{}2020-09-11 08:00:00.500 UTC,1.5\n", fresh));
}

#[test]
fn channel_history_entry() {
    let t = channel_history_content(None, 60, 0, "7.0").unwrap();
    assert_eq!(t, "1970-01-01 00:01:00 UTC,7.0\n");
    let t2 = channel_history_content(Some(t.clone()), 120, 0, "none").unwrap();
    assert_eq!(t2, format!("{}1970-01-01 00:02:00 UTC,none\n", t));
}

#[test]
fn out_of_range_times_give_no_history() {
    assert!(channel_history_content(None, i64::MAX, 0, "1").is_none());
    assert!(history_content(None, &Vec::new(), i64::MAX, 0, &Vec::new()).is_none());
}

#[test]
fn day_table_names() {
    assert_eq!(day_table_name(0).unwrap(), "19700101.csv");
    assert_eq!(day_table_name(1599811200).unwrap(), "20200911.csv");
    assert_eq!(day_table_name(-86400).unwrap(), "19691231.csv");
    assert!(day_table_name(i64::MAX).is_none());
    let t = chrono::DateTime::from_timestamp(1599811200, 0).unwrap();
    assert_eq!(day_table_name(1599811200).unwrap(), format!("{}.csv", t.format("%Y%m%d")));
}

#[test]
fn day_table_names_of_far_years_match_the_calendar() {
    for secs in [-62_167_219_200i64 - 86400, 253_402_300_800, -100_000_000_000] {
        let t = chrono::DateTime::from_timestamp(secs, 0).unwrap();
        assert_eq!(day_table_name(secs).unwrap(), format!("{}.csv", t.format("%Y%m%d")));
    }
}

#[test]
fn a_new_channel_starts_with_its_files() {
    let files: Vec<(String, String)> = initial_channel_files();
    let got: Vec<(&str, &str)> = files.iter().map(|(n, c)| (n.as_str(), c.as_str())).collect();
    assert_eq!(
        got,
        vec![
            ("value", "none"),
            ("unit", "--"),
            ("slope", "1.0"),
            ("intercept", "0.0"),
            ("max", "0.0"),
            ("max", "500.0"),
            ("status", "I"),
        ]
    );
}

#[test]
fn a_written_status_is_read_back_trimmed() {
    let written = wqms::text::trim("  M \n");
    assert_eq!(status(Some(written.clone())), "M");
    assert_eq!(wqms::text::trim(&status(Some(written.clone()))), written);
}
