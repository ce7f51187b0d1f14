use wqms::bot::{
    download_action, parse_station_command, reboot_text, status_text, system_text,
    StationCommand,
};
use wqms::prop::{
    get_action, get_reply, key_action, path_file_name, set_action, set_reply, wifi_action,
    wifi_reply, PropAction,
};
use wqms::users::{list, push, NewUser, Users};

const DOWNLOAD_USAGE: &str = "dowonload cmd wrong format /download YYYMMDD for example:`/download 20200911` to download data `11 Sep. 2020`";

#[test]
fn download_sends_the_table_of_one_day() {
    assert_eq!(download_action("/ws/channels", "/download 20200911"), Ok("/ws/channels/20200911.csv".to_string()));
    assert_eq!(download_action("/ws/channels/", "/d 20200911.csv"), Ok("/ws/channels/20200911.csv".to_string()));
    assert_eq!(download_action("/ws/channels", "/download"), Err(DOWNLOAD_USAGE.to_string()));
    assert_eq!(download_action("/ws/channels", "/download 2020 09"), Err(DOWNLOAD_USAGE.to_string()));
}

#[test]
fn station_commands() {
    assert!(matches!(parse_station_command("/start"), StationCommand::Start));
    assert!(matches!(parse_station_command("/help"), StationCommand::Help));
    assert!(matches!(parse_station_command("/system"), StationCommand::System));
    assert!(matches!(parse_station_command("/channel"), StationCommand::Channel(None)));
    assert!(matches!(parse_station_command("/channel 3"), StationCommand::Channel(Some(ref a)) if a == "3"));
    assert!(matches!(parse_station_command("/status"), StationCommand::Status));
    assert!(matches!(parse_station_command("/reboot"), StationCommand::Reboot));
    assert!(matches!(parse_station_command("/leave"), StationCommand::Leave));
    assert!(matches!(parse_station_command("/ls"), StationCommand::Ls(None)));
    assert!(matches!(parse_station_command("/ls channels"), StationCommand::Ls(Some(ref a)) if a == "channels"));
    assert!(matches!(parse_station_command("/csv"), StationCommand::Csv(true)));
    assert!(matches!(parse_station_command("/csv 1"), StationCommand::Csv(false)));
    assert!(matches!(parse_station_command("/get a/value"), StationCommand::Get));
    assert!(matches!(parse_station_command("/set a/value 1"), StationCommand::SetProp));
    assert!(matches!(parse_station_command("/status@wqms_bot"), StationCommand::Help));
    assert!(matches!(parse_station_command(""), StationCommand::Help));
}

#[test]
fn station_replies() {
    assert_eq!(system_text(true), "*status:* `ONLINE`\n");
    assert_eq!(system_text(false), "*status:* `OFFLINE`\n");
    assert_eq!(status_text(None), "*Empty*");
    assert_eq!(status_text(Some("|a|b|".to_string())), "|a|b|");
    assert_eq!(reboot_text(), "reboot system");
}

#[test]
fn set_writes_the_trimmed_third_word() {
    match set_action("/ws", "/set channels/1/unit mg/l extra") {
        PropAction::Write { path, content } => {
            assert_eq!(path, "/ws/channels/1/unit");
            assert_eq!(content, "mg/l");
        }
        other => panic!("unexpected {:?}", other),
    }
    match set_action("/ws", "/set a\u{2003}") {
        PropAction::Reply(t) => assert_eq!(t, "set properte wrong format /set a\u{2003}\n                /set directory/prop  value\n            "),
        other => panic!("unexpected {:?}", other),
    }
    match set_action("/ws", "/set a \u{2003}7") {
        PropAction::Write { path, content } => {
            assert_eq!(path, "/ws/a");
            assert_eq!(content, "7");
        }
        other => panic!("unexpected {:?}", other),
    }
    assert_eq!(set_reply("/set a 7", None), "prop a valeu changed 7 ");
    assert_eq!(set_reply("/set a 7", Some("denied".to_string())), "set prop a write value 7 - denied");
}

#[test]
fn file_names_of_paths() {
    assert_eq!(path_file_name("a/b"), Some("b".to_string()));
    assert_eq!(path_file_name("a/b/"), Some("b".to_string()));
    assert_eq!(path_file_name("a/./"), Some("a".to_string()));
    assert_eq!(path_file_name("/ws/.hidden"), Some(".hidden".to_string()));
    assert_eq!(path_file_name("a/.."), None);
    assert_eq!(path_file_name("/"), None);
    assert_eq!(path_file_name("."), None);
    for p in ["a/b", "a/b/", "a//b", "a/./", "/x/.y", "a/..", "/", ".", "..", ""] {
        let std_name = std::path::Path::new(p).file_name().map(|n| n.to_str().unwrap().to_string());
        assert_eq!(path_file_name(p), std_name, "path {:?}", p);
    }
}

#[test]
fn get_reads_all_but_hidden_files() {
    assert!(matches!(get_action("/ws", "/get .wifi"), PropAction::Reply(ref t) if t == "get hidden file"));
    assert!(matches!(get_action("/ws", "/get a/.key"), PropAction::Reply(ref t) if t == "get hidden file"));
    assert!(matches!(get_action("/ws", "/get a/value"), PropAction::Read { ref path } if path == "/ws/a/value"));
    assert!(matches!(get_action("/ws", "/get"), PropAction::Reply(ref t) if t == "set properte wrong format /get\n                /get path/prop\n            "));
    assert_eq!(get_reply("/get a/value", Ok("5.0".to_string())), "5.0");
    assert_eq!(get_reply("/get a/value", Err("not found".to_string())), "get prop a/value  - not found");
}

#[test]
fn wifi_and_key_commands() {
    assert!(matches!(wifi_action("/wifi net key"), PropAction::StoreWifi { ref ssid, ref key } if ssid == "net" && key == "key"));
    assert!(matches!(wifi_action("/wifi net"), PropAction::UsageAndHelp(ref t) if t == "change wifi credential wrond data /wifi net for example /wifi myssid mypsk"));
    assert_eq!(wifi_reply(None), None);
    assert_eq!(wifi_reply(Some("busy".to_string())), Some("change wifi credential failed - busy".to_string()));
    assert!(matches!(key_action("/tswkey W1", true), PropAction::SetWriteKey(ref k) if k == "W1"));
    assert!(matches!(key_action("/tsrkey R1", false), PropAction::SetReadKey(ref k) if k == "R1"));
    assert!(matches!(key_action("/tsrkey", false), PropAction::UsageAndHelp(ref t) if t == "set thingspeak write api /tsrkey"));
}

#[test]
fn registry_numbers_users_one_to_k() {
    let mut users: Users = Vec::new();
    let names = ["Ada", "Bob", "Cy", "Dee"];
    let ids: Vec<Option<u64>> = names.iter().map(|n| push(&mut users, NewUser::new(n)).id()).collect();
    assert_eq!(ids, vec![Some(1), Some(2), Some(3), Some(4)]);
    let all: Vec<(Option<u64>, String)> = list(&users).iter().map(|u| (u.id(), u.first_name().to_string())).collect();
    let expected: Vec<(Option<u64>, String)> = names.iter().enumerate().map(|(i, n)| (Some(i as u64 + 1), n.to_string())).collect();
    assert_eq!(all, expected);
}
