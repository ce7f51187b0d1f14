use wqms::analog::open;
use wqms::bot::{csv_file_name, is_hidden, join_values, parse_command, BotCommand};
use wqms::cli::{Args, Cmd, GetProp, Init};
use wqms::collect::{CollectAction, CollectEvent, Collector};
use wqms::config::{
    bad_working_staton_directory_error, Config, FirebaseConfig, GitConfig, ServerConfig,
    StatisticConfig, TingsSpeakConfig,
};
use wqms::display::new_state;
use wqms::channel::ChanInfo;
use wqms::error::{bad_workstation, Error};
use wqms::models::{Firebase, Message, Prop};
use wqms::nitri::nitritox_fields;
use wqms::users::{list, push, NewUser, Users};
use wqms::wifi::{
    api_step, change_outcome, check_form, wifi_step, wpa_step, ApiAction, WifiAction, WifiStep,
    WpaAction,
};

#[test]
fn config_defaults() {
    let c = Config::default();
    assert_eq!(c.name, "noname");
    assert_eq!(c.interface, "wlp2s0");
    assert_eq!(c.thingspeak.channel, "1114700");
    assert_eq!(c.thingspeak.rkey, "XZUIDN95GI2ZOSBX");
    assert_eq!(c.thingspeak.wkey, "RQ1HTKE735B65NVI");
    assert_eq!((c.statistic.interval, c.statistic.outlier, c.statistic.cv), (30, 0, 2));
    assert_eq!(c.server.port, 8088);
    let fb = c.fb.unwrap();
    assert_eq!((fb.key.as_str(), fb.url.as_str(), fb.uid.as_str()), ("-", "-", "."));
    assert!(c.git.is_none());
    let g = GitConfig::default();
    assert_eq!((g.token.as_str(), g.url.as_str()), ("-", "-"));
    assert_eq!(ServerConfig::default().port, 8088);
    assert_eq!(StatisticConfig::default().interval, 30);
    assert_eq!(FirebaseConfig::default().uid, ".");
    assert_eq!(TingsSpeakConfig::default().channel, "1114700");
}

#[test]
fn errors_and_their_messages() {
    let e = bad_workstation("no station".to_string());
    assert!(matches!(&e, Error::BadWorkstation(m) if m == "no station"));
    assert_eq!(e.message(), "working station error - no station");
    assert_eq!(Error::Message("x".to_string()).message(), "wms error - x");
    assert_eq!(Error::Interface { msg: "i2c".to_string() }.message(), "interface - i2c");
    assert_eq!(Error::Anyhow(anyhow::Error::msg("io")).message(), "anyhow error");
}

#[test]
fn missing_configuration_error() {
    let e = bad_working_staton_directory_error("/st/wqms.toml");
    match e {
        Error::BadWorkstation(m) => assert_eq!(
            m,
            "\nA configuration /st/wqms.toml file is not exists!\nto create new working station run `awm new sation-name`\nrerun last command in `station-name` directory\n"
        ),
        _ => panic!("wrong error"),
    }
}

#[test]
fn cli_values() {
    let init = Init { replace: true, git: false };
    assert!(init.replace());
    assert!(!init.git());
    let args = Args { cmd: Cmd::Get(GetProp { name: "channels/1/value".to_string() }) };
    assert!(matches!(args.commands(), Cmd::Get(g) if g.name == "channels/1/value"));
}

#[test]
fn records_of_the_web_interfaces() {
    let m = Message { id: 3, contents: "Hello, world!".to_string() };
    let p = Prop { path: "a/b".to_string(), value: "1".to_string() };
    let f = Firebase { apikey: "k".to_string() };
    assert_eq!((m.id, p.path.as_str(), f.apikey.as_str()), (3, "a/b", "k"));
}

#[test]
fn analog_input_directory_and_defaults() {
    let a = open("/home/st/.wqms");
    assert_eq!(a.path(), "/home/st/.wqms/nitri");
    assert_eq!(a.entry("addr"), "/home/st/.wqms/nitri/addr");
    assert_eq!(a.addr(None), "192.168.0.2");
    assert_eq!(a.addr(Some("10.0.0.1".to_string())), "10.0.0.1");
    assert_eq!(a.value(None), "none");
    assert_eq!(a.volt(None), "none");
    assert_eq!(a.amper(None), "none");
    assert_eq!(a.data(None), "none");
    assert_eq!(a.status(None), "E");
    assert_eq!(a.status(Some("S".to_string())), "S");
}

#[test]
fn users_are_numbered_in_order() {
    let mut users: Users = Vec::new();
    let a = push(&mut users, NewUser::new("Ada"));
    let b = push(&mut users, NewUser::new("Bob"));
    assert_eq!((a.id(), a.first_name()), (Some(1), "Ada"));
    assert_eq!((b.id(), b.first_name()), (Some(2), "Bob"));
    let all = list(&users);
    let got: Vec<(Option<u64>, String)> =
        all.iter().map(|u| (u.id(), u.first_name().to_string())).collect();
    assert_eq!(got, vec![(Some(1), "Ada".to_string()), (Some(2), "Bob".to_string())]);
    let fresh = NewUser::new("Cy").to_internal();
    assert_eq!((fresh.id(), fresh.first_name()), (None, "Cy"));
}

#[test]
fn display_starts_with_placeholders() {
    let s = new_state(5);
    let labels: Vec<&str> = s.chan.iter().map(|c| c.label.as_str()).collect();
    assert_eq!(labels, vec!["TOX", "DOS", "ph", "ec", "orp", "temp", "tur"]);
    assert!(s.chan.iter().all(|c| c.value == "NIL"));
    assert_eq!((s.online.as_str(), s.status.as_str(), s.host.as_str()), ("offline", "-------", "none"));
    assert!(!s.is_changed());
    assert_eq!(s.last, 5);
}

fn infos(vals: &[(&str, &str)]) -> Vec<ChanInfo> {
    vals.iter().map(|(l, v)| ChanInfo::new(l, v)).collect()
}

#[test]
fn display_update_marks_changes_then_settles() {
    let mut s = new_state(0);
    let list = infos(&[("Tox", "1.0"), ("Dos", "2.0")]);
    assert!(s.update("online".to_string(), "10.0.0.2".to_string(), Some("MM".to_string()), Some(list.clone()), 10));
    assert!(s.is_changed());
    assert_eq!(s.last, 10);
    assert_eq!(s.chan.len(), 2);
    assert_eq!(s.online, "online");
    assert!(s.update("online".to_string(), "10.0.0.2".to_string(), Some("MM".to_string()), Some(list.clone()), 20));
    assert!(!s.is_changed());
    assert_eq!(s.last, 10);
    assert!(s.update("online".to_string(), "10.0.0.2".to_string(), Some("MM".to_string()), Some(list), 611));
    assert!(s.is_changed());
    assert_eq!(s.last, 611);
}

#[test]
fn display_needs_label_and_value_to_differ() {
    let mut s = new_state(0);
    let same_labels = infos(&[("TOX", "1.0")]);
    s.update("offline".to_string(), "none".to_string(), Some("-------".to_string()), Some(same_labels), 1);
    assert!(!s.is_changed());
    assert_eq!(s.chan.len(), 7);
}

#[test]
fn display_update_without_registry() {
    let mut s = new_state(0);
    s.error = "update failed".to_string();
    assert!(!s.update("online".to_string(), "none".to_string(), None, None, 3));
    assert!(s.is_changed());
    assert_eq!(s.error, "");
    assert_eq!(s.status, "-------");
    let mut t = new_state(0);
    assert!(!t.update("offline".to_string(), "none".to_string(), Some("E".to_string()), None, 3));
    assert_eq!(t.status, "E");
    assert!(t.is_changed());
}

#[test]
fn bot_commands() {
    assert!(matches!(parse_command("/start"), BotCommand::Start));
    assert!(matches!(parse_command("/status@wqms_bot"), BotCommand::Status));
    assert!(matches!(parse_command("/unknown"), BotCommand::Help));
    assert!(matches!(parse_command(""), BotCommand::Help));
    assert!(matches!(parse_command("/getvals"), BotCommand::GetVals(None)));
    assert!(matches!(parse_command("/getvals 3"), BotCommand::GetVals(Some(ref a)) if a == "3"));
    assert!(matches!(parse_command("/ls"), BotCommand::Ls(None)));
    assert!(matches!(parse_command("/ls channels"), BotCommand::Ls(Some(ref a)) if a == "channels"));
    assert!(matches!(parse_command("/ls a b"), BotCommand::Ls(None)));
    assert!(matches!(parse_command("/csv"), BotCommand::Csv(None)));
    assert!(matches!(parse_command("/download 20200911"), BotCommand::Download(Some(ref a)) if a == "20200911.csv"));
    assert!(matches!(parse_command("/d 20200911.csv"), BotCommand::Download(Some(ref a)) if a == "20200911.csv"));
    assert!(matches!(parse_command("/download"), BotCommand::Download(None)));
    assert!(matches!(parse_command("/dl"), BotCommand::DownloadLast));
    assert!(matches!(parse_command("/tg"), BotCommand::DownloadLast));
    assert!(matches!(parse_command("/get channels/1/value"), BotCommand::Get(Some(ref a)) if a == "channels/1/value"));
    assert!(matches!(parse_command("/set a/b 7"), BotCommand::SetProp(Some((ref p, ref v))) if p == "a/b" && v == "7"));
    assert!(matches!(parse_command("/set a/b"), BotCommand::SetProp(None)));
    assert!(matches!(parse_command("/wifi net key"), BotCommand::Wifi(Some((ref s, ref k))) if s == "net" && k == "key"));
    assert!(matches!(parse_command("/tswkey K1"), BotCommand::TsWKey(Some(ref k)) if k == "K1"));
    assert!(matches!(parse_command("/tsrkey"), BotCommand::TsRKey(None)));
    assert!(matches!(parse_command("/help me"), BotCommand::Help));
}

#[test]
fn bot_helpers() {
    assert_eq!(csv_file_name("20200911"), "20200911.csv");
    assert_eq!(csv_file_name("x.csv"), "x.csv");
    assert_eq!(csv_file_name(&csv_file_name("20200911")), csv_file_name("20200911"));
    assert!(is_hidden(".config"));
    assert!(!is_hidden("config"));
    assert!(!is_hidden(""));
    let vals = vec!["1.0".to_string(), "none".to_string(), "7".to_string()];
    assert_eq!(join_values(&vals), "1.0,none,7");
    assert_eq!(join_values(&Vec::new()), "");
}

#[test]
fn nitritox_answer_fields() {
    let answer = "dd.dd.dddd;dd.dd.dd;000123.45;000067.89; rest";
    let (tox, dos) = nitritox_fields(answer).unwrap();
    assert_eq!((tox.as_str(), dos.as_str()), ("000123.45", "000067.89"));
    assert!(nitritox_fields("11.09.2020;08.15.00;000123.45;000067.89;\n").is_none());
    assert!(nitritox_fields("").is_none());
}

#[test]
fn wifi_forms() {
    assert_eq!(check_form("", "k"), Some("uuid cannot be empty.".to_string()));
    assert_eq!(check_form("", ""), Some("uuid cannot be empty.".to_string()));
    assert_eq!(check_form("net", ""), Some("password cannot be empty.".to_string()));
    assert_eq!(check_form("net", "k"), None);
    assert_eq!(change_outcome(None), (true, "WPA credential successfully changed.".to_string()));
    assert_eq!(change_outcome(Some((WifiStep::Interface, "no wlan0".to_string()))), (false, "change interface error no wlan0".to_string()));
    assert_eq!(change_outcome(Some((WifiStep::Credentials, "ro".to_string()))), (false, "update credentials error ro".to_string()));
    assert_eq!(change_outcome(Some((WifiStep::Connect, "t".to_string()))), (false, "wifi connect error t".to_string()));
}

/// Runs the setting page on a form, where the steps fail as `fails` says;
/// gives the steps taken and the answer.
fn run_wifi(ssid: &str, key: &str, fails: Option<WifiStep>) -> (Vec<WifiStep>, bool, String) {
    let mut taken = Vec::new();
    let mut last = None;
    loop {
        match wifi_step(ssid, key, last) {
            WifiAction::Call(s) => {
                taken.push(s);
                let err = if fails == Some(s) { Some("failed".to_string()) } else { None };
                last = Some((s, err));
            }
            WifiAction::Answer(ok, m) => return (taken, ok, m),
        }
    }
}

#[test]
fn wifi_form_steps_in_order() {
    assert_eq!(run_wifi("net", "k", None), (vec![WifiStep::Interface, WifiStep::Credentials, WifiStep::Connect], true, "WPA credential successfully changed.".to_string()));
    assert_eq!(run_wifi("net", "k", Some(WifiStep::Interface)), (vec![WifiStep::Interface], false, "change interface error failed".to_string()));
    assert_eq!(run_wifi("net", "k", Some(WifiStep::Credentials)), (vec![WifiStep::Interface, WifiStep::Credentials], false, "update credentials error failed".to_string()));
    assert_eq!(run_wifi("net", "k", Some(WifiStep::Connect)), (vec![WifiStep::Interface, WifiStep::Credentials, WifiStep::Connect], false, "wifi connect error failed".to_string()));
    assert_eq!(run_wifi("", "k", None), (vec![], false, "uuid cannot be empty.".to_string()));
    assert_eq!(run_wifi("net", "", None), (vec![], false, "password cannot be empty.".to_string()));
}

/// Runs the API on the outcomes of the three steps; gives the steps taken
/// and the status.
fn run_api(ok: [bool; 3]) -> (Vec<WifiStep>, u16) {
    let mut taken = Vec::new();
    let mut last = None;
    loop {
        match api_step(last) {
            ApiAction::Call(s) => {
                let i = match s { WifiStep::Interface => 0, WifiStep::Credentials => 1, WifiStep::Connect => 2 };
                taken.push(s);
                last = Some((s, ok[i]));
            }
            ApiAction::Respond(code) => return (taken, code),
        }
    }
}

#[test]
fn wifi_api_statuses() {
    assert_eq!(run_api([true, true, true]), (vec![WifiStep::Interface, WifiStep::Credentials, WifiStep::Connect], 200));
    assert_eq!(run_api([false, true, true]), (vec![WifiStep::Interface], 404));
    assert_eq!(run_api([true, false, true]), (vec![WifiStep::Interface, WifiStep::Credentials], 400));
    assert_eq!(run_api([true, true, false]), (vec![WifiStep::Interface, WifiStep::Credentials, WifiStep::Connect], 400));
    assert_eq!(api_step(None), ApiAction::Call(WifiStep::Interface));
}

#[test]
fn wpa_settings() {
    assert!(matches!(wpa_step("", "p", None), WpaAction::Answer(false, ref m) if m == "uuid cannot be empty."));
    assert!(matches!(wpa_step("u", "", None), WpaAction::Answer(false, ref m) if m == "password cannot be empty."));
    assert!(matches!(wpa_step("u", "p", None), WpaAction::Store));
    assert!(matches!(wpa_step("u", "p", Some(false)), WpaAction::Answer(false, ref m) if m == "Todo could not be inserted due an internal error."));
    assert!(matches!(wpa_step("u", "p", Some(true)), WpaAction::Answer(true, ref m) if m == "Todo successfully added."));
}

#[test]
fn measuring_loop_calculates_once_per_interval() {
    let mut c = Collector::new(100);
    assert_eq!(c.step(CollectEvent::Tick { now: 105, average: 600 }), CollectAction::Collect);
    assert_eq!(c.step(CollectEvent::Tick { now: 700, average: 600 }), CollectAction::Collect);
    assert_eq!(c.step(CollectEvent::Tick { now: 701, average: 600 }), CollectAction::CollectAndCalculate);
    assert_eq!(c.start, 701);
    assert_eq!(c.step(CollectEvent::Tick { now: 1000, average: 600 }), CollectAction::Collect);
    assert_eq!(c.step(CollectEvent::Abort), CollectAction::Stop);
    assert_eq!(c.start, 701);
}
