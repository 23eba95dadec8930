use cfip::configure::NamesiloConfig;
use cfip::namesilo::{
    check_list, check_update, failure_of, find_record, list_query, target_host, update_query,
    DnsCall, DnsListReply, DnsUpdateReply, ResourceRecord, ResponseCode, LIST_PATH, UPDATE_PATH,
};
use cfip::response::{fail, internal_error, success, success_data, Code};
use cfip::state::AppState;
use cfip::configure::{AppConfig, ConsoleConfig, FileConfig, ListenConfig, LogConfig};

fn config() -> NamesiloConfig {
    NamesiloConfig {
        url: "https://www.namesilo.com".to_string(),
        key: "k123".to_string(),
        domain: "example.com".to_string(),
        rrhost: "www".to_string(),
        rrttl: "3600".to_string(),
    }
}

fn pairs(v: &[(&str, &str)]) -> Vec<(String, String)> {
    v.iter().map(|(a, b)| (a.to_string(), b.to_string())).collect()
}

fn record(id: &str, host: &str) -> ResourceRecord {
    ResourceRecord {
        record_id: id.to_string(),
        host: host.to_string(),
    }
}

#[test]
fn list_parameters() {
    assert_eq!(
        list_query(&config()),
        pairs(&[("version", "1"), ("type", "json"), ("key", "k123"), ("domain", "example.com")])
    );
    assert_eq!(LIST_PATH, "/api/dnsListRecords");
}

#[test]
fn update_parameters() {
    assert_eq!(
        update_query(&config(), "1.2.3.4", "rr9"),
        pairs(&[
            ("version", "1"),
            ("type", "json"),
            ("key", "k123"),
            ("domain", "example.com"),
            ("rrid", "rr9"),
            ("rrhost", "www"),
            ("rrvalue", "1.2.3.4"),
            ("rrttl", "3600"),
        ])
    );
    assert_eq!(UPDATE_PATH, "/api/dnsUpdateRecord");
}

#[test]
fn failure_messages() {
    assert_eq!(
        failure_of(DnsCall::Update, "404 Not Found"),
        "Failed to update DNS record: 404 Not Found"
    );
    assert_eq!(failure_of(DnsCall::List, "bad key"), "Failed to list DNS record: bad key");
}

#[test]
fn replies_with_success_code_pass() {
    let u = DnsUpdateReply {
        code: ResponseCode::Success,
        detail: "success".to_string(),
    };
    assert_eq!(check_update(&u), Ok(()));
    let l = DnsListReply {
        code: ResponseCode::Success,
        detail: "success".to_string(),
        resource_record: vec![record("a", "www.example.com")],
    };
    let got = check_list(l).unwrap();
    assert_eq!(got.len(), 1);
    assert_eq!(got[0].record_id, "a");
    assert_eq!(ResponseCode::Success.value(), 300);
}

#[test]
fn target_host_joins_with_dot() {
    assert_eq!(target_host(&config()), "www.example.com");
}

#[test]
fn find_record_takes_first_match() {
    let rs = vec![
        record("1", "example.com"),
        record("2", "www.example.com"),
        record("3", "www.example.com"),
    ];
    assert_eq!(find_record(&rs, &"www.example.com".to_string()), Ok(1));
}

#[test]
fn find_record_reports_missing_host() {
    let rs = vec![record("1", "example.com")];
    assert_eq!(
        find_record(&rs, &"www.example.com".to_string()),
        Err("target host not found".to_string())
    );
    assert_eq!(
        find_record(&vec![], &"x".to_string()),
        Err("target host not found".to_string())
    );
}

#[test]
fn envelopes() {
    let s = success::<u8>();
    assert_eq!(s.code, Code::Success);
    assert!(s.data.is_none() && s.message.is_none());
    let d = success_data(vec![1u8]);
    assert_eq!(d.data, Some(vec![1u8]));
    let f = fail::<u8>(Code::RespSerializeFailed, "x".to_string());
    assert_eq!(f.code, Code::RespSerializeFailed);
    assert_eq!(f.message, Some("x".to_string()));
    let e = internal_error("oops".to_string());
    assert_eq!(e.code, Code::InternalError);
    assert_eq!(e.message, Some("oops".to_string()));
    assert_eq!(Code::Success.value(), 0);
    assert_eq!(Code::RespSerializeFailed.value(), 100);
    assert_eq!(Code::InternalError.value(), 500);
}

#[test]
fn state_shares_config() {
    let c = AppConfig {
        listen: ListenConfig {
            host: "127.0.0.1".to_string(),
            port: 8080,
        },
        log: LogConfig {
            file: FileConfig {
                enabled: false,
                level: "info".to_string(),
                dir: "logs".to_string(),
                name_prefix: "app".to_string(),
            },
            console: ConsoleConfig {
                enabled: true,
                level: "debug".to_string(),
            },
        },
        namesilo: config(),
    };
    let st = AppState::new(c);
    let st2 = st.clone();
    assert_eq!(st2.config.listen.port, 8080);
    assert_eq!(st.config.namesilo.domain, "example.com");
}
