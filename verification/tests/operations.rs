use floatctf_api::error::UniError;
use floatctf_api::membership::TeamRole;
use floatctf_api::monitor::{
    contains_text, listed_disks, order_by_name, DockerImageInfo, DockerInformation,
    NetworkInterfaceInfo, TrafficSample,
};
use floatctf_api::ops::{
    cache_expired, cache_expiry, client_ip, column_reading, container_name, decimal_text, gen_image_path,
    image_extension, image_path, network_driver, ports_text, private_download_link,
    public_read_policy, replace_all, resize_command, smtp_setting,
    split_char, sql_kind, terminal_input, CreateNetworkRequest, PortEntry, SqlKind,
    ColumnReading, TerminalControl,
};
use floatctf_api::roster::{
    first_rows, report_entrants, report_key, team_roster, MemberEntry, ReportEntry,
};

#[test]
fn decimal_and_split() {
    assert_eq!(decimal_text(0), "0");
    assert_eq!(decimal_text(8080), "8080");
    assert_eq!(decimal_text(u64::MAX), "18446744073709551615");
    assert_eq!(split_char("a:b::c", ':'), vec!["a", "b", "", "c"]);
    assert_eq!(split_char("", ','), vec![""]);
}

#[test]
fn sql_statements_are_classified_by_first_word() {
    assert_eq!(sql_kind("  SELECT * FROM users"), SqlKind::Query);
    assert_eq!(sql_kind("with x as (select 1) select * from x"), SqlKind::Query);
    assert_eq!(sql_kind("Explain select 1"), SqlKind::Query);
    assert_eq!(sql_kind("delete from users"), SqlKind::Exec);
    assert_eq!(sql_kind(""), SqlKind::Exec);
    assert_eq!(sql_kind("selected"), SqlKind::Exec);
}

#[test]
fn terminal_frames() {
    assert_eq!(resize_command(Some(40), Some(120)), "stty rows 40 cols 120 2>/dev/null\n");
    assert_eq!(resize_command(None, None), "stty rows 24 cols 80 2>/dev/null\n");
    let ctrl = TerminalControl { kind: "resize".into(), cols: Some(100), rows: None };
    assert_eq!(terminal_input("{..}".into(), Some(ctrl)), "stty rows 24 cols 100 2>/dev/null\n");
    let other = TerminalControl { kind: "ping".into(), cols: None, rows: None };
    assert_eq!(terminal_input("ls\n".into(), Some(other)), "ls\n");
    assert_eq!(terminal_input("ls\n".into(), None), "ls\n");
}

#[test]
fn container_listing() {
    let ports = vec![
        PortEntry { ip: Some("127.0.0.1".into()), public_port: Some(8080), private_port: 80 },
        PortEntry { ip: None, public_port: Some(22), private_port: 22 },
        PortEntry { ip: None, public_port: None, private_port: 3306 },
    ];
    assert_eq!(ports_text(&ports), "127.0.0.1:8080, 0.0.0.0:22, 3306");
    assert_eq!(ports_text(&vec![]), "");
    assert_eq!(container_name(&Some(vec!["//web".into(), "other".into()])), "web");
    assert_eq!(container_name(&Some(vec![])), "");
    assert_eq!(container_name(&None), "");
    let req = CreateNetworkRequest { name: "n".into(), subnet: "s".into(), gateway: "g".into(), driver: None };
    assert_eq!(network_driver(&req), "bridge");
}

#[test]
fn client_addresses() {
    assert_eq!(client_ip(Some(" 10.0.0.1 , 10.0.0.2".into()), Some("9.9.9.9".into()), None), Some("10.0.0.1".to_string()));
    assert_eq!(client_ip(None, Some("9.9.9.9".into()), Some("1.1.1.1".into())), Some("9.9.9.9".to_string()));
    assert_eq!(client_ip(None, None, Some("1.1.1.1".into())), Some("1.1.1.1".to_string()));
    assert_eq!(client_ip(None, None, None), None);
}

#[test]
fn smtp_settings() {
    let s = smtp_setting("smtp.x.org:bot@x.org:pw").unwrap();
    assert_eq!(s.server, "smtp.x.org");
    assert_eq!(s.user, "bot@x.org");
    assert_eq!(s.pass, "pw");
    assert_eq!(smtp_setting("a:b").err().unwrap(), "Invalid SMTP_URI format, expected server:user:pass");
    assert!(smtp_setting("a:b:c:d").is_err());
}

#[test]
fn cache_and_images() {
    assert!(cache_expired(Some(10), 10));
    assert!(!cache_expired(Some(11), 10));
    assert!(!cache_expired(None, 10));
    assert_eq!(cache_expiry(100, Some(1800)), Some(1900));
    assert_eq!(cache_expiry(100, None), None);
    assert_eq!(image_extension(Some("a.b.jpeg")), "jpeg");
    assert_eq!(image_extension(Some("noext")), "noext");
    assert_eq!(image_extension(None), "png");
    assert_eq!(image_path("20250101", "abcdef-123", Some("x.gif")), "images/20250101_abcdef.gif");
    let p = gen_image_path(Some("pic.webp"));
    assert!(p.starts_with("images/"));
    assert!(p.ends_with(".webp"));
    // 17-character stamp, `_`, six characters of the id
    assert_eq!(p.len(), "images/".len() + 17 + 1 + 6 + ".webp".len());
}

#[test]
fn team_rosters() {
    let e = |id: &str, u: &str, role: TeamRole, in_event: bool| MemberEntry {
        user_id: id.into(),
        username: u.into(),
        nickname: u.to_uppercase(),
        role,
        in_event,
    };
    let r = team_roster(&vec![e("1", "cap", TeamRole::Captain, true), e("2", "m", TeamRole::Member, true)]).unwrap();
    assert_eq!(r.captain, "cap");
    assert_eq!(r.members.len(), 2);
    assert_eq!(r.members[1].nickname, "M");
    let none = team_roster(&vec![e("2", "m", TeamRole::Member, true)]).unwrap();
    assert_eq!(none.captain, "");
    match team_roster(&vec![e("1", "cap", TeamRole::Captain, true), e("u-2", "m", TeamRole::Member, false)]) {
        Err(UniError::NotFound(m)) => assert_eq!(m, "EventUser u-2 not exist"),
        _ => panic!(),
    }
}

#[test]
fn writeup_report_keeps_writeups_when_there_are_any() {
    let w = |k: Option<&str>| ReportEntry { writeup: k.map(|x| x.to_string()) };
    assert_eq!(report_entrants(&vec![w(None), w(Some("a.pdf")), w(Some("")), w(Some("b.pdf"))]), vec![1, 3]);
    assert_eq!(report_entrants(&vec![w(None), w(None)]), vec![0, 1]);
    assert_eq!(first_rows(vec![1, 2, 3], 2), vec![1, 2]);
    assert_eq!(first_rows(vec![1], 10), vec![1]);
}

#[test]
fn monitor_lists() {
    let names: Vec<String> = vec!["sda".into(), "overlay".into(), "sdb".into(), "sda".into(), "my-overlayfs".into()];
    assert_eq!(listed_disks(&names), vec![0, 2]);
    assert!(contains_text("abcdef", "cde"));
    assert!(contains_text("abc", ""));
    assert!(!contains_text("ab", "abc"));
    let ifaces: Vec<String> = vec!["wlan0".into(), "eth0".into(), "lo".into()];
    assert_eq!(order_by_name(&ifaces), vec![1, 2, 0]);
    let n = NetworkInterfaceInfo::from_samples(
        "eth0".into(),
        vec!["10.0.0.2".into()],
        TrafficSample { first_received: 100, first_transmitted: 50, received: 160, transmitted: 55 },
    );
    assert_eq!(n.recv_rate, 60);
    assert_eq!(n.transmit_rate, 5);
    let d = DockerInformation::summarize(vec![DockerImageInfo { id: "i".into(), repo_tags: vec![], size: 3 }], 2, None);
    assert_eq!(d.image_count, 1);
    assert_eq!(d.total_disk, 0);
    assert_eq!(d.running_container_count, 2);
    let sized = DockerInformation::summarize(vec![], 0, Some(4096));
    assert_eq!(sized.total_disk, 4096);
    assert_eq!(sized.image_count, 0);
    let wrapped = DockerInformation::summarize(vec![], 0, Some(-1));
    assert_eq!(wrapped.total_disk, u64::MAX);
}

#[test]
fn storage_texts() {
    let expected = format!(
        r#"{{
                "Version": "2012-10-17",
                "Statement": [
                    {{
                        "Sid": "PublicReadGetObject",
                        "Effect": "Allow",
                        "Principal": "*",
                        "Action": ["s3:GetObject"],
                        "Resource": ["arn:aws:s3:::{}/*"]
                    }}
                ]
            }}"#,
        "floatctf-public"
    );
    assert_eq!(public_read_policy("floatctf-public"), expected);
    assert_eq!(replace_all("aaaa", "aa", "b"), "bb");
    assert_eq!(replace_all("abcabc", "c", "XY"), "abXYabXY");
    assert_eq!(replace_all("none", "zz", "y"), "none");
    assert_eq!(
        private_download_link("http://s3:9000/floatctf-private/w/1.pdf?X-Amz=1", "http://s3:9000"),
        "/private/w/1.pdf?X-Amz=1"
    );
}

#[test]
fn result_columns_are_read_by_type() {
    assert_eq!(column_reading("VARCHAR"), ColumnReading::Text);
    assert_eq!(column_reading("INT8"), ColumnReading::Integer);
    assert_eq!(column_reading("NUMERIC"), ColumnReading::Float);
    assert_eq!(column_reading("BOOL"), ColumnReading::Boolean);
    assert_eq!(column_reading("UUID"), ColumnReading::Uuid);
    assert_eq!(column_reading("JSONB"), ColumnReading::Json);
    assert_eq!(column_reading("DATE"), ColumnReading::Date);
    assert_eq!(column_reading("TIMESTAMPTZ"), ColumnReading::Timestamp);
    assert_eq!(column_reading("BYTEA"), ColumnReading::Bytes);
    assert_eq!(column_reading("INTERVAL"), ColumnReading::Text);
    assert_eq!(column_reading("int8"), ColumnReading::Text);
}

#[test]
fn report_keys_use_the_safe_title() {
    assert_eq!(
        report_key(0x67e5504410b1426f9247bb680e5fe0c8, "Spring CTF: Final!"),
        "writeups/67e55044-10b1-426f-9247-bb680e5fe0c8/Spring CTF_ Final__67e55044-10b1-426f-9247-bb680e5fe0c8.zip"
    );
}

#[test]
fn replacing_an_empty_pattern_interleaves() {
    assert_eq!(replace_all("abc", "", "x"), "xaxbxcx");
    assert_eq!(replace_all("", "", "x"), "x");
    assert_eq!(replace_all("abc", "", "x"), "abc".replace("", "x"));
    assert_eq!(replace_all("a.b.c", ".", "::"), "a::b::c");
}

#[test]
fn upper_case_statements_are_queries() {
    assert_eq!(sql_kind("SELECT 1"), SqlKind::Query);
    assert_eq!(sql_kind("UPDATE t SET a = 1"), SqlKind::Exec);
}
