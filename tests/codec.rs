use intellij_hosts::codec::{parse_hosts, render_hosts, serialize_hosts, split_tokens, parse_line};
use intellij_hosts::model::HostsEntry;
use intellij_hosts::text::{chars_of, string_of};

fn entry(ip: &str, domain: &str, comment: Option<&str>, enabled: bool) -> HostsEntry {
    HostsEntry {
        ip: ip.to_string(),
        domain: domain.to_string(),
        comment: comment.map(|c| c.to_string()),
        enabled,
    }
}

fn fields(es: &[HostsEntry]) -> Vec<(String, String, Option<String>, bool)> {
    es.iter()
        .map(|e| (e.ip.clone(), e.domain.clone(), e.comment.clone(), e.enabled))
        .collect()
}

#[test]
fn parse_reads_entries_and_skips_comments_and_blank_lines() {
    let text = "# header\n\n127.0.0.1 localhost\n  ::1\tip6-localhost   # loop  back\n";
    let es = parse_hosts(text);
    assert_eq!(
        fields(&es),
        vec![
            ("127.0.0.1".to_string(), "localhost".to_string(), None, true),
            (
                "::1".to_string(),
                "ip6-localhost".to_string(),
                Some("# loop back".to_string()),
                true
            ),
        ]
    );
}

#[test]
fn parse_drops_single_token_line() {
    assert!(parse_hosts("onlyonetoken").is_empty());
    let es = parse_hosts("onlyonetoken\n10.0.0.1 a.test\n");
    assert_eq!(es.len(), 1);
    assert_eq!(es[0].domain, "a.test");
}

#[test]
fn parse_third_token_without_hash_is_no_comment() {
    let es = parse_hosts("10.0.0.1 a.test b.test #c");
    assert_eq!(es.len(), 1);
    assert_eq!(es[0].comment, None);
}

#[test]
fn parse_indented_comment_line_is_skipped() {
    assert!(parse_hosts("   # 1.2.3.4 x.test\r\n").is_empty());
    let es = parse_hosts("1.2.3.4 x.test\r\n");
    assert_eq!(es[0].domain, "x.test");
}

#[test]
fn parse_empty_text_gives_nothing() {
    assert!(parse_hosts("").is_empty());
}

#[test]
fn render_writes_banner_stamp_and_enabled_lines() {
    let es = vec![
        entry("127.0.0.1", "localhost", None, true),
        entry("10.0.0.2", "off.test", None, false),
        entry("10.0.0.3", "c.test", Some("# note"), true),
    ];
    let text = render_hosts(&es, "2024-05-06 07:08:09 +00:00");
    assert_eq!(
        text,
        "# Hosts file managed by IntellijHosts\n# Last updated: 2024-05-06 07:08:09 +00:00\n\n127.0.0.1\tlocalhost\n10.0.0.3\tc.test\t# note\n"
    );
}

#[test]
fn disabled_entry_never_appears() {
    let es = vec![
        entry("10.9.9.9", "hidden.test", Some("# x"), false),
        entry("10.0.0.1", "shown.test", None, true),
    ];
    let text = serialize_hosts(&es);
    assert!(text.lines().all(|l| !(l.contains("10.9.9.9") && l.contains("hidden.test"))));
    assert!(text.contains("10.0.0.1\tshown.test"));
    let without = vec![entry("10.0.0.1", "shown.test", None, true)];
    assert_eq!(render_hosts(&es, "t"), render_hosts(&without, "t"));
}

#[test]
fn disabled_pair_has_no_line_after_header() {
    let es = vec![
        entry("127.0.0.1", "localhost", Some("# loop"), true),
        entry("10.0.0.9", "off.test", None, false),
    ];
    let c = serialize_hosts(&es);
    assert!(c.starts_with("# Hosts file managed by IntellijHosts\n# Last updated: "));
    assert!(c.ends_with("\n\n127.0.0.1\tlocalhost\t# loop\n"));
    assert!(!c.contains("off.test"));
    for line in c.lines().skip(2) {
        let f: Vec<&str> = line.split('\t').collect();
        assert!(!(f.len() >= 2 && f[0] == "10.0.0.9" && f[1] == "off.test"));
    }
}

#[test]
fn serialize_then_parse_round_trips() {
    let es = vec![
        entry("127.0.0.1", "localhost", None, true),
        entry("::1", "ip6.test", Some("# two words"), true),
        entry("10.1.2.3", "x.test", None, true),
    ];
    let back = parse_hosts(&serialize_hosts(&es));
    assert_eq!(fields(&back), fields(&es));
}

#[test]
fn serialize_stamps_the_current_time() {
    let text = serialize_hosts(&Vec::new());
    let lines: Vec<&str> = text.lines().collect();
    assert_eq!(lines[0], "# Hosts file managed by IntellijHosts");
    assert!(lines[1].starts_with("# Last updated: "));
    assert!(lines[1].len() > "# Last updated: ".len());
    assert!(lines[1].contains(':'));
    assert_eq!(lines.len(), 3);
}

#[test]
fn split_tokens_on_white_space_runs() {
    let t = split_tokens(&chars_of("  a \t bb\u{3000}c  "));
    assert_eq!(t, vec!["a".to_string(), "bb".to_string(), "c".to_string()]);
    assert!(split_tokens(&chars_of(" \t ")).is_empty());
}

#[test]
fn parse_line_gives_entry_or_none() {
    assert!(parse_line(&chars_of("# 1.1.1.1 a")).is_none());
    let e = parse_line(&chars_of("1.1.1.1 a #x y")).unwrap();
    assert_eq!(e.comment.as_deref(), Some("#x y"));
}

#[test]
fn chars_and_strings_convert_both_ways() {
    let cs = chars_of("héllo");
    assert_eq!(cs, vec!['h', 'é', 'l', 'l', 'o']);
    assert_eq!(string_of(&cs), "héllo");
}
