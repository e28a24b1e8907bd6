use intellij_hosts::apply::{apply_profile, ApplyAction, ApplyEvent, ApplyPhase, ApplyTxn};
use intellij_hosts::model::{HostsEntry, HostsError, HostsProfile};
use intellij_hosts::paths::{backup_file_name, backup_name_for, get_hosts_file_path, Platform};
use intellij_hosts::store::ProfileStore;
use intellij_hosts::system::{
    double_backslashes, elevation_command, elevation_failure, theme_from_output, trim,
};

fn store_with_a() -> ProfileStore {
    let mut s = ProfileStore::new();
    s.save_profile(HostsProfile {
        id: "a".to_string(),
        name: "A".to_string(),
        description: Some("d".to_string()),
        entries: vec![
            HostsEntry {
                ip: "10.0.0.1".to_string(),
                domain: "on.test".to_string(),
                comment: None,
                enabled: true,
            },
            HostsEntry {
                ip: "10.0.0.2".to_string(),
                domain: "off.test".to_string(),
                comment: None,
                enabled: false,
            },
        ],
        created_at: "c".to_string(),
        updated_at: "u".to_string(),
    });
    s
}

#[test]
fn apply_takes_backup_before_writing() {
    let s = store_with_a();
    let mut t = apply_profile(&s, &"a".to_string(), Platform::MacOs).unwrap();
    assert_eq!(t.phase(), ApplyPhase::Ready);
    match t.step(ApplyEvent::Begin) {
        ApplyAction::TakeBackup(p) => assert_eq!(p, "/etc/hosts"),
        _ => panic!("expected a backup first"),
    }
    assert!(matches!(t.step(ApplyEvent::WriteDone(Ok(()))), ApplyAction::Wait));
    assert_eq!(t.phase(), ApplyPhase::BackingUp);
    match t.step(ApplyEvent::BackupTaken(Ok("b.txt".to_string()))) {
        ApplyAction::WriteLive(p, c) => {
            assert_eq!(p, "/etc/hosts");
            assert!(c.starts_with("# Hosts file managed by IntellijHosts\n"));
            assert!(c.ends_with("\n\n10.0.0.1\ton.test\n"));
            assert!(!c.contains("off.test"));
        }
        _ => panic!("expected the write"),
    }
    assert!(matches!(t.step(ApplyEvent::WriteDone(Ok(()))), ApplyAction::Finish(Ok(()))));
    assert_eq!(t.phase(), ApplyPhase::Done);
}

#[test]
fn failed_write_after_backup_ends_failed() {
    let s = store_with_a();
    let mut t = apply_profile(&s, &"a".to_string(), Platform::Windows).unwrap();
    assert!(matches!(t.step(ApplyEvent::Begin), ApplyAction::TakeBackup(_)));
    assert!(matches!(
        t.step(ApplyEvent::BackupTaken(Ok("b".to_string()))),
        ApplyAction::WriteLive(_, _)
    ));
    let r = t.step(ApplyEvent::WriteDone(Err(HostsError::PermissionDenied("no".to_string()))));
    assert!(matches!(r, ApplyAction::Finish(Err(HostsError::PermissionDenied(_)))));
    assert_eq!(t.phase(), ApplyPhase::Failed);
}

#[test]
fn failed_backup_stops_before_writing() {
    let s = store_with_a();
    let mut t = apply_profile(&s, &"a".to_string(), Platform::Linux).unwrap();
    t.step(ApplyEvent::Begin);
    let r = t.step(ApplyEvent::BackupTaken(Err(HostsError::Io("x".to_string()))));
    assert!(matches!(r, ApplyAction::Finish(Err(HostsError::Io(_)))));
    assert_eq!(t.phase(), ApplyPhase::Failed);
    assert!(matches!(t.step(ApplyEvent::BackupTaken(Ok("b".to_string()))), ApplyAction::Wait));
}

#[test]
fn apply_missing_or_unsupported() {
    let s = store_with_a();
    assert!(matches!(
        apply_profile(&s, &"b".to_string(), Platform::MacOs),
        Err(HostsError::NotFound(ref m)) if m == "Profile not found"
    ));
    assert!(matches!(
        apply_profile(&s, &"a".to_string(), Platform::Other),
        Err(HostsError::System(_))
    ));
}

#[test]
fn direct_entries_transaction_starts_ready() {
    let mut t = ApplyTxn::for_entries(Vec::new(), "/etc/hosts".to_string());
    assert_eq!(t.phase(), ApplyPhase::Ready);
    assert!(matches!(t.step(ApplyEvent::Begin), ApplyAction::TakeBackup(_)));
}

#[test]
fn hosts_path_per_platform() {
    assert_eq!(get_hosts_file_path(Platform::Windows).unwrap(), r"C:\Windows\System32\drivers\etc\hosts");
    assert_eq!(get_hosts_file_path(Platform::MacOs).unwrap(), "/etc/hosts");
    assert_eq!(get_hosts_file_path(Platform::Linux).unwrap(), "/etc/hosts");
    assert!(matches!(get_hosts_file_path(Platform::Other), Err(HostsError::System(_))));
}

#[test]
fn backup_names() {
    assert_eq!(backup_name_for("20240102_030405"), "hosts_backup_20240102_030405.txt");
    let n = backup_file_name();
    assert!(n.starts_with("hosts_backup_"));
    assert!(n.ends_with(".txt"));
    assert_eq!(n.len(), "hosts_backup_".len() + 15 + ".txt".len());
    assert_eq!(&n[21..22], "_");
    let stamp = &n["hosts_backup_".len()..n.len() - ".txt".len()];
    assert!(stamp.chars().enumerate().all(|(i, c)| if i == 8 { c == '_' } else { c.is_ascii_digit() }));
}

#[test]
fn theme_decisions() {
    assert_eq!(theme_from_output(Platform::MacOs, true, "Dark\n"), "dark");
    assert_eq!(theme_from_output(Platform::MacOs, true, "Light"), "light");
    assert_eq!(theme_from_output(Platform::MacOs, false, "Dark"), "light");
    assert_eq!(theme_from_output(Platform::Windows, true, "  dark\r\n"), "dark");
    assert_eq!(theme_from_output(Platform::Windows, false, "dark"), "light");
    assert_eq!(theme_from_output(Platform::Windows, true, "x"), "light");
    assert_eq!(theme_from_output(Platform::Windows, true, "light"), "light");
    assert_eq!(theme_from_output(Platform::Linux, true, "Dark"), "light");
}

#[test]
fn trim_strips_both_ends() {
    assert_eq!(trim("  a b \n"), "a b");
    assert_eq!(trim(" \t "), "");
}

#[test]
fn elevation_commands() {
    let m = elevation_command(Platform::MacOs, "/tmp/t", "/etc/hosts").unwrap();
    assert_eq!(m.program, "osascript");
    assert_eq!(
        m.args,
        vec![
            "-e".to_string(),
            "do shell script \"cat '/tmp/t' > '/etc/hosts' && chmod 644 '/etc/hosts'\" with administrator privileges".to_string()
        ]
    );
    let w = elevation_command(Platform::Windows, r"C:\t", r"C:\h").unwrap();
    assert_eq!(w.program, "powershell");
    assert_eq!(
        w.args[1],
        r#"Start-Process -FilePath 'cmd.exe' -ArgumentList '/c copy /Y "C:\\t" "C:\\h"' -Verb RunAs -Wait"#
    );
    assert!(elevation_command(Platform::Linux, "a", "b").is_none());
    assert_eq!(double_backslashes(r"a\b\\c"), r"a\\b\\\\c");
}

#[test]
fn elevation_failure_message() {
    let e = elevation_failure("denied");
    assert!(matches!(e, HostsError::PermissionDenied(_)));
    assert_eq!(e.message(), "Failed to elevate privileges: denied");
}
