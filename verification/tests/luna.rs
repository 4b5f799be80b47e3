use ares_core::install::{
    install_upload_path, map_installer_message, progress_label, App, InstallAction, InstallError,
    InstallEvent, InstallFlow, InstallerReport, InstallerStep, ListAppsResponse, SubscriptionItem,
};
use ares_core::luna::{
    call_outcome, install_payload, launch_payload, luna_command, remove_payload, teardown_steps,
    LineBuffer, LunaEmptyPayload, LunaError, TeardownStep,
};

fn report_from_json(line: &[u8]) -> InstallerReport {
    let v: serde_json::Value = serde_json::from_slice(line).unwrap();
    let details = v.get("details");
    InstallerReport {
        state: details
            .and_then(|d| d.get("state"))
            .and_then(|s| s.as_str())
            .map(|s| s.to_string()),
        package_id: details
            .and_then(|d| d.get("packageId"))
            .and_then(|s| s.as_str())
            .map(|s| s.to_string()),
        error_code: details
            .and_then(|d| d.get("errorCode"))
            .and_then(|c| c.as_i64())
            .map(|c| c as i32),
        reason: details
            .and_then(|d| d.get("reason"))
            .and_then(|s| s.as_str())
            .map(|s| s.to_string()),
    }
}

#[test]
fn framing_is_chunk_insensitive() {
    let stream = b"{\"a\":1}\n{\"b\":2}\n{\"c\"";
    // whole stream at once
    let mut whole = LineBuffer::new();
    whole.push_chunk(stream);
    let mut whole_lines = Vec::new();
    while let Some(line) = whole.take_line() {
        whole_lines.push(line);
    }
    // the same stream in awkward pieces
    let mut pieces = LineBuffer::new();
    let mut piece_lines = Vec::new();
    for chunk in [&stream[..3], &stream[3..9], &stream[9..10], &stream[10..]] {
        pieces.push_chunk(chunk);
        while let Some(line) = pieces.take_line() {
            piece_lines.push(line);
        }
    }
    assert_eq!(whole_lines, piece_lines);
    assert_eq!(whole_lines.len(), 2);
    assert_eq!(whole_lines[0], b"{\"a\":1}");
    assert_eq!(whole_lines[1], b"{\"b\":2}");
    assert!(!pieces.is_empty());
}

#[test]
fn install_progress_events() {
    let messages = [
        "{\"details\":{\"state\":\"installing : downloading\"}}\n",
        "{\"details\":{\"state\":\"installing : writing\"}}\n",
        "{\"details\":{\"state\":\"installed\",\"packageId\":\"com.example.foo\"}}\n",
    ];
    let expected = regex::Regex::new("(?i)installed").unwrap();
    let mut buffer = LineBuffer::new();
    let mut progress = Vec::new();
    let mut outcome: Option<Result<String, InstallError>> = None;
    for m in messages {
        buffer.push_chunk(m.as_bytes());
        while let Some(line) = buffer.take_line() {
            let item = SubscriptionItem::Report(report_from_json(&line));
            match map_installer_message(item, &expected) {
                InstallerStep::Done(r) => {
                    outcome = Some(r);
                }
                InstallerStep::Progress(state) => progress.push(progress_label(&state)),
                InstallerStep::Ignore => {}
            }
            if outcome.is_some() {
                break;
            }
        }
    }
    assert_eq!(progress, vec!["downloading", "writing"]);
    match outcome {
        Some(Ok(id)) => assert_eq!(id, "com.example.foo"),
        other => panic!("expected success, got {:?}", other),
    }
}

#[test]
fn install_failure_still_deletes_upload() {
    let expected = regex::Regex::new("(?i)installed").unwrap();
    let line = "{\"details\":{\"state\":\"FAILED_INSTALL\",\"errorCode\":42,\"reason\":\"disk full\"}}";
    let step = map_installer_message(
        SubscriptionItem::Report(report_from_json(line.as_bytes())),
        &expected,
    );
    let step_for_flow = match &step {
        InstallerStep::Done(Err(InstallError::Response { error_code, reason })) => {
            assert_eq!(*error_code, 42);
            assert_eq!(reason, "disk full");
            step
        }
        other => panic!("expected a failed response, got {:?}", step_name(other)),
    };

    let package = b"fake package".to_vec();
    let mut flow = InstallFlow::new(&package);
    let ipk_path = flow.ipk_path.clone();
    assert!(matches!(flow.begin(), InstallAction::EnsureDir { ref path, mode } if path == "/media/developer/temp" && mode == 0o777));
    assert!(matches!(flow.step(InstallEvent::DirEnsured(Ok(()))), InstallAction::Upload { ref target } if *target == ipk_path));
    assert!(matches!(flow.step(InstallEvent::Uploaded(Ok(()))), InstallAction::Subscribe { ref uri, .. } if uri == "luna://com.webos.appInstallService/dev/install"));
    assert!(matches!(flow.step(InstallEvent::Subscribed(Ok(()))), InstallAction::Await));
    // the failed terminal event still leads to deleting the upload
    match flow.step(InstallEvent::Message(step_for_flow)) {
        InstallAction::Remove { path } => assert_eq!(path, ipk_path),
        other => panic!("expected removal, got {:?}", action_name(&other)),
    }
    assert!(matches!(flow.step(InstallEvent::Removed(Ok(()))), InstallAction::Finish));
    match flow.into_outcome() {
        Err(InstallError::Response { error_code, reason }) => {
            assert_eq!(error_code, 42);
            assert_eq!(reason, "disk full");
        }
        other => panic!("expected the response error, got {:?}", outcome_name(&other)),
    }
}

fn step_name(s: &InstallerStep) -> &'static str {
    match s {
        InstallerStep::Done(_) => "done",
        InstallerStep::Progress(_) => "progress",
        InstallerStep::Ignore => "ignore",
    }
}

fn outcome_name(r: &Result<String, InstallError>) -> &'static str {
    match r {
        Ok(_) => "ok",
        Err(_) => "err",
    }
}

fn action_name(a: &InstallAction) -> &'static str {
    match a {
        InstallAction::EnsureDir { .. } => "ensure-dir",
        InstallAction::Upload { .. } => "upload",
        InstallAction::Subscribe { .. } => "subscribe",
        InstallAction::Await => "await",
        InstallAction::Remove { .. } => "remove",
        InstallAction::Finish => "finish",
    }
}

#[test]
fn upload_path_uses_digest_prefix() {
    // sha256("hello") = 2cf24dba5fb0a30e26e83b2ac5b9e29e1b161e5c1fa7425e73043362938b9824
    let path = install_upload_path(&b"hello".to_vec());
    assert_eq!(path, "/media/developer/temp/ares_install_2cf24dba5f.ipk");
}

#[test]
fn luna_payloads_and_commands() {
    assert_eq!(LunaEmptyPayload {}.render(), "{}");
    assert_eq!(
        install_payload("/media/developer/temp/x.ipk"),
        "{\"id\":\"com.ares.defaultName\",\"ipkUrl\":\"/media/developer/temp/x.ipk\",\"subscribe\":true}"
    );
    assert_eq!(
        remove_payload("com.example.foo"),
        "{\"id\":\"com.example.foo\",\"subscribe\":true}"
    );
    assert_eq!(
        launch_payload("com.example.foo", None),
        "{\"id\":\"com.example.foo\",\"subscribe\":false}"
    );
    let params = "{\"x\":1}".to_string();
    assert_eq!(
        launch_payload("com.example.foo", Some(&params)),
        "{\"id\":\"com.example.foo\",\"subscribe\":false,\"params\":{\"x\":1}}"
    );
    // the quoted payload differs from the raw payload: quoting is real
    let cmd = luna_command(true, false, "luna://com.webos.applicationManager/dev/listApps", "{}");
    assert_eq!(cmd, "luna-send-pub -n 1 luna://com.webos.applicationManager/dev/listApps {}");
    let cmd = luna_command(false, true, "luna://x", "{\"id\":\"a b\"}");
    assert_eq!(cmd, "luna-send -i luna://x '{\"id\":\"a b\"}'");
}

#[test]
fn call_outcome_by_exit_code() {
    match call_outcome(0, b"{\"ok\":true}".to_vec()) {
        Ok(body) => assert_eq!(body, b"{\"ok\":true}"),
        Err(_) => panic!("exit 0 must succeed"),
    }
    assert!(matches!(call_outcome(1, Vec::new()), Err(LunaError::NotAvailable)));
}

#[test]
fn teardown_order() {
    let steps = teardown_steps();
    assert!(matches!(steps[0], TeardownStep::SendEof));
    assert!(matches!(steps[1], TeardownStep::SignalTerm));
    assert!(matches!(steps[2], TeardownStep::Close));
    assert_eq!(steps.len(), 3);
}

#[test]
fn bad_json_and_read_errors_are_terminal() {
    let expected = regex::Regex::new("(?i)installed").unwrap();
    match map_installer_message(SubscriptionItem::BadJson("Bad JSON response".to_string()), &expected)
    {
        InstallerStep::Done(Err(InstallError::Io(m))) => assert_eq!(m, "Bad JSON response"),
        _ => panic!("expected an I/O error"),
    }
    match map_installer_message(SubscriptionItem::ReadError("SSH read error".to_string()), &expected)
    {
        InstallerStep::Done(Err(InstallError::Io(m))) => assert_eq!(m, "SSH read error"),
        _ => panic!("expected an I/O error"),
    }
    // a report without a state says nothing
    let rep = InstallerReport { state: None, package_id: None, error_code: None, reason: None };
    assert!(matches!(
        map_installer_message(SubscriptionItem::Report(rep), &expected),
        InstallerStep::Ignore
    ));
    // defaults: no code, no reason, no package id
    let rep = InstallerReport {
        state: Some("FAILED".to_string()),
        package_id: None,
        error_code: None,
        reason: None,
    };
    match map_installer_message(SubscriptionItem::Report(rep), &expected) {
        InstallerStep::Done(Err(InstallError::Response { error_code, reason })) => {
            assert_eq!(error_code, 0);
            assert_eq!(reason, "unknown error");
        }
        _ => panic!("expected the default failure"),
    }
    let rep = InstallerReport {
        state: Some("SUCCESS".to_string()),
        package_id: None,
        error_code: None,
        reason: None,
    };
    match map_installer_message(SubscriptionItem::Report(rep), &expected) {
        InstallerStep::Done(Ok(id)) => assert_eq!(id, ""),
        _ => panic!("expected the default success"),
    }
}

#[test]
fn listed_app_ids_in_order() {
    let resp = ListAppsResponse {
        apps: vec![
            App {
                id: "com.example.a".to_string(),
                version: "1.0".to_string(),
                app_type: "web".to_string(),
                title: "A".to_string(),
                vendor: None,
            },
            App {
                id: "com.example.b".to_string(),
                version: "2.0".to_string(),
                app_type: "native".to_string(),
                title: "B".to_string(),
                vendor: Some("Example".to_string()),
            },
        ],
        return_value: true,
    };
    assert_eq!(resp.app_ids(), vec!["com.example.a", "com.example.b"]);
}
