use ares_core::device::{
    Device, DeviceManager, DeviceSelection, FileTransfer, PickPrompt, PrivateKey,
};
use ares_core::session::{auth_failure_message, auth_method, session_config, AuthMethod, SessionError};
use ares_core::shell::{encode_key, shell_exit_code, DumbShell, KeyInput, ShellAction, ShellEvent};
use ares_core::transfer::{
    exit_result, get_command, mkdir_command, mkdir_sftp_step, put_command, rm_command,
    sftp_allowed, transfer_route, MkdirSftpAction, RemoteFileKind, TransferError, TransferRoute,
};

fn device(name: &str, default: bool) -> Device {
    Device {
        name: name.to_string(),
        host: "10.0.0.1".to_string(),
        port: 22,
        username: "root".to_string(),
        profile: "ose".to_string(),
        password: None,
        private_key: None,
        passphrase: None,
        files: None,
        default: if default { Some(true) } else { None },
        description: None,
        order: None,
    }
}

#[test]
fn find_or_default_and_set_default() {
    let mut mgr = DeviceManager::new(vec![device("tv", false), device("emulator", true)]);
    assert_eq!(mgr.list().len(), 2);
    let by_name = mgr.find_or_default(Some(&"tv".to_string())).unwrap();
    assert_eq!(by_name.name, "tv");
    let by_default = mgr.find_or_default(None).unwrap();
    assert_eq!(by_default.name, "emulator");
    assert!(mgr.find_or_default(Some(&"nope".to_string())).is_none());

    let set = mgr.set_default(&"tv".to_string()).unwrap();
    assert_eq!(set.name, "tv");
    assert_eq!(set.default, Some(true));
    assert_eq!(mgr.find_or_default(None).unwrap().name, "tv");
    assert_eq!(mgr.list()[1].default, None);
}

struct FirstPrompt;

impl PickPrompt for FirstPrompt {
    fn pick(&self, devices: &Vec<Device>) -> Option<usize> {
        if devices.is_empty() { None } else { Some(0) }
    }
}

#[test]
fn pick_by_selection() {
    let mgr = DeviceManager::new(vec![device("tv", false), device("emulator", true)]);
    let prompt = FirstPrompt;
    let named = mgr.pick(Some(&DeviceSelection::Name("tv".to_string())), &prompt).unwrap();
    assert_eq!(named.name, "tv");
    let by_default = mgr.pick(None, &prompt).unwrap();
    assert_eq!(by_default.name, "emulator");
    let picked = mgr.pick(Some(&DeviceSelection::Pick), &prompt).unwrap();
    assert_eq!(picked.name, "tv");
    let empty = "";
    assert!(matches!(empty.parse::<DeviceSelection>(), Ok(DeviceSelection::Pick)));
    assert!(matches!("tv".parse::<DeviceSelection>(), Ok(DeviceSelection::Name(_))));
}

#[test]
fn blank_passphrase_is_absent() {
    let mut d = device("tv", false);
    d.passphrase = Some(String::new());
    assert!(d.valid_passphrase().is_none());
    d.passphrase = Some("secret".to_string());
    assert_eq!(d.valid_passphrase().unwrap(), "secret");
    d.passphrase = None;
    assert!(d.valid_passphrase().is_none());
}

#[test]
fn auth_prefers_key_over_password() {
    let mut d = device("tv", false);
    d.private_key = Some(PrivateKey::Data { data: "KEYDATA".to_string() });
    d.password = Some("hunter2".to_string());
    match auth_method(&d) {
        AuthMethod::Key { key: PrivateKey::Data { data }, passphrase } => {
            assert_eq!(data, "KEYDATA");
            assert!(passphrase.is_none());
        }
        _ => panic!("key auth must be chosen first"),
    }
    d.private_key = None;
    assert!(matches!(auth_method(&d), AuthMethod::Password { .. }));
    d.password = None;
    assert!(matches!(auth_method(&d), AuthMethod::NoAuth));
    match auth_failure_message(&AuthMethod::NoAuth) {
        SessionError::Authorization { message } => assert_eq!(message, "Host needs authorization"),
        _ => panic!("expected an authorization error"),
    }
}

#[test]
fn session_configuration() {
    let d = device("tv", false);
    let cfg = session_config(&d, "/dev/null");
    assert_eq!(cfg.timeout_secs, 10);
    assert_eq!(cfg.host, "10.0.0.1");
    assert_eq!(cfg.port, 22);
    assert_eq!(cfg.username, "root");
    assert!(cfg.kex.starts_with("curve25519-sha256,"));
    assert!(cfg.kex.ends_with("diffie-hellman-group14-sha1"));
    assert!(cfg.hmac.contains("hmac-md5"));
    assert!(cfg.host_keys.starts_with("ssh-ed25519,"));
    assert_eq!(cfg.known_hosts, "/dev/null");
    assert!(!cfg.read_ssh_config);
}

#[test]
fn transfer_strategy_and_commands() {
    let mut d = device("tv", false);
    assert!(sftp_allowed(&d));
    d.files = Some(FileTransfer::Sftp);
    assert!(sftp_allowed(&d));
    d.files = Some(FileTransfer::Stream);
    assert!(!sftp_allowed(&d));

    // quoting is real: a path with a space comes back quoted
    assert_eq!(
        mkdir_command("/media/my dir", 0o777),
        "mkdir -p '/media/my dir' && chmod 777 '/media/my dir'"
    );
    assert_eq!(put_command("/tmp/a b"), "cat > '/tmp/a b'");
    assert_eq!(get_command("/tmp/plain"), "cat /tmp/plain");
    assert_eq!(rm_command("/tmp/a b"), "rm -rf '/tmp/a b'");

    assert!(exit_result("cat", 0).is_ok());
    match exit_result("cat", 3) {
        Err(TransferError::ExitCode { code, reason }) => {
            assert_eq!(code, 3);
            assert_eq!(reason, "cat command exited with status 3");
        }
        _ => panic!("expected an exit-code error"),
    }
    match exit_result("cat", -1) {
        Err(TransferError::ExitCode { code, reason }) => {
            assert_eq!(code, -1);
            assert_eq!(reason, "cat command exited with status -1");
        }
        _ => panic!("expected an exit-code error"),
    }
}

#[test]
fn remote_mkdir_is_idempotent_on_directories() {
    // the target already exists as a directory: success, both times
    for _ in 0..2 {
        assert!(matches!(
            mkdir_sftp_step(Some(RemoteFileKind::Directory), "/media/developer/temp"),
            MkdirSftpAction::AlreadyExists
        ));
    }
    assert!(matches!(mkdir_sftp_step(None, "/media/x"), MkdirSftpAction::CreateDir));
    match mkdir_sftp_step(Some(RemoteFileKind::Regular), "/media/x") {
        MkdirSftpAction::Fail(TransferError::ExitCode { code, reason }) => {
            assert_eq!(code, 1);
            assert_eq!(reason, "File /media/x exists and is not a directory");
        }
        _ => panic!("expected a failure"),
    }
}

#[test]
fn key_encoding() {
    assert_eq!(encode_key(&KeyInput::Backspace), vec![0x08, 0x20, 0x08]);
    assert_eq!(encode_key(&KeyInput::Enter), vec![0x0d]);
    assert_eq!(encode_key(&KeyInput::Left), vec![0x1b, 0x5b, 0x44]);
    assert_eq!(encode_key(&KeyInput::PageDown), vec![0x1b, 0x5b, 0x36, 0x7e]);
    assert_eq!(encode_key(&KeyInput::F(1)), vec![0x1b, 0x5b, 0x4f, 0x31]);
    assert_eq!(encode_key(&KeyInput::Char('a')), vec![0x61]);
    assert_eq!(encode_key(&KeyInput::Ctrl('c')), vec![0x03]);
    assert_eq!(encode_key(&KeyInput::Alt('x')), vec![0x1b, 0x78]);
    assert_eq!(encode_key(&KeyInput::Esc), vec![0x1b]);
    assert!(encode_key(&KeyInput::Other).is_empty());
}

#[test]
fn dumb_shell_interleaves_both_streams() {
    let mut shell = DumbShell::new();
    let mut local_stdout = Vec::new();
    let mut local_stderr = Vec::new();
    // remote command wrote "hello\n" to stdout and "err\n" to stderr
    let mut stdout_pending: Vec<Vec<u8>> = vec![b"hello\n".to_vec()];
    let mut stderr_pending: Vec<Vec<u8>> = vec![b"err\n".to_vec()];
    let mut exited = false;
    let mut polls = 0;
    while !exited && polls < 10 {
        polls += 1;
        let target_stderr = shell.poll_target();
        let pending = if target_stderr { &mut stderr_pending } else { &mut stdout_pending };
        let event = if let Some(data) = pending.pop() {
            ShellEvent::Read(data)
        } else if stdout_pending.is_empty() && stderr_pending.is_empty() {
            ShellEvent::Eof
        } else {
            ShellEvent::NothingYet
        };
        match shell.on_event(event) {
            ShellAction::WriteLocal { stderr, data } => {
                if stderr {
                    local_stderr.extend_from_slice(&data);
                } else {
                    local_stdout.extend_from_slice(&data);
                }
            }
            ShellAction::Exit => exited = true,
            ShellAction::Sleep => {}
            _ => panic!("unexpected action"),
        }
    }
    assert!(exited);
    assert_eq!(local_stdout, b"hello\n");
    assert_eq!(local_stderr, b"err\n");
    assert_eq!(shell_exit_code(Some(0)), 0);
    assert_eq!(shell_exit_code(None), -1);
}

#[test]
fn shell_forwards_local_input() {
    let mut shell = DumbShell::new();
    match shell.on_event(ShellEvent::Input(b"ls\n".to_vec())) {
        ShellAction::WriteRemote(data) => assert_eq!(data, b"ls\n"),
        _ => panic!("input must go to the remote stdin"),
    }
    assert!(matches!(shell.on_event(ShellEvent::InputClosed), ShellAction::Exit));
}

#[test]
fn remove_devices_and_promote_default() {
    let mut d1 = device("tv", true);
    d1.private_key = Some(PrivateKey::Name { name: "webos_abc123".to_string() });
    let d2 = device("emulator", false);
    let d3 = device("watch", false);
    let mut mgr = DeviceManager::new(vec![d1, d2, d3]);
    let keys = mgr.remove(&"tv".to_string(), true);
    assert_eq!(keys, vec!["webos_abc123".to_string()]);
    assert_eq!(mgr.list().len(), 2);
    // the removed device was the default: the first device left takes over
    assert_eq!(mgr.list()[0].name, "emulator");
    assert_eq!(mgr.list()[0].default, Some(true));
    assert_eq!(mgr.list()[1].name, "watch");

    // keys outside the managed prefix are left alone
    let mut d4 = device("tablet", false);
    d4.private_key = Some(PrivateKey::Name { name: "id_rsa".to_string() });
    let mut mgr = DeviceManager::new(vec![d4]);
    let keys = mgr.remove(&"tablet".to_string(), true);
    assert!(keys.is_empty());
    assert!(mgr.list().is_empty());
}

#[test]
fn transfer_route_decision() {
    let mut d = device("tv", false);
    assert_eq!(transfer_route(&d, true), TransferRoute::Sftp);
    // any SFTP failure falls back to the exec path
    assert_eq!(transfer_route(&d, false), TransferRoute::Exec);
    d.files = Some(FileTransfer::Stream);
    // a streaming device never sees SFTP
    assert_eq!(transfer_route(&d, true), TransferRoute::Exec);
    assert_eq!(transfer_route(&d, false), TransferRoute::Exec);
}
