use adbchelper::models::ConnectionProfile;
use adbchelper::secrets::{
    delete_profile_secret, fallback_secret, fallback_secret_path, finish_set_profile_secret, has_profile_secret,
    profile_secret_lookup, SecretError, SecretLookup, SecretWrite,
};
use adbchelper::settings::{
    accept_new_args, accept_new_outcome, expand_home_path, expand_home_path_given, keygen_args, keyscan_outcome,
    known_hosts_update, trust_profile_check, key_pair_paths, keyscan_args, merge_known_hosts,
    profile_with_rsa_keypair, resolve_known_hosts_path, saved_profile_has_secret, secret_failure_tolerated,
    tool_failure_message, trusted_message, untrusted_message, validation_message, TrustedSshProfile,
};
use adbchelper::tools::{
    bundled_candidates, choose_kubectl, choose_sibling, choose_ssh_tool, known_windows_locations, log_line, log_path,
    resolve_kubectl, resolve_ssh, resolve_ssh_keygen, resolve_ssh_keyscan, sibling_candidate, KubectlLocator,
    SshToolLocator,
};

fn profile(endpoint: &str, username: Option<&str>, config: &str) -> ConnectionProfile {
    ConnectionProfile {
        id: "p-7".to_string(),
        environment_id: "dev".to_string(),
        profile_type: "ssh".to_string(),
        name: "bastion".to_string(),
        endpoint: endpoint.to_string(),
        username: username.map(|u| u.to_string()),
        default_scope: Some("scope".to_string()),
        notes: None,
        config_json: config.to_string(),
        has_secret: true,
        created_at: String::new(),
        updated_at: String::new(),
    }
}

fn trusted(port: Option<u16>, username: Option<&str>) -> TrustedSshProfile {
    TrustedSshProfile {
        host: "web-1".to_string(),
        port,
        username: username.map(|u| u.to_string()),
        ssh_path: None,
        known_hosts_path: "/home/ops/.ssh/known_hosts".to_string(),
    }
}

#[test]
fn saving_profiles() {
    assert_eq!(validation_message(&vec!["Name is required.".to_string(), "Endpoint is required.".to_string()]),
        "Name is required. Endpoint is required.");
    assert!(saved_profile_has_secret(&Some("pw".to_string()), false));
    assert!(!saved_profile_has_secret(&Some("  ".to_string()), false));
    assert!(saved_profile_has_secret(&None, true));
    assert!(secret_failure_tolerated(
        "failed to access secure secret storage: system keychain unavailable, stored secret in app data fallback instead: x"
    ));
    assert!(!secret_failure_tolerated("failed to persist fallback secret file: denied"));
}

#[test]
fn known_hosts_paths() {
    let home = Some("/home/ops".to_string());
    assert_eq!(expand_home_path("~/.ssh/kh", "/data", &home), "/home/ops/.ssh/kh");
    assert_eq!(expand_home_path("$HOME/kh", "/data", &home), "/home/ops/kh");
    assert_eq!(expand_home_path("/etc/kh", "/data", &home), "/etc/kh");
    assert_eq!(expand_home_path("kh", "/data", &home), "/data/kh");
    assert_eq!(expand_home_path("~/kh", "/data", &None), "/data/~/kh");
    assert_eq!(resolve_known_hosts_path(None, "/data", &home), "/home/ops/.ssh/known_hosts");
    assert_eq!(resolve_known_hosts_path(None, "/data", &None), "/data/ssh/known_hosts");
    assert_eq!(resolve_known_hosts_path(Some("~/x"), "/data", &home), "/home/ops/x");
}

#[test]
fn trusted_profile_from_settings() {
    let p = TrustedSshProfile::from_profile(
        &profile("ignored:1", Some("ops"), "{\"host\":\" web-1:2200 \",\"sshPath\":\"/opt/ssh\",\"knownHostsPath\":\"kh\"}"),
        "/data",
        &None,
    )
    .ok()
    .unwrap();
    assert_eq!(p.host, "web-1");
    assert_eq!(p.port, Some(2200));
    assert_eq!(p.ssh_path, Some("/opt/ssh".to_string()));
    assert_eq!(p.known_hosts_path, "/data/kh");
    assert_eq!(p.render_target(), "ops@web-1");
    let err = TrustedSshProfile::from_profile(&profile("  ", None, " "), "/data", &None).err();
    assert_eq!(err, Some("SSH profile is missing a host or endpoint.".to_string()));
}

#[test]
fn host_key_commands_and_messages() {
    assert_eq!(keyscan_args(&trusted(Some(22), None)), vec!["-p", "22", "web-1"]);
    assert_eq!(keyscan_args(&trusted(None, None)), vec!["web-1"]);
    assert_eq!(
        accept_new_args(&trusted(None, Some("ops"))),
        vec![
            "-o", "BatchMode=yes", "-o", "PreferredAuthentications=none", "-o", "PubkeyAuthentication=no", "-o",
            "PasswordAuthentication=no", "-o", "NumberOfPasswordPrompts=0", "-o", "StrictHostKeyChecking=accept-new",
            "-o", "UserKnownHostsFile=/home/ops/.ssh/known_hosts", "-o", "ConnectTimeout=5", "ops@web-1", "exit"
        ]
    );
    assert_eq!(
        trusted_message(&trusted(None, Some("ops"))),
        "Trusted SSH host key for ops@web-1 using /home/ops/.ssh/known_hosts."
    );
    assert!(untrusted_message(&trusted(None, None)).starts_with("Unable to trust the SSH host key automatically for web-1."));
    assert_eq!(tool_failure_message("ssh-keyscan", " \n"), "ssh-keyscan failed without stderr output.");
    assert_eq!(tool_failure_message("ssh-keygen", " bad key \n"), "ssh-keygen failed: bad key");
}

#[test]
fn known_hosts_merge_appends_only_new_lines() {
    let (text, changed) = merge_known_hosts("a ssh-rsa AAA", "  a ssh-rsa AAA \n\nb ssh-ed25519 BBB\n");
    assert_eq!(text, "a ssh-rsa AAA\nb ssh-ed25519 BBB\n");
    assert!(changed);
    let (again, changed_again) = merge_known_hosts(&text, "b ssh-ed25519 BBB\na ssh-rsa AAA\n");
    assert_eq!(again, text);
    assert!(!changed_again);
    let (fresh, changed) = merge_known_hosts("", "x key\n");
    assert_eq!(fresh, "x key\n");
    assert!(changed);
}

#[test]
fn rsa_key_pairs() {
    assert_eq!(
        keygen_args("/data/ssh_keys/p-7_rsa", "bastion"),
        vec!["-q", "-t", "rsa", "-b", "4096", "-m", "PEM", "-N", "", "-f", "/data/ssh_keys/p-7_rsa", "-C", "adbchelper:bastion"]
    );
    let (private, public) = key_pair_paths("/data/ssh_keys", "p-7");
    assert_eq!(private, "/data/ssh_keys/p-7_rsa");
    assert_eq!(public, "/data/ssh_keys/p-7_rsa.pub");
    let input = profile_with_rsa_keypair(&profile("web", Some("ops"), "{\"port\":22}"), "/k", "/k.pub").ok().unwrap();
    let config: serde_json::Value = serde_json::from_str(input.config_json.as_deref().unwrap()).unwrap();
    assert_eq!(config["authMode"], "rsa");
    assert_eq!(config["privateKeyPath"], "/k");
    assert_eq!(config["publicKeyPath"], "/k.pub");
    assert_eq!(config["port"], 22);
    assert_eq!(input.id, Some("p-7".to_string()));
    assert_eq!(input.default_scope, Some("scope".to_string()));
    assert!(input.secret_value.is_none());
    let refused = profile_with_rsa_keypair(&profile("web", None, "[1,2]"), "/k", "/k.pub").err();
    assert_eq!(refused, Some("SSH profile config must be a JSON object.".to_string()));
}

#[test]
fn secret_fallbacks() {
    assert_eq!(fallback_secret_path("/data", "p-7"), "/data/secrets/p-7.secret");
    assert_eq!(delete_profile_secret(None, "p-7"), None);
    let write = SecretWrite { keyring_error: Some("no dbus".to_string()), fallback_path: Some("/f".to_string()) };
    match finish_set_profile_secret(&write, Some(Ok(()))) {
        Err(SecretError::Access(m)) => {
            assert_eq!(m, "system keychain unavailable, stored secret in app data fallback instead: no dbus")
        }
        _ => panic!("expected an access error"),
    }
    match finish_set_profile_secret(&write, Some(Err("disk full".to_string()))) {
        Err(e) => assert_eq!(e.message(), "failed to persist fallback secret file: disk full"),
        Ok(()) => panic!("expected an io error"),
    }
    let clean = SecretWrite { keyring_error: None, fallback_path: None };
    assert!(finish_set_profile_secret(&clean, None).is_ok());
    assert!(matches!(fallback_secret(Ok("  \n".to_string())), Err(SecretError::Missing)));
    let found = fallback_secret(Ok("s3cret".to_string()));
    assert!(has_profile_secret(&found));
    assert_eq!(found.ok(), Some("s3cret".to_string()));
    assert!(!has_profile_secret(&fallback_secret(Err("no file".to_string()))));
    assert_eq!(SecretError::Missing.message(), "no stored secret found");
}

#[test]
fn tool_resolution_and_log() {
    let locator = KubectlLocator { resource_dir: None, executable_dir: None, windows: false };
    let r = resolve_kubectl(locator, Some("  ")).ok().unwrap();
    assert_eq!(r.display_path(), "kubectl");
    assert_eq!(r.source_label, "system PATH");
    let locator = KubectlLocator { resource_dir: None, executable_dir: None, windows: true };
    assert_eq!(resolve_kubectl(locator, None).ok().unwrap().display_path(), "kubectl.exe");
    let locator = KubectlLocator { resource_dir: None, executable_dir: None, windows: false };
    assert_eq!(
        resolve_kubectl(locator, Some(" /nope/kubectl ")).err(),
        Some("Configured kubectlPath does not exist: /nope/kubectl".to_string())
    );
    let ssh_locator = SshToolLocator {
        resource_dir: None,
        executable_dir: None,
        windows: false,
        windows_roots: vec![],
        program_files: None,
    };
    let ssh = resolve_ssh(ssh_locator, None).ok().unwrap();
    assert_eq!(ssh.display_path(), "ssh");
    assert_eq!(ssh.source_label, "system PATH");
    assert_eq!(log_path("/var/data"), "/var/data/adbchelper.log");
    assert_eq!(log_line("t0", "INFO", "startup", "ready"), "t0 [INFO] startup :: ready");
}

#[test]
fn staged_key_names() {
    assert_eq!(adbchelper::tools::staged_key_name(0xbeef, Some("pem")), "imported_beef.pem");
    assert_eq!(adbchelper::tools::staged_key_name(0, None), "imported_0.key");
    assert_eq!(adbchelper::tools::staged_key_name(u64::MAX, Some("")), "imported_ffffffffffffffff.");
}

#[test]
fn kubectl_is_chosen_in_order() {
    let candidates = bundled_candidates(&Some("/r".to_string()), &Some("/x".to_string()), "kubectl", false);
    assert_eq!(candidates, vec!["/r/tools/kubectl", "/r/tools/kubectl.exe", "/x/tools/kubectl", "/x/tools/kubectl.exe"]);
    let on_windows = bundled_candidates(&None, &Some("/x".to_string()), "kubectl", true);
    assert_eq!(on_windows, vec!["/x/tools/kubectl.exe", "/x/tools/kubectl"]);
    let r = choose_kubectl(false, None, false, &candidates, &vec![false, true, true, false]).ok().unwrap();
    assert_eq!(r.display_path(), "/r/tools/kubectl.exe");
    assert_eq!(r.source_label, "bundled tools directory");
    let r = choose_kubectl(true, Some(" "), false, &candidates, &vec![false; 4]).ok().unwrap();
    assert_eq!(r.display_path(), "kubectl.exe");
    assert_eq!(r.source_label, "system PATH");
    let r = choose_kubectl(false, Some(" /opt/kubectl "), true, &candidates, &vec![true; 4]).ok().unwrap();
    assert_eq!(r.display_path(), "/opt/kubectl");
    assert_eq!(r.source_label, "custom kubectlPath (/opt/kubectl)");
    assert_eq!(
        choose_kubectl(false, Some("/opt/kubectl"), false, &candidates, &vec![true; 4]).err(),
        Some("Configured kubectlPath does not exist: /opt/kubectl".to_string())
    );
}

#[test]
fn ssh_tools_are_chosen_in_order() {
    let bundled = vec!["/r/tools/ssh".to_string()];
    let standard = vec!["C:/Windows/System32/OpenSSH/ssh.exe".to_string(), "D:/OpenSSH/ssh.exe".to_string()];
    let r = choose_ssh_tool("ssh", true, None, false, &bundled, &vec![false], &standard, &vec![false, true]).ok().unwrap();
    assert_eq!(r.display_path(), "D:/OpenSSH/ssh.exe");
    assert_eq!(r.source_label, "standard Windows OpenSSH location");
    let r = choose_ssh_tool("ssh", true, None, false, &bundled, &vec![true], &standard, &vec![true, true]).ok().unwrap();
    assert_eq!(r.source_label, "bundled tools directory");
    let r = choose_ssh_tool("ssh", false, Some("  "), false, &bundled, &vec![false], &vec![], &vec![]).ok().unwrap();
    assert_eq!(r.display_path(), "ssh");
    assert_eq!(r.source_label, "system PATH");
    assert_eq!(
        choose_ssh_tool("ssh", false, Some("/bin/nossh"), false, &bundled, &vec![true], &vec![], &vec![]).err(),
        Some("Configured ssh path does not exist: /bin/nossh".to_string())
    );
    let locator = SshToolLocator {
        resource_dir: None,
        executable_dir: None,
        windows: true,
        windows_roots: vec!["C:/Windows".to_string()],
        program_files: Some("C:/Program Files".to_string()),
    };
    let places = known_windows_locations(&locator, "ssh.exe");
    assert_eq!(
        places,
        vec![
            "C:/Windows/System32/OpenSSH/ssh.exe",
            "C:/Windows/Sysnative/OpenSSH/ssh.exe",
            "C:/Program Files/OpenSSH/ssh.exe"
        ]
    );
    let none = SshToolLocator { windows: false, ..locator };
    assert!(known_windows_locations(&none, "ssh").is_empty());
    let keyscan = resolve_ssh_keyscan(
        SshToolLocator { resource_dir: None, executable_dir: None, windows: false, windows_roots: vec![], program_files: None },
        None,
    )
    .ok()
    .unwrap();
    assert_eq!(keyscan.display_path(), "ssh-keyscan");
    assert_eq!(keyscan.source_label, "system PATH");
}

#[test]
fn sibling_tools_are_chosen() {
    let r = choose_sibling(Some(" /opt/ssh/bin/ssh "), true, Some("/opt/ssh/bin"), "/opt/ssh/bin/ssh-keygen", true);
    let res = r.ok().unwrap().unwrap();
    assert_eq!(res.display_path(), "/opt/ssh/bin/ssh-keygen");
    assert_eq!(res.source_label, "custom ssh sibling tool (/opt/ssh/bin)");
    assert!(choose_sibling(Some("/opt/ssh/bin/ssh"), true, Some("/opt/ssh/bin"), "/opt/ssh/bin/ssh-keygen", false)
        .ok()
        .unwrap()
        .is_none());
    assert_eq!(
        choose_sibling(Some(" /opt/ssh/bin/ssh "), false, None, "", false).err(),
        Some("Configured ssh path does not exist: /opt/ssh/bin/ssh".to_string())
    );
    assert!(choose_sibling(None, true, Some("/x"), "/x/ssh-keygen", true).ok().unwrap().is_none());
}

#[test]
fn keychain_first_secret_lookup() {
    match profile_secret_lookup(Some("/data"), "p1", Some("k3y".to_string())) {
        SecretLookup::Found(s) => assert_eq!(s, "k3y"),
        _ => panic!("keychain secret not used"),
    }
    match profile_secret_lookup(Some("/data"), "p1", Some("  ".to_string())) {
        SecretLookup::ReadFallback(p) => assert_eq!(p, "/data/secrets/p1.secret"),
        _ => panic!("fallback not used"),
    }
    assert!(matches!(profile_secret_lookup(None, "p1", None), SecretLookup::Missing));
}

#[test]
fn home_paths_given_absoluteness() {
    assert_eq!(expand_home_path_given("/etc/kh", "/data", &None, true), "/etc/kh");
    assert_eq!(expand_home_path_given("kh", "/data", &None, false), "/data/kh");
    assert_eq!(expand_home_path_given("~/kh", "/data", &Some("/home/ops".to_string()), true), "/home/ops/kh");
    assert_eq!(log_path("/var/lib/adbchelper"), "/var/lib/adbchelper/adbchelper.log");
}

#[test]
fn trust_decisions() {
    assert_eq!(trust_profile_check("ssh"), Ok(()));
    assert_eq!(
        trust_profile_check("redis"),
        Err("Trust host key is only available for SSH profiles.".to_string())
    );
    assert_eq!(keyscan_outcome(true, "h ssh-ed25519 AAA\n", ""), Ok("h ssh-ed25519 AAA\n".to_string()));
    assert_eq!(keyscan_outcome(true, " \n", ""), Err("ssh-keyscan returned no host key entries.".to_string()));
    assert_eq!(keyscan_outcome(false, "", " refused \n"), Err("ssh-keyscan failed: refused".to_string()));
    assert_eq!(keyscan_outcome(false, "", ""), Err("ssh-keyscan failed without stderr output.".to_string()));
    assert_eq!(known_hosts_update("a\n", "a\n", true), None);
    assert!(known_hosts_update("a\n", "a\n", false).is_some());
    assert_eq!(known_hosts_update("a\n", "b\n", true).map(|t| t.contains('b')), Some(true));
    let t = TrustedSshProfile {
        host: "db1".to_string(),
        port: None,
        username: Some("ops".to_string()),
        ssh_path: None,
        known_hosts_path: "/kh".to_string(),
    };
    assert_eq!(accept_new_outcome(&t, 10, 11), Ok(()));
    assert_eq!(accept_new_outcome(&t, 10, 10), Err(untrusted_message(&t)));
}

#[test]
fn known_hosts_merge_layout() {
    let (text, changed) = merge_known_hosts("a key", " b key \n\na key\nb key\nc key");
    assert!(changed);
    assert_eq!(text, "a key\nb key\nc key\n");
    let (same, changed) = merge_known_hosts("a key\n", "a key");
    assert!(!changed);
    assert_eq!(same, "a key\n");
}

#[test]
fn sibling_is_looked_for_next_to_the_configured_ssh() {
    assert_eq!(
        sibling_candidate("/opt/ssh/bin/ssh", "ssh-keygen"),
        Some(("/opt/ssh/bin".to_string(), "/opt/ssh/bin/ssh-keygen".to_string()))
    );
    assert_eq!(sibling_candidate("ssh", "ssh-keygen"), Some(("".to_string(), "ssh-keygen".to_string())));
    assert_eq!(sibling_candidate("/", "ssh-keygen"), None);
    let locator =
        SshToolLocator { resource_dir: None, executable_dir: None, windows: false, windows_roots: vec![], program_files: None };
    assert_eq!(
        resolve_ssh_keygen(locator, Some(" /no/such/dir/ssh ")).err(),
        Some("Configured ssh path does not exist: /no/such/dir/ssh".to_string())
    );
}
