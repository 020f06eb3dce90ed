use adbchelper::ssh::{ssh_adapter_mode, ssh_failure_message};
use adbchelper::models::{ConnectionProfile, SshHealthMetric, SshLogLine};
use adbchelper::ssh::{
    allowed_commands, build_recommendations, build_ssh_summary, detect_level, extract_after_marker, find_disk_value,
    find_mem_value, infer_status, is_valid_remote_command, parse_health_summary, parse_host_and_port,
    parse_log_lines, resolve_command, sanitize_remote_log_path, ssh_args_with_key_state, ssh_command_args, SshConfig,
};

fn chars(s: &str) -> Vec<char> {
    s.chars().collect()
}

fn text(v: &[char]) -> String {
    v.iter().collect()
}

fn profile(endpoint: &str, username: Option<&str>, config: &str) -> ConnectionProfile {
    ConnectionProfile {
        id: "s1".to_string(),
        environment_id: "dev".to_string(),
        profile_type: "ssh".to_string(),
        name: "bastion".to_string(),
        endpoint: endpoint.to_string(),
        username: username.map(|u| u.to_string()),
        default_scope: None,
        notes: None,
        config_json: config.to_string(),
        has_secret: false,
        created_at: String::new(),
        updated_at: String::new(),
    }
}

fn metric(status: &str) -> SshHealthMetric {
    SshHealthMetric { label: "CPU".to_string(), status: status.to_string(), value: "x".to_string(), detail: String::new() }
}

#[test]
fn log_paths_are_checked() {
    assert_eq!(sanitize_remote_log_path(" /var/log/app.log "), Ok("/var/log/app.log".to_string()));
    assert_eq!(sanitize_remote_log_path("  "), Err("SSH log path cannot be empty.".to_string()));
    assert_eq!(sanitize_remote_log_path("var/log"), Err("SSH log path must be an absolute path.".to_string()));
    assert_eq!(
        sanitize_remote_log_path("/var/log/a;rm -rf"),
        Err("SSH log path contains unsupported characters.".to_string())
    );
}

#[test]
fn presets_resolve_to_whitelisted_commands() {
    assert_eq!(resolve_command("tail_app_log", None), Ok("tail -n 80 /var/log/app/application.log".to_string()));
    assert_eq!(resolve_command("tail_nginx_error", Some("  ")), Ok("tail -n 80 /var/log/nginx/error.log".to_string()));
    assert_eq!(resolve_command("tail_app_log", Some("/srv/app.log")), Ok("tail -n 80 /srv/app.log".to_string()));
    assert_eq!(resolve_command("reboot", None), Err("Unsupported SSH command preset: reboot".to_string()));
    let overview = resolve_command("system_overview", None).unwrap();
    assert_eq!(overview, allowed_commands()[0]);
    assert_eq!(allowed_commands().len(), 4);
    assert!(is_valid_remote_command(&overview));
    assert!(is_valid_remote_command("tail -n 80 /anything"));
    assert!(!is_valid_remote_command("rm -rf /"));
}

#[test]
fn marker_sections() {
    let out = chars("junk__LOAD__\n load 0.10 \n__MEM__\nMem: 2000 1500 500\n__DISK__\n/dev/sda1 50G 40G 10G 81% /\n__END__\n");
    assert_eq!(extract_after_marker(&out, "__LOAD__", "__MEM__").map(|s| text(&s)), Some("load 0.10".to_string()));
    assert_eq!(extract_after_marker(&out, "__NOPE__", "__MEM__"), None);
    let mem = extract_after_marker(&out, "__MEM__", "__DISK__").unwrap();
    assert_eq!(find_mem_value(&mem).map(|s| text(&s)), Some("1500 used of 2000 MB".to_string()));
    let disk = extract_after_marker(&out, "__DISK__", "__END__").unwrap();
    assert_eq!(find_disk_value(&disk).map(|s| text(&s)), Some("81%".to_string()));
}

#[test]
fn levels_and_statuses() {
    assert_eq!(detect_level(&chars("Connection REFUSED")), "ERROR");
    assert_eq!(detect_level(&chars("upstream timeout")), "WARN");
    assert_eq!(detect_level(&chars("all good")), "INFO");
    assert_eq!(infer_status(&chars("81%")), "warning");
    assert_eq!(infer_status(&chars("42%")), "healthy");
}

#[test]
fn system_overview_metrics() {
    let out = "__LOAD__\n 10:00 up 3 days, load average: 0.10\n__MEM__\nMem: 2000 1500 500\n__DISK__\n/dev/sda1 50G 20G 30G 40% /\n__END__\n";
    let m = parse_health_summary("system_overview", "web-1", out);
    let got: Vec<(String, String, String)> = m.iter().map(|x| (x.label.clone(), x.status.clone(), x.value.clone())).collect();
    assert_eq!(
        got,
        vec![
            ("CPU".to_string(), "healthy".to_string(), "10:00 up 3 days, load average: 0.10".to_string()),
            ("Memory".to_string(), "healthy".to_string(), "1500 used of 2000 MB".to_string()),
            ("Disk".to_string(), "healthy".to_string(), "40%".to_string()),
            ("Ports".to_string(), "healthy".to_string(), "n/a".to_string()),
        ]
    );
    assert_eq!(m[0].detail, "Load sample collected from web-1.");
}

#[test]
fn process_and_log_metrics() {
    let out = "__PROCESSES__\nroot 1 nginx\nroot 2 java\n__PORTS__\nLISTEN 0 128 0.0.0.0:80\nState Recv\n__END__\n";
    let m = parse_health_summary("check_process_ports", "h", out);
    assert_eq!(m[3].value, "0.0.0.0:80");
    assert_eq!(m[3].status, "healthy");
    assert_eq!(m[3].detail, "2 matching process rows returned from the host.");
    let m = parse_health_summary("tail_app_log", "h", "ERROR boom\nwarn slow\nok\n");
    assert_eq!(m[3].value, "1 errors / 1 warnings");
    assert_eq!(m[3].status, "warning");
}

#[test]
fn log_lines_take_twelve_non_blank_lines() {
    let mut out = String::from("\n  \n");
    for i in 0..20 {
        out.push_str(&format!(" line {i} failed \n"));
    }
    let lines = parse_log_lines("tail_nginx_error", &out, "2024-01-01T00:00:00+00:00");
    assert_eq!(lines.len(), 12);
    assert_eq!(lines[0].message, "line 0 failed");
    assert_eq!(lines[0].level, "ERROR");
    assert_eq!(lines[0].source, "nginx/error.log");
    assert_eq!(lines[0].timestamp, "2024-01-01T00:00:00+00:00");
}

#[test]
fn recommendations_and_summary() {
    let warn = vec![metric("warning")];
    let actions = build_recommendations("tail_nginx_error", &warn);
    assert_eq!(actions.len(), 4);
    assert_eq!(
        actions[3],
        "Correlate Nginx upstream failures with application listener health and recent deploy activity."
    );
    assert_eq!(build_recommendations("system_overview", &vec![metric("healthy")]).len(), 2);
    let logs = vec![SshLogLine {
        timestamp: String::new(),
        source: String::new(),
        level: "INFO".to_string(),
        message: "first".to_string(),
    }];
    assert_eq!(
        build_ssh_summary("ops@web", "tail_app_log", &warn, &logs),
        "ops@web returned 1 warning metric(s) for tail_app_log. Most recent signal: first"
    );
    assert_eq!(
        build_ssh_summary("web", "system_overview", &vec![], &vec![]),
        "web returned 0 warning metric(s) for system_overview. Most recent signal: No log samples returned."
    );
}

#[test]
fn host_and_port() {
    let (h, p) = parse_host_and_port(&chars("web:22")).unwrap();
    assert_eq!((text(&h), p), ("web".to_string(), Some(22)));
    let (h, p) = parse_host_and_port(&chars("fe80::1")).unwrap();
    assert_eq!((text(&h), p), ("fe80::1".to_string(), None));
    assert_eq!(parse_host_and_port(&chars("a b")).err(), Some("SSH host cannot contain spaces.".to_string()));
}

#[test]
fn config_from_profile_and_args() {
    let c = SshConfig::from_profile(
        &profile("web:2222", Some("ops"), "{\"strictHostKeyChecking\":false,\"knownHostsPath\":\" /kh \"}"),
        None,
    )
    .ok()
    .unwrap();
    assert_eq!(c.host, "web");
    assert_eq!(c.port, Some(2222));
    assert_eq!(c.auth_mode, "agent");
    assert_eq!(c.render_target(), "ops@web");
    let args = ssh_args_with_key_state(&c, "tail -n 80 /x", Some("pass"), true).unwrap();
    assert_eq!(
        args,
        vec![
            "-o", "BatchMode=yes", "-o", "ConnectTimeout=5", "-o", "StrictHostKeyChecking=no", "-o",
            "UserKnownHostsFile=/dev/null", "-o", "UserKnownHostsFile=/kh", "-p", "2222", "-o",
            "PreferredAuthentications=publickey", "ops@web", "tail -n 80 /x"
        ]
    );
    assert_eq!(
        ssh_args_with_key_state(&c, "rm -rf /", None, true).err(),
        Some("Remote command is not in the approved whitelist.".to_string())
    );
    let keyed = SshConfig::from_profile(&profile("web", None, "{\"privateKeyPath\":\"/no/such/key\"}"), Some(" db-1 "))
        .ok()
        .unwrap();
    assert_eq!(keyed.host, "db-1");
    assert_eq!(keyed.auth_mode, "key");
    assert_eq!(
        ssh_command_args(&keyed, "tail -n 80 /x", None).err(),
        Some("Configured privateKeyPath does not exist: /no/such/key".to_string())
    );
    assert!(SshConfig::from_profile(&profile("", None, ""), None).err().unwrap().contains("missing a host"));
    assert!(SshConfig::from_profile(&profile("web", None, "{"), None).err().unwrap().starts_with("Invalid SSH profile JSON: "));
}

#[test]
fn ssh_messages() {
    assert_eq!(ssh_failure_message(" \n", "exit status: 255"), "SSH command failed with status exit status: 255.");
    assert_eq!(ssh_failure_message("Permission denied\n", "1"), "SSH command failed: Permission denied");
    assert_eq!(ssh_adapter_mode("bastion"), "ssh-cli-profile (bastion)");
}
