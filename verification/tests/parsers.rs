//! Tests of the text parsers: docker listings, Proxmox output, Nix
//! profile settings and HTTP Basic Authentication.

use control_panel_core::docker::{group_by_stack, parse_container_line, ContainerStatus};
use control_panel_core::editor::{
    extract_comment, extract_packages, extract_settings, extract_value, infer_type,
    parse_assignment, parse_profile_text, parse_value, ConfigValue, EntryType,
};
use control_panel_core::infra::{nonempty_lines, parse_ahead_behind};
use control_panel_core::proxmox::{
    parse_backup_jobs, parse_container_status, parse_pct_list_line, parse_qm_list_line,
};
use control_panel_core::docker::parse_container_listing;
use control_panel_core::output::CommandOutput;
use control_panel_core::webauth::validate_basic_auth;

#[test]
fn test_validate_basic_auth() {
    // "admin:password" in base64
    let auth = "Basic YWRtaW46cGFzc3dvcmQ=";
    assert!(validate_basic_auth(auth, "admin", "password"));
    assert!(!validate_basic_auth(auth, "admin", "wrong"));
    assert!(!validate_basic_auth(auth, "wrong", "password"));
}

#[test]
fn test_invalid_auth_format() {
    assert!(!validate_basic_auth("Bearer token", "admin", "password"));
    assert!(!validate_basic_auth("Basic !!invalid!!", "admin", "password"));
}

#[test]
fn basic_auth_needs_a_colon() {
    // "adminpassword" in base64: no colon, so no credentials
    assert!(!validate_basic_auth("Basic YWRtaW5wYXNzd29yZA==", "admin", "password"));
}

#[test]
fn container_status_parsing_is_case_insensitive() {
    assert_eq!(ContainerStatus::from_str("Up 2 hours"), ContainerStatus::Running);
    assert_eq!(ContainerStatus::from_str("running"), ContainerStatus::Running);
    assert_eq!(ContainerStatus::from_str("Exited (0) 3 days ago"), ContainerStatus::Exited);
    assert_eq!(ContainerStatus::from_str("Paused"), ContainerStatus::Paused);
    assert_eq!(ContainerStatus::from_str("Restarting (1)"), ContainerStatus::Restarting);
    assert_eq!(ContainerStatus::from_str("Dead"), ContainerStatus::Dead);
    assert_eq!(ContainerStatus::from_str("whatever"), ContainerStatus::Unknown);
}

#[test]
fn container_status_badges() {
    assert_eq!(ContainerStatus::Running.css_class(), "bg-green-600");
    assert_eq!(ContainerStatus::Running.display(), "Running");
    assert_eq!(ContainerStatus::Unknown.css_class(), "bg-gray-500");
}

#[test]
fn container_line_with_project() {
    let line = "abc123|web|nginx:latest|Up 2 hours|80/tcp|2024-01-01|mystack";
    let c = parse_container_line(line).unwrap();
    assert_eq!(c.id, "abc123");
    assert_eq!(c.name, "web");
    assert_eq!(c.image, "nginx:latest");
    assert_eq!(c.status, ContainerStatus::Running);
    assert_eq!(c.ports, "80/tcp");
    assert_eq!(c.created, "2024-01-01");
    assert_eq!(c.project.as_deref(), Some("mystack"));
}

#[test]
fn container_line_without_project() {
    let line = "abc|web|img|Exited|p|c|";
    let c = parse_container_line(line).unwrap();
    assert_eq!(c.project, None);
    let short = parse_container_line("a|b|c");
    assert!(short.is_err());
}

#[test]
fn stacks_are_grouped_and_sorted_standalone_last() {
    let lines = [
        "1|solo|img|Up|p|c|",
        "2|web|img|Up|p|c|zulu",
        "3|db|img|Exited|p|c|alpha",
        "4|cache|img|Up|p|c|alpha",
    ];
    let containers: Vec<_> =
        lines.iter().map(|l| parse_container_line(l).unwrap()).collect();
    let stacks = group_by_stack(containers);
    let names: Vec<&str> = stacks.iter().map(|s| s.name.as_str()).collect();
    assert_eq!(names, vec!["alpha", "zulu", "standalone"]);
    assert_eq!(stacks[0].total_count, 2);
    assert_eq!(stacks[0].running_count, 1);
    assert_eq!(stacks[0].containers[0].name, "db");
    assert_eq!(stacks[0].containers[1].name, "cache");
    assert_eq!(stacks[2].containers[0].name, "solo");
}

#[test]
fn pct_list_lines() {
    let ci = parse_pct_list_line("100 running web-server").unwrap();
    assert_eq!(ci.ctid, 100);
    assert_eq!(ci.status, "running");
    assert_eq!(ci.name, "web-server");
    // with a lock column the name moves to the fourth field
    let locked = parse_pct_list_line("101 stopped backup vm-name").unwrap();
    assert_eq!(locked.name, "vm-name");
    assert!(parse_pct_list_line("garbage only").is_none());
    assert!(parse_pct_list_line("notanumber running x").is_none());
}

#[test]
fn qm_list_lines() {
    let vm = parse_qm_list_line("  200 vm-one running 2048 32 1234").unwrap();
    assert_eq!(vm.ctid, 200);
    assert_eq!(vm.name, "vm-one");
    assert_eq!(vm.status, "running");
    assert!(parse_qm_list_line("").is_none());
}

#[test]
fn container_status_extraction() {
    assert_eq!(parse_container_status("status: running\nother: x"), "running");
    assert_eq!(parse_container_status("noise\nstatus:  stopped  "), "stopped");
    assert_eq!(parse_container_status("nothing here"), "unknown");
}

#[test]
fn assignments_parse_and_reject_complex_values() {
    let (k, v) = parse_assignment("  enable = true;  ").unwrap();
    assert_eq!(k, "enable");
    assert_eq!(v, "true");
    let (k2, v2) = parse_assignment("name = \"host\";").unwrap();
    assert_eq!(k2, "name");
    assert_eq!(v2, "\"host\"");
    assert!(parse_assignment("no equals here").is_none());
    assert!(parse_assignment("x = import ./other.nix;").is_none());
    assert!(parse_assignment("x = pkgs.hello;").is_none());
    assert!(parse_assignment("x = \"${var}\";").is_none());
}

#[test]
fn types_are_inferred() {
    assert_eq!(infer_type("true"), EntryType::Boolean);
    assert_eq!(infer_type("false"), EntryType::Boolean);
    assert_eq!(infer_type("\"text\""), EntryType::String);
    assert_eq!(infer_type("-42"), EntryType::Number);
    assert_eq!(infer_type("[ a b ]"), EntryType::List);
    assert_eq!(infer_type("mystery"), EntryType::Unknown);
}

#[test]
fn values_parse_per_type() {
    assert_eq!(parse_value("true", &EntryType::Boolean).as_bool(), Some(true));
    assert_eq!(parse_value("false", &EntryType::Boolean).as_bool(), Some(false));
    assert_eq!(parse_value("\"x\"", &EntryType::String).as_string(), Some("x"));
    match parse_value("17", &EntryType::Number) {
        ConfigValue::Number(n) => assert_eq!(n, 17),
        _ => panic!("expected a number"),
    }
    match parse_value("notanum", &EntryType::Number) {
        ConfigValue::Number(n) => assert_eq!(n, 0),
        _ => panic!("expected the zero fallback"),
    }
    match parse_value("[ \"a\" b ]", &EntryType::List) {
        ConfigValue::List(items) => assert_eq!(items, vec!["a".to_string(), "b".to_string()]),
        _ => panic!("expected a list"),
    }
    assert_eq!(parse_value("raw", &EntryType::Unknown).as_string(), Some("raw"));
}

#[test]
fn value_display_forms() {
    assert_eq!(ConfigValue::Bool(true).display(), "true");
    assert_eq!(ConfigValue::String("s".to_string()).display(), "s");
    assert_eq!(ConfigValue::Number(-5).display(), "-5");
    assert_eq!(
        ConfigValue::List(vec!["a".to_string(), "b".to_string()]).display(),
        "[a, b]"
    );
    assert_eq!(ConfigValue::Null.display(), "null");
}

#[test]
fn comments_come_from_the_line_or_above() {
    let text = "# above\nkey = true; # inline\nplain = 1;\nlast = 2;";
    assert_eq!(extract_comment(text, 1).as_deref(), Some("inline"));
    assert_eq!(extract_comment(text, 0).as_deref(), Some("above"));
    assert_eq!(extract_comment(text, 3), None);
    assert_eq!(extract_comment(text, 99), None);
}

#[test]
fn settings_sections_are_scanned_to_the_closing_brace() {
    let content = "before\nsystemSettings = {\n  # controls the thing\n  enable = true;\n  count = 3;\n  complex = pkgs.hello;\n};\nafter = false;\n";
    let entries = extract_settings(content, "systemSettings");
    // the marker line itself parses as an assignment to `{`, as plain
    // pattern matching sees it
    assert_eq!(entries.len(), 3);
    assert_eq!(entries[0].key, "systemSettings");
    assert_eq!(entries[0].entry_type, EntryType::Unknown);
    assert_eq!(entries[1].key, "enable");
    assert_eq!(entries[1].entry_type, EntryType::Boolean);
    assert_eq!(entries[1].value.as_bool(), Some(true));
    assert_eq!(entries[1].description.as_deref(), Some("controls the thing"));
    assert_eq!(entries[2].key, "count");
    assert_eq!(entries[2].entry_type, EntryType::Number);
    // the assignment after the closing brace is not part of the section
    assert!(extract_settings(content, "userSettings").is_empty());
}

#[test]
fn package_lists_come_from_either_pattern() {
    let content = "systemPackages = pkgs: pkgs-unstable: [\n  vim\n  git,\n  # a comment\n];\n";
    assert_eq!(extract_packages(content, "systemPackages"), vec!["vim", "git"]);
    let simple = "homePackages = [\n  htop;\n]";
    assert_eq!(extract_packages(simple, "homePackages"), vec!["htop"]);
    assert_eq!(extract_packages(simple, "missing"), Vec::<String>::new());
}

#[test]
fn quoted_values_are_extracted() {
    let content = "name = \"host-a\";\nprofile = \"lxc\";\n";
    assert_eq!(extract_value(content, "profile").as_deref(), Some("lxc"));
    assert_eq!(extract_value(content, "name").as_deref(), Some("host-a"));
    assert_eq!(extract_value(content, "absent"), None);
}

#[test]
fn backup_jobs_are_read_from_the_jobs_file() {
    let text = "vzdump: daily\n\tschedule 02:00\n\tstorage local\n\tvmid 100,101\n\tenabled 0\nvzdump: weekly\n\tall 1\n\tmode stop\n\tcomment full sweep\n";
    let jobs = parse_backup_jobs(text);
    assert_eq!(jobs.len(), 2);
    assert_eq!(jobs[0].id, "daily");
    assert_eq!(jobs[0].schedule, "02:00");
    assert_eq!(jobs[0].storage, "local");
    assert_eq!(jobs[0].vmids, "100,101");
    assert!(!jobs[0].enabled);
    assert_eq!(jobs[0].mode, "snapshot");
    assert_eq!(jobs[1].id, "weekly");
    assert_eq!(jobs[1].vmids, "all");
    assert_eq!(jobs[1].mode, "stop");
    assert!(jobs[1].enabled);
    assert_eq!(jobs[1].comment.as_deref(), Some("full sweep"));
    assert!(parse_backup_jobs("").is_empty());
}

#[test]
fn git_counters_and_file_lists() {
    assert_eq!(parse_ahead_behind("2 5\n"), (2, 5));
    assert_eq!(parse_ahead_behind("garbage"), (0, 0));
    assert_eq!(parse_ahead_behind("x y"), (0, 0));
    assert_eq!(nonempty_lines("a.txt\n\nb.txt\n"), vec!["a.txt", "b.txt"]);
    assert_eq!(nonempty_lines(""), Vec::<String>::new());
}

#[test]
fn profile_text_assembles_all_sections() {
    let content = "systemSettings = {\n  enable = true;\n};\nsystemPackages = [\n  vim\n];\n";
    let profile = parse_profile_text("BOX", "/d/profiles/BOX-config.nix", content);
    assert_eq!(profile.name, "BOX");
    assert_eq!(profile.path, "/d/profiles/BOX-config.nix");
    assert_eq!(profile.system_settings.len(), 2);
    assert_eq!(profile.system_packages, vec!["vim"]);
    assert!(profile.user_settings.is_empty());
    assert!(profile.home_packages.is_empty());
}

#[test]
fn app_toggle_commands() {
    assert_eq!(
        control_panel_core::panel::launch_command("browser", "firefox"),
        "exec ~/.config/sway/scripts/app-toggle.sh browser firefox"
    );
}

#[test]
fn container_listings_parse_whole_outputs() {
    let good = CommandOutput {
        stdout: "1|web|img|Up|p|c|stack\n\n2|db|img|Exited|p|c|\n".to_string(),
        stderr: String::new(),
        exit_code: 0,
    };
    let cs = parse_container_listing(&good).unwrap();
    assert_eq!(cs.len(), 2);
    assert_eq!(cs[0].name, "web");
    assert_eq!(cs[1].name, "db");
    let failed = CommandOutput {
        stdout: String::new(),
        stderr: "daemon down".to_string(),
        exit_code: 1,
    };
    let err = parse_container_listing(&failed).unwrap_err();
    assert_eq!(err.message(), "Docker error: Failed to list containers: daemon down");
    let malformed = CommandOutput {
        stdout: "only|three|fields\n".to_string(),
        stderr: String::new(),
        exit_code: 0,
    };
    let err2 = parse_container_listing(&malformed).unwrap_err();
    assert_eq!(
        err2.message(),
        "Docker error: Invalid container line format: only|three|fields"
    );
}
