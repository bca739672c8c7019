//! Tests of the text utilities, HTML fragments, graph generation and the
//! deployment decisions.

use control_panel_core::config::{
    AuthConfig, Config, DockerNode, DotfilesConfig, GrafanaDashboard, ProfileConfig,
    ProxmoxConfig, ServerConfig, SshConfig,
};
use control_panel_core::deploy::{
    dry_run_command, dry_run_status, pull_command, pull_status, switch_command, switch_status,
    DeployLxcStep, DeployState,
};
use control_panel_core::error::AppError;
use control_panel_core::graph::{generate_graph_data, get_profile_list, get_profile_nodes};
use control_panel_core::html::{console_line, console_line_at, html_escape};
use control_panel_core::infra::{NodeStatus, ProfileType};
use control_panel_core::monitoring::{
    get_available_dashboards, get_dashboard_url, render_dashboard_selector,
    render_monitoring_page,
};
use control_panel_core::output::CommandOutput;
use control_panel_core::panel::Panel;
use control_panel_core::strutil::{
    i64_to_string, lines_vec, parse_i64, parse_u32, split_char, trim_str, u32_to_string,
    u64_to_string,
};

fn graph_config() -> Config {
    Config {
        server: ServerConfig { host: "0.0.0.0".to_string(), port: 3100 },
        auth: AuthConfig { username: "a".to_string(), password: "p".to_string() },
        ssh: SshConfig { private_key_path: String::new(), default_user: "ops".to_string() },
        proxmox: ProxmoxConfig { host: "h".to_string(), user: "root".to_string() },
        dotfiles: DotfilesConfig { path: "/d".to_string() },
        docker_nodes: vec![DockerNode {
            name: "n".to_string(),
            host: "1.2.3.4".to_string(),
            ctid: 1,
            user: None,
        }],
        profiles: vec![
            ProfileConfig {
                name: "DESK".to_string(),
                profile_type: "desktop".to_string(),
                hostname: "desk-host".to_string(),
                ip: Some("10.0.0.2".to_string()),
                ctid: None,
                base_profile: None,
            },
            ProfileConfig {
                name: "BOX".to_string(),
                profile_type: "lxc".to_string(),
                hostname: "box-host".to_string(),
                ip: None,
                ctid: Some(105),
                base_profile: Some("LXC-base-config".to_string()),
            },
        ],
        grafana: None,
    }
}

#[test]
fn number_parsing_matches_std() {
    for s in ["0", "42", "+7", "4294967295"] {
        let v: Vec<char> = s.chars().collect();
        assert_eq!(parse_u32(&v), s.parse::<u32>().ok());
    }
    for s in ["4294967296", "", "+", "1x", "-1", " 3"] {
        let v: Vec<char> = s.chars().collect();
        assert_eq!(parse_u32(&v), s.parse::<u32>().ok(), "case {:?}", s);
    }
    for s in [
        "0",
        "-1",
        "+12",
        "9223372036854775807",
        "-9223372036854775808",
        "9223372036854775808",
        "-9223372036854775809",
        "abc",
        "",
    ] {
        let v: Vec<char> = s.chars().collect();
        assert_eq!(parse_i64(&v), s.parse::<i64>().ok(), "case {:?}", s);
    }
}

#[test]
fn number_formatting_matches_std() {
    assert_eq!(u64_to_string(0), "0");
    assert_eq!(u64_to_string(90210), "90210");
    assert_eq!(u32_to_string(4294967295), "4294967295");
    assert_eq!(i64_to_string(-1), "-1");
    assert_eq!(i64_to_string(i64::MIN), i64::MIN.to_string());
    assert_eq!(i64_to_string(i64::MAX), i64::MAX.to_string());
}

#[test]
fn splitting_and_lines_match_std() {
    let got = split_char(&"a|b||c".chars().collect::<Vec<_>>(), '|');
    assert_eq!(got, vec!["a", "b", "", "c"]);
    assert_eq!(lines_vec("a\nb\r\nc\n"), vec!["a", "b", "c"]);
    assert_eq!(lines_vec(""), Vec::<String>::new());
    assert_eq!(lines_vec("x\n\ny"), vec!["x", "", "y"]);
    assert_eq!(trim_str("  padded\t"), "padded");
}

#[test]
fn html_escaping_covers_the_five_specials() {
    assert_eq!(html_escape("a&b<c>d\"e'f"), "a&amp;b&lt;c&gt;d&quot;e&#39;f");
    assert_eq!(html_escape("plain"), "plain");
}

#[test]
fn console_lines_carry_status_and_output() {
    let line = console_line_at("12:00:00", "OK", "text-green-400", "Start <x>", "done");
    assert_eq!(
        line,
        "<div class=\"border-b border-gray-700 py-2\">\n            \
         <span class=\"text-gray-500\">[12:00:00]</span>\n            \
         <span class=\"text-green-400\">OK</span> Start &lt;x&gt;\n            \
         <pre class=\"text-gray-400 ml-4 text-xs whitespace-pre-wrap\">done</pre>\n        </div>"
    );
    let empty_output = console_line_at("12:00:00", "OK", "c", "m", "");
    assert!(!empty_output.contains("<pre"));
    // the stamped variant only differs in the timestamp
    let stamped = console_line("OK", "c", "m", "");
    assert!(stamped.starts_with("<div class=\"border-b border-gray-700 py-2\">"));
}

#[test]
fn dashboard_urls_and_selector() {
    let d = GrafanaDashboard {
        name: "Nodes".to_string(),
        uid: "abc".to_string(),
        slug: "nodes".to_string(),
    };
    assert_eq!(
        get_dashboard_url("https://g.example", &d),
        "https://g.example/d/abc/nodes?orgId=1&kiosk"
    );
    let selector = render_dashboard_selector(std::slice::from_ref(&d), "abc");
    assert!(selector.contains("<option value=\"abc\" selected>Nodes</option>"));
    let unselected = render_dashboard_selector(std::slice::from_ref(&d), "other");
    assert!(unselected.contains("<option value=\"abc\">Nodes</option>"));
    let infos = get_available_dashboards(std::slice::from_ref(&d));
    assert_eq!(infos.len(), 1);
    assert_eq!(infos[0].uid, "abc");
}

#[test]
fn graph_holds_scaffolding_and_profiles() {
    let config = graph_config();
    let data = generate_graph_data(&config);
    assert_eq!(data.nodes.len(), 9 + 2);
    assert_eq!(data.links.len(), 8 + 2);
    assert_eq!(data.nodes[0].id, "_root");
    assert_eq!(data.nodes[0].label, "Infrastructure");
    assert_eq!(data.links[0].source, "_root");
    assert_eq!(data.links[0].target, "_cat_desktop");
    assert_eq!(data.links[0].value, 2);
    let desk = &data.nodes[9];
    assert_eq!(desk.id, "DESK");
    assert_eq!(desk.color, "#4f46e5");
    assert_eq!(desk.ip.as_deref(), Some("10.0.0.2"));
    // a profile without a base links to its category; one with links to it
    assert_eq!(data.links[8].source, "_cat_desktop");
    assert_eq!(data.links[8].target, "DESK");
    assert_eq!(data.links[9].source, "LXC-base-config");
    assert_eq!(data.links[9].target, "BOX");
}

#[test]
fn profile_lists_mirror_the_configuration() {
    let config = graph_config();
    let list = get_profile_list(&config);
    assert_eq!(list.len(), 2);
    assert_eq!(list[0].name, "DESK");
    assert_eq!(list[0].profile_type, ProfileType::Desktop);
    let nodes = get_profile_nodes(&config);
    assert_eq!(nodes[1].id, "BOX");
    assert_eq!(nodes[1].profile_type, ProfileType::Lxc);
    assert_eq!(nodes[1].status, NodeStatus::Unknown);
    assert_eq!(nodes[1].base_profile.as_deref(), Some("LXC-base-config"));
}

#[test]
fn profile_types_parse_and_render() {
    assert_eq!(ProfileType::from_str("Desktop"), ProfileType::Desktop);
    assert_eq!(ProfileType::from_str("VM"), ProfileType::Vm);
    assert_eq!(ProfileType::from_str("anything"), ProfileType::Lxc);
    assert_eq!(ProfileType::Darwin.display(), "macOS");
    assert_eq!(ProfileType::Lxc.css_color(), "#22c55e");
    assert_eq!(NodeStatus::Online.css_class(), "bg-green-500");
    assert_eq!(NodeStatus::Deploying.display(), "Deploying");
}

#[test]
fn panels_have_labels() {
    assert_eq!(Panel::Docker.label(), "Docker");
    let all = Panel::all();
    assert_eq!(all.len(), 6);
    assert_eq!(all[0], Panel::Sway);
    assert_eq!(all[5], Panel::Infrastructure);
}

#[test]
fn deploy_states_and_judgments() {
    assert!(DeployState::Success.is_success());
    assert!(!DeployState::Success.is_failed());
    assert!(DeployState::Failed.is_failed());
    assert_eq!(
        dry_run_command("/d", "DESK"),
        "cd /d && nix build .#nixosConfigurations.DESK.config.system.build.toplevel --dry-run 2>&1"
    );
    assert_eq!(pull_command("/d"), "cd /d && git pull");
    assert_eq!(
        switch_command("/d"),
        "cd /d && sudo nixos-rebuild switch --flake .#system 2>&1"
    );
    let ok = CommandOutput { stdout: "fine".to_string(), stderr: String::new(), exit_code: 0 };
    let bad = CommandOutput { stdout: String::new(), stderr: "boom".to_string(), exit_code: 1 };
    let s = dry_run_status("DESK", &ok, 10, 20);
    assert_eq!(s.status, DeployState::Success);
    assert_eq!(s.message, "Dry-run successful. Build is valid.");
    assert_eq!(s.started_at, Some(10));
    let f = dry_run_status("DESK", &bad, 10, 20);
    assert_eq!(f.status, DeployState::Failed);
    assert_eq!(f.message, "Dry-run failed: boom");
    assert!(pull_status("DESK", &ok, 1, 2).is_none());
    let pf = pull_status("DESK", &bad, 1, 2).unwrap();
    assert_eq!(pf.message, "Git pull failed: boom");
    assert_eq!(switch_status("DESK", &ok, 1, 2).message, "Deployment successful");
    assert_eq!(switch_status("DESK", &bad, 1, 2).message, "Deployment failed: boom");
}

#[test]
fn lxc_deploy_steps_in_order() {
    assert_eq!(DeployLxcStep::SshCheck.next(), Some(DeployLxcStep::GitFetch));
    assert_eq!(DeployLxcStep::GitFetch.next(), Some(DeployLxcStep::GitReset));
    assert_eq!(DeployLxcStep::GitReset.next(), Some(DeployLxcStep::Install));
    assert_eq!(DeployLxcStep::Install.next(), None);
    assert_eq!(DeployLxcStep::SshCheck.command("/d", "BOX"), "echo ok");
    assert_eq!(
        DeployLxcStep::GitFetch.command("/d", "BOX"),
        "cd /d && git fetch origin 2>&1"
    );
    assert_eq!(
        DeployLxcStep::GitReset.command("/d", "BOX"),
        "cd /d && git reset --hard origin/main 2>&1"
    );
    assert_eq!(
        DeployLxcStep::Install.command("/d", "BOX"),
        "cd /d && ./install.sh /d BOX -s -u -q 2>&1"
    );
}

#[test]
fn lxc_deploy_judgments() {
    let ok = CommandOutput { stdout: "out".to_string(), stderr: String::new(), exit_code: 0 };
    let bad = CommandOutput { stdout: String::new(), stderr: "err".to_string(), exit_code: 1 };
    let (res, go_on) = DeployLxcStep::SshCheck.judge(&Ok(ok.clone()));
    assert_eq!(res.step, "ssh_check");
    assert!(res.success);
    assert!(go_on);
    assert_eq!(res.output, "SSH connection OK");
    let (res2, go2) = DeployLxcStep::GitFetch.judge(&Ok(ok.clone()));
    assert_eq!(res2.output, "out");
    assert!(go2);
    let (res3, go3) = DeployLxcStep::GitReset.judge(&Ok(bad));
    assert!(!res3.success);
    assert!(!go3);
    assert_eq!(res3.output, "Git reset failed: err");
    let err = AppError::SshConnection("down".to_string());
    let (res4, go4) = DeployLxcStep::Install.judge(&Err(err));
    assert!(!go4);
    assert_eq!(res4.output, "install.sh error: SSH connection failed: down");
}

#[test]
fn monitoring_page_embeds_the_chosen_dashboard() {
    let d1 = GrafanaDashboard {
        name: "Nodes".to_string(),
        uid: "abc".to_string(),
        slug: "nodes".to_string(),
    };
    let d2 = GrafanaDashboard {
        name: "Disks".to_string(),
        uid: "xyz".to_string(),
        slug: "disks".to_string(),
    };
    let ds = vec![d1, d2];
    let page = render_monitoring_page(&ds, "https://g.example", Some("xyz"));
    assert!(page.starts_with("<!DOCTYPE html>"));
    assert!(page.contains("<h2 class=\"text-xl font-semibold\">Disks</h2>"));
    assert!(page.contains("src=\"https://g.example/d/xyz/disks?orgId=1&kiosk\""));
    assert!(page.contains("<option value=\"xyz\" selected>Disks</option>"));
    // without a query the first dashboard is shown
    let first = render_monitoring_page(&ds, "https://g.example", None);
    assert!(first.contains(">Nodes</h2>"));
    // an unknown uid falls back to an empty frame
    let unknown = render_monitoring_page(&ds, "https://g.example", Some("nope"));
    assert!(unknown.contains(">Dashboard</h2>"));
    assert!(unknown.contains("src=\"\""));
}
