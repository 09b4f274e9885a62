use cliup::commands::{
    add_request, doctor_line, join_with_spaces, list_line, package_status, package_summary,
    presence_line, removal_message, schedule_message, status_check, status_probe,
    tool_found_line, tool_missing_line, packages_heading, version_tools, LOCATION_TOOL,
    VERSION_FLAG,
};
use cliup::config::{CliupError, Package, PackageType};

fn pkg(t: PackageType, name: &str, command: Option<&str>) -> Package {
    Package {
        package_type: t,
        name: name.to_string(),
        command: command.map(|c| c.to_string()),
    }
}

fn words(ws: &[&str]) -> Vec<String> {
    ws.iter().map(|w| w.to_string()).collect()
}

#[test]
fn add_request_joins_the_self_command() {
    let (t, c) = add_request("self", &words(&["rustup", "update"])).unwrap();
    assert_eq!(t, PackageType::SelfUpdate);
    assert_eq!(c.as_deref(), Some("rustup update"));
    let (t, c) = add_request("npm", &Vec::new()).unwrap();
    assert_eq!(t, PackageType::Npm);
    assert!(c.is_none());
}

#[test]
fn add_request_errors() {
    assert!(matches!(add_request("gem", &Vec::new()), Err(CliupError::UnknownPackageType)));
    assert!(matches!(add_request("self", &Vec::new()), Err(CliupError::SelfArgsRequired)));
    assert!(matches!(add_request("brew", &words(&["x"])), Err(CliupError::ArgsNotAccepted)));
}

#[test]
fn join_with_spaces_matches_join() {
    for ws in [vec![], vec!["a"], vec!["a", "b", "c"], vec!["", ""]] {
        let v = words(&ws);
        assert_eq!(join_with_spaces(&v), v.join(" "));
    }
}

#[test]
fn list_and_add_lines() {
    assert_eq!(list_line(&pkg(PackageType::Npm, "@openai/codex", None)), "npm    @openai/codex");
    assert_eq!(list_line(&pkg(PackageType::Cask, "visual-studio-code", None)), "cask   visual-studio-code");
    assert_eq!(
        list_line(&pkg(PackageType::SelfUpdate, "rustup", Some("rustup update"))),
        "self   rustup -> rustup update"
    );
    assert_eq!(package_summary("added", &pkg(PackageType::Brew, "wget", None)), "added: brew wget");
    assert_eq!(
        package_summary("already exists", &pkg(PackageType::SelfUpdate, "c", Some("c up"))),
        "already exists: self c -> c up"
    );
}

#[test]
fn remove_and_schedule_messages() {
    assert_eq!(removal_message("x", 0), "not found: x");
    assert_eq!(removal_message("x", 12), "removed 12 item(s)");
    assert_eq!(schedule_message(9, 5), "schedule updated: 09:05");
    assert_eq!(schedule_message(23, 59), "schedule updated: 23:59");
}

#[test]
fn doctor_statuses() {
    let npm = pkg(PackageType::Npm, "a", None);
    let me = pkg(PackageType::SelfUpdate, "rustup", Some("rustup update"));
    assert_eq!(status_probe(&npm), "npm");
    assert_eq!(status_probe(&pkg(PackageType::Cask, "b", None)), "brew");
    assert_eq!(status_probe(&me), "rustup");
    assert_eq!(status_check(&npm).unwrap().display, "npm ls -g --depth=0 a");
    assert!(status_check(&me).is_none());
    assert_eq!(package_status(&npm, false, Some(true)), "unknown");
    assert_eq!(package_status(&npm, true, Some(true)), "installed");
    assert_eq!(package_status(&npm, true, Some(false)), "missing");
    assert_eq!(package_status(&npm, true, None), "unknown");
    assert_eq!(package_status(&me, true, None), "installed");
    assert_eq!(package_status(&me, false, None), "missing");
}

#[test]
fn doctor_sections() {
    assert_eq!(packages_heading(0), "packages: empty");
    assert_eq!(packages_heading(3), "packages:");
    assert_eq!(version_tools(), vec!["node", "npm", "brew"]);
    assert_eq!(VERSION_FLAG, "--version");
    assert_eq!(LOCATION_TOOL, "launchctl");
}

#[test]
fn doctor_lines() {
    assert_eq!(
        doctor_line(&pkg(PackageType::Npm, "tool", None), "installed"),
        format!("  {:<5} {:<36} {}", "npm", "tool", "installed")
    );
    assert_eq!(presence_line("config", "/h/.cliup/config.json", true), "config: /h/.cliup/config.json (exists)");
    assert_eq!(presence_line("log dir", "/h/.cliup/logs", false), "log dir: /h/.cliup/logs (missing)");
    assert_eq!(tool_found_line("node", "/usr/bin/node", "v20.0.0\nx"), "node: /usr/bin/node (v20.0.0)");
    assert_eq!(tool_missing_line("brew"), "brew: missing");
}
