use cliup::config::{CliupError, Config, Package, PackageType, Schedule, DEFAULT_HOUR, DEFAULT_MINUTE};

fn pkg(t: PackageType, name: &str, command: Option<&str>) -> Package {
    Package {
        package_type: t,
        name: name.to_string(),
        command: command.map(|c| c.to_string()),
    }
}

#[test]
fn default_config_runs_at_half_past_ten_with_no_packages() {
    let c = Config::default_config();
    assert_eq!(c.schedule, Schedule { hour: 10, minute: 30 });
    assert_eq!(DEFAULT_HOUR, 10);
    assert_eq!(DEFAULT_MINUTE, 30);
    assert!(c.packages.is_empty());
    assert!(c.validate().is_ok());
}

#[test]
fn package_type_names_round_trip() {
    for t in [PackageType::Npm, PackageType::Brew, PackageType::Cask, PackageType::SelfUpdate] {
        assert_eq!(PackageType::parse(t.as_str()).unwrap(), t);
    }
    assert_eq!(PackageType::Npm.as_str(), "npm");
    assert_eq!(PackageType::Brew.as_str(), "brew");
    assert_eq!(PackageType::Cask.as_str(), "cask");
    assert_eq!(PackageType::SelfUpdate.as_str(), "self");
}

#[test]
fn unknown_package_type_is_refused() {
    let e = PackageType::parse("pip").unwrap_err();
    assert!(matches!(e, CliupError::UnknownPackageType));
    assert_eq!(e.message(), "type must be one of: npm, brew, cask, self");
    assert!(PackageType::parse("NPM").is_err());
    assert!(PackageType::parse("").is_err());
}

#[test]
fn package_with_blank_name_is_refused() {
    let e = pkg(PackageType::Npm, " \t\u{3000}", None).validate().unwrap_err();
    assert!(matches!(e, CliupError::EmptyPackageName));
    assert_eq!(e.message(), "package name cannot be empty");
    assert!(pkg(PackageType::Npm, "", None).validate().is_err());
}

#[test]
fn self_package_needs_a_command() {
    let e = pkg(PackageType::SelfUpdate, "rustup", None).validate().unwrap_err();
    assert!(matches!(e, CliupError::MissingSelfCommand { ref name } if name == "rustup"));
    assert_eq!(e.message(), "self package `rustup` requires a command");
    let blank = pkg(PackageType::SelfUpdate, "rustup", Some("  ")).validate().unwrap_err();
    assert!(matches!(blank, CliupError::MissingSelfCommand { .. }));
    assert!(pkg(PackageType::SelfUpdate, "rustup", Some("rustup update")).validate().is_ok());
}

#[test]
fn other_packages_must_not_carry_a_command() {
    let e = pkg(PackageType::Brew, "wget", Some("x")).validate().unwrap_err();
    assert!(matches!(e, CliupError::UnexpectedCommand { package_type: PackageType::Brew, .. }));
    assert_eq!(e.message(), "brew package `wget` must not include a command");
    assert!(pkg(PackageType::Cask, "visual-studio-code", None).validate().is_ok());
}

#[test]
fn package_new_validates() {
    let p = Package::new(PackageType::Npm, "@openai/codex".to_string(), None).unwrap();
    assert_eq!(p.name, "@openai/codex");
    assert_eq!(p.package_type, PackageType::Npm);
    assert!(p.command.is_none());
    assert!(Package::new(PackageType::Npm, " ".to_string(), None).is_err());
}

#[test]
fn config_validation_checks_hour_then_minute_then_packages() {
    let mut c = Config::default_config();
    c.schedule = Schedule { hour: 24, minute: 60 };
    let e = c.validate().unwrap_err();
    assert!(matches!(e, CliupError::HourOutOfRange));
    assert_eq!(e.message(), "schedule.hour must be between 0 and 23");
    c.schedule.hour = 23;
    let e = c.validate().unwrap_err();
    assert!(matches!(e, CliupError::MinuteOutOfRange));
    assert_eq!(e.message(), "schedule.minute must be between 0 and 59");
    c.schedule.minute = 59;
    c.packages.push(pkg(PackageType::Npm, "ok", None));
    c.packages.push(pkg(PackageType::Npm, "x", Some("cmd")));
    c.packages.push(pkg(PackageType::Npm, "", None));
    let e = c.validate().unwrap_err();
    assert!(matches!(e, CliupError::UnexpectedCommand { ref name, .. } if name == "x"));
    c.packages.remove(1);
    assert!(matches!(c.validate().unwrap_err(), CliupError::EmptyPackageName));
    c.packages.pop();
    assert!(c.validate().is_ok());
    c.schedule = Schedule { hour: 0, minute: 0 };
    assert!(c.validate().is_ok());
}

#[test]
fn add_package_refuses_same_type_and_name() {
    let mut c = Config::default_config();
    assert!(c.add_package(pkg(PackageType::Npm, "tool", None)));
    assert!(!c.add_package(pkg(PackageType::Npm, "tool", None)));
    assert!(c.add_package(pkg(PackageType::Brew, "tool", None)));
    assert_eq!(c.packages.len(), 2);
    assert_eq!(c.packages[1].package_type, PackageType::Brew);
    assert_eq!(c.schedule, Schedule { hour: 10, minute: 30 });
}

#[test]
fn remove_by_name_removes_every_type_and_keeps_order() {
    let mut c = Config::default_config();
    c.add_package(pkg(PackageType::Npm, "a", None));
    c.add_package(pkg(PackageType::Brew, "b", None));
    c.add_package(pkg(PackageType::Cask, "a", None));
    c.add_package(pkg(PackageType::SelfUpdate, "c", Some("c update")));
    assert_eq!(c.remove_by_name("a"), 2);
    let names: Vec<&str> = c.packages.iter().map(|p| p.name.as_str()).collect();
    assert_eq!(names, vec!["b", "c"]);
    assert_eq!(c.remove_by_name("zzz"), 0);
    assert_eq!(c.packages.len(), 2);
}

#[test]
fn error_messages_of_the_add_command() {
    assert_eq!(
        CliupError::SelfArgsRequired.message(),
        "self package requires command, for example: cliup add self rustup rustup update"
    );
    assert_eq!(
        CliupError::ArgsNotAccepted.message(),
        "npm/brew/cask packages do not accept command arguments"
    );
    assert_eq!(CliupError::HomeDirNotFound.message(), "failed to find home directory");
}
