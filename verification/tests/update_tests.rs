use cliup::config::{Package, PackageType};
use cliup::update::{Effect, Outcome, Request, UpdateRun};

fn pkg(t: PackageType, name: &str, command: Option<&str>) -> Package {
    Package {
        package_type: t,
        name: name.to_string(),
        command: command.map(|c| c.to_string()),
    }
}

fn render(effects: &[Effect]) -> Vec<String> {
    effects
        .iter()
        .map(|e| match e {
            Effect::Info(s) => format!("I:{s}"),
            Effect::Print(s) => format!("P:{s}"),
        })
        .collect()
}

fn request(r: &Request) -> String {
    match r {
        Request::Probe(c) => format!("probe {c}"),
        Request::Execute(i) => format!("run {} [{}] ({})", i.display, i.args.join("|"), i.context),
        Request::Continue => "continue".to_string(),
        Request::Finished => "finished".to_string(),
    }
}

fn packages() -> Vec<Package> {
    vec![
        pkg(PackageType::Npm, "tool", None),
        pkg(PackageType::Brew, "wget", None),
        pkg(PackageType::Cask, "code", None),
        pkg(PackageType::SelfUpdate, "rustup", Some("rustup update")),
    ]
}

#[test]
fn dry_run_logs_commands_and_executes_nothing() {
    let mut run = UpdateRun::new(packages(), true);
    let mut log: Vec<String> = Vec::new();
    let mut steps = 0;
    loop {
        let step = run.step(Outcome::Yes);
        steps += 1;
        assert!(!matches!(step.request, Request::Execute(_)));
        log.extend(render(&step.effects));
        log.push(request(&step.request));
        if matches!(step.request, Request::Finished) {
            break;
        }
        assert!(steps < 100);
    }
    let expected = vec![
        "I:dry-run mode enabled; no update commands will be executed",
        "continue",
        "P:checking npm tool",
        "probe npm",
        "I:dry-run: npm ls -g --depth=0 tool",
        "I:dry-run: npm i -g tool@latest",
        "P:dry-run: would check and update npm package tool if installed",
        "continue",
        "continue",
        "P:checking brew wget",
        "probe brew",
        "I:dry-run: brew update",
        "P:dry-run: brew update",
        "I:dry-run: brew list --formula wget",
        "I:dry-run: brew upgrade wget",
        "P:dry-run: would check and update brew formula wget if installed",
        "continue",
        "continue",
        "P:checking cask code",
        "probe brew",
        "I:dry-run: brew list --cask code",
        "I:dry-run: brew upgrade --cask code",
        "P:dry-run: would check and update brew cask code if installed",
        "continue",
        "continue",
        "P:checking self rustup",
        "I:dry-run: sh -lc 'rustup update'",
        "P:dry-run: sh -lc 'rustup update'",
        "continue",
        "continue",
        "I:run finished",
        "P:done",
        "finished",
    ];
    assert_eq!(log, expected);
    let again = run.step(Outcome::Yes);
    assert!(again.effects.is_empty());
    assert!(matches!(again.request, Request::Finished));
}

#[test]
fn real_run_checks_before_updating() {
    let mut run = UpdateRun::new(packages(), false);
    let answers = vec![
        Outcome::Yes, // begin
        Outcome::Yes, // enter npm
        Outcome::Yes, // npm found
        Outcome::Yes, // npm ls: installed
        Outcome::No,  // npm i failed
        Outcome::Yes, // finishing
        Outcome::Yes, // enter brew
        Outcome::Yes, // brew found
        Outcome::No,  // brew update failed
        Outcome::No,  // brew list: not installed
        Outcome::Yes, // finishing
        Outcome::Yes, // enter cask
        Outcome::No,  // brew not found
        Outcome::Yes, // finishing
        Outcome::Yes, // enter self
        Outcome::Yes, // self command succeeded
        Outcome::Yes, // finishing
        Outcome::Yes, // end
    ];
    let mut log: Vec<String> = Vec::new();
    let mut scopes: Vec<bool> = Vec::new();
    for a in answers {
        let step = run.step(a);
        log.extend(render(&step.effects));
        log.push(request(&step.request));
        scopes.push(step.in_package);
    }
    let expected = vec![
        "continue",
        "P:checking npm tool",
        "probe npm",
        "run npm ls -g --depth=0 tool [ls|-g|--depth=0|tool] (failed to run npm ls -g --depth=0 tool)",
        "run npm i -g tool@latest [i|-g|tool@latest] (failed to run npm i -g tool@latest)",
        "I:command failed but run will continue: npm i -g tool@latest",
        "continue",
        "continue",
        "P:checking brew wget",
        "probe brew",
        "run brew update [update] (failed to run brew update)",
        "I:command failed but run will continue: brew update",
        "run brew list --formula wget [list|--formula|wget] (failed to run brew list --formula wget)",
        "I:skip: brew formula wget is not installed",
        "P:skip: brew formula wget is not installed",
        "continue",
        "continue",
        "P:checking cask code",
        "probe brew",
        "I:skip: brew not found; skipping code",
        "P:skip: brew not found; skipping code",
        "continue",
        "continue",
        "P:checking self rustup",
        "run sh -lc 'rustup update' [-lc|rustup update] (failed to run self command for rustup)",
        "continue",
        "continue",
        "I:run finished",
        "P:done",
        "finished",
    ];
    assert_eq!(log, expected);
    assert!(!scopes[0]);
    assert!(scopes[1]);
    assert!(!scopes[scopes.len() - 1]);
}

#[test]
fn brew_update_runs_once_per_run() {
    let mut run = UpdateRun::new(
        vec![pkg(PackageType::Brew, "a", None), pkg(PackageType::Cask, "b", None)],
        false,
    );
    let mut updates = 0;
    let mut upgrades = 0;
    for _ in 0..30 {
        let step = run.step(Outcome::Yes);
        if let Request::Execute(inv) = &step.request {
            if inv.args == vec!["update".to_string()] {
                updates += 1;
            }
            if inv.args[0] == "upgrade" {
                upgrades += 1;
            }
        }
        if matches!(step.request, Request::Finished) {
            break;
        }
    }
    assert_eq!(updates, 1);
    assert_eq!(upgrades, 2);
}

#[test]
fn failure_is_reported_and_the_run_goes_on() {
    let mut run = UpdateRun::new(
        vec![pkg(PackageType::Npm, "a", None), pkg(PackageType::Npm, "b", None)],
        false,
    );
    run.step(Outcome::Yes); // begin
    run.step(Outcome::Yes); // enter a
    let step = run.step(Outcome::Yes); // npm found: list requested
    assert!(matches!(step.request, Request::Execute(_)));
    let step = run.step(Outcome::Failed {
        detail: "failed to run npm ls -g --depth=0 a: No such file or directory (os error 2)".to_string(),
        summary: "failed to run npm ls -g --depth=0 a".to_string(),
    });
    assert!(!step.in_package);
    assert_eq!(
        render(&step.effects),
        vec![
            "I:error while updating npm a: failed to run npm ls -g --depth=0 a: No such file or directory (os error 2)",
            "P:error: npm a (failed to run npm ls -g --depth=0 a)",
        ]
    );
    let step = run.step(Outcome::Yes);
    assert_eq!(render(&step.effects), vec!["P:checking npm b"]);
}

#[test]
fn self_command_with_quote_is_quoted() {
    let mut run = UpdateRun::new(vec![pkg(PackageType::SelfUpdate, "x", Some("echo 'hi'"))], false);
    run.step(Outcome::Yes);
    let step = run.step(Outcome::Yes);
    match &step.request {
        Request::Execute(inv) => {
            assert_eq!(inv.program, "sh");
            assert_eq!(inv.display, "sh -lc 'echo '\\''hi'\\'''");
        }
        _ => panic!("expected the self command"),
    }
    let step = run.step(Outcome::No);
    assert_eq!(
        render(&step.effects),
        vec!["I:command failed but run will continue: sh -lc 'echo '\\''hi'\\'''"]
    );
}

#[test]
fn empty_run_finishes_at_once() {
    let mut run = UpdateRun::new(Vec::new(), false);
    let step = run.step(Outcome::Yes);
    assert!(step.effects.is_empty());
    let step = run.step(Outcome::Yes);
    assert_eq!(render(&step.effects), vec!["I:run finished", "P:done"]);
    assert!(matches!(step.request, Request::Finished));
}
