use cliup::commands::packages_heading;
use cliup::config::{Config, Schedule};
use cliup::launchd::{
    escape_xml, load_failure_message, plist_document, plist_under, shell_quote, status_text,
    wrapper_script, LABEL,
};

#[test]
fn escape_xml_escapes_the_markup_characters() {
    assert_eq!(escape_xml("a&b<c>d\"e'f"), "a&amp;b&lt;c&gt;d&quot;e&apos;f");
    assert_eq!(escape_xml("/Users/me/.cliup"), "/Users/me/.cliup");
    assert_eq!(escape_xml("&amp;"), "&amp;amp;");
}

#[test]
fn launchd_shell_quote_always_quotes() {
    assert_eq!(shell_quote("/usr/local/bin/cliup"), "'/usr/local/bin/cliup'");
    assert_eq!(shell_quote("it's"), "'it'\\''s'");
}

#[test]
fn wrapper_script_runs_cliup() {
    assert_eq!(
        wrapper_script("/Users/me/.cargo/bin/cliup"),
        "#!/bin/sh\nexport PATH=\"/opt/homebrew/bin:/usr/local/bin:/usr/bin:/bin:/usr/sbin:/sbin:$PATH\"\n'/Users/me/.cargo/bin/cliup' run\n"
    );
}

#[test]
fn plist_holds_schedule_and_paths() {
    let mut config = Config::default_config();
    config.schedule = Schedule { hour: 7, minute: 5 };
    let doc = plist_document(&config, "/w/run.sh", "/l/out&.log", "/l/err.log");
    let expected = r#"<?xml version="1.0" encoding="UTF-8"?>
<!DOCTYPE plist PUBLIC "-//Apple//DTD PLIST 1.0//EN" "http://www.apple.com/DTDs/PropertyList-1.0.dtd">
<plist version="1.0">
<dict>
  <key>Label</key>
  <string>com.user.cliup</string>
  <key>ProgramArguments</key>
  <array>
    <string>/w/run.sh</string>
  </array>
  <key>StartCalendarInterval</key>
  <dict>
    <key>Hour</key>
    <integer>7</integer>
    <key>Minute</key>
    <integer>5</integer>
  </dict>
  <key>RunAtLoad</key>
  <true/>
  <key>StandardOutPath</key>
  <string>/l/out&amp;.log</string>
  <key>StandardErrorPath</key>
  <string>/l/err.log</string>
</dict>
</plist>
"#;
    assert_eq!(doc, expected);
    let home = plist_under(&config, b"/Users/me");
    assert!(home.contains("<string>/Users/me/.cliup/bin/cliup-run.sh</string>"));
    assert!(home.contains("<string>/Users/me/.cliup/logs/launchd.out.log</string>"));
    assert!(home.contains("<string>/Users/me/.cliup/logs/launchd.err.log</string>"));
    let odd = plist_under(&config, b"/Users/\xff&");
    assert!(odd.contains("<string>/Users/\u{fffd}&amp;/.cliup/bin/cliup-run.sh</string>"));
}

#[test]
fn escape_xml_round_trips() {
    let value = "a&amp;<b>\"c\"'d'";
    let escaped = escape_xml(value);
    let decoded = escaped
        .replace("&lt;", "<")
        .replace("&gt;", ">")
        .replace("&quot;", "\"")
        .replace("&apos;", "'")
        .replace("&amp;", "&");
    assert_eq!(decoded, value);
    assert_eq!(packages_heading(0), "packages: empty");
}

#[test]
fn status_reads_the_launchctl_listing() {
    assert_eq!(LABEL, "com.user.cliup");
    assert_eq!(status_text(b"PID\tStatus\tLabel\n-\t0\tcom.user.cliup\n"), "loaded");
    assert_eq!(status_text(b"PID\tStatus\tLabel\n-\t0\tcom.apple.x\n"), "not loaded");
    assert_eq!(status_text(b""), "not loaded");
}

#[test]
fn load_failure_message_trims_stderr() {
    assert_eq!(
        load_failure_message(b"  Load failed: 5: Input/output error\n"),
        "launchctl load failed: Load failed: 5: Input/output error"
    );
    assert_eq!(load_failure_message(b"bad \xff\n"), "launchctl load failed: bad \u{fffd}");
}
