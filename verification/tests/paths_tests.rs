use cliup::paths::{
    cliup_bin_dir, cliup_bin_dir_under, cliup_dir, cliup_dir_under, config_path,
    config_path_under, join_bytes, launch_agents_dir, launch_agents_dir_under, log_dir,
    log_dir_under, log_path, log_path_under, plist_path, plist_path_under, wrapper_path,
    wrapper_path_under,
};

fn std_join(a: &str, b: &str) -> String {
    std::path::Path::new(a).join(b).display().to_string()
}

#[test]
fn join_follows_path_join() {
    for (a, b) in [("/a", "b"), ("/a/", "b"), ("", "b"), ("a", "/b"), ("/", ".cliup")] {
        assert_eq!(join_bytes(a.as_bytes(), b), std_join(a, b).into_bytes(), "{a} {b}");
    }
}

#[test]
fn join_bytes_keeps_bytes_that_are_not_utf8() {
    assert_eq!(join_bytes(b"/home/\xff", "x"), b"/home/\xff/x".to_vec());
}

#[test]
fn layout_under_a_home_directory() {
    let h: &[u8] = b"/Users/me";
    assert_eq!(cliup_dir_under(h), b"/Users/me/.cliup".to_vec());
    assert_eq!(config_path_under(h), b"/Users/me/.cliup/config.json".to_vec());
    assert_eq!(log_dir_under(h), b"/Users/me/.cliup/logs".to_vec());
    assert_eq!(log_path_under(h), b"/Users/me/.cliup/logs/update.log".to_vec());
    assert_eq!(cliup_bin_dir_under(h), b"/Users/me/.cliup/bin".to_vec());
    assert_eq!(wrapper_path_under(h), b"/Users/me/.cliup/bin/cliup-run.sh".to_vec());
    assert_eq!(launch_agents_dir_under(h), b"/Users/me/Library/LaunchAgents".to_vec());
    assert_eq!(
        plist_path_under(b"/Users/me/"),
        b"/Users/me/Library/LaunchAgents/com.user.cliup.plist".to_vec()
    );
}

#[test]
fn layout_under_the_real_home_directory() {
    let home = match dirs::home_dir() {
        Some(h) => h.into_os_string().into_encoded_bytes(),
        None => return,
    };
    assert_eq!(cliup_dir().unwrap(), cliup_dir_under(&home));
    assert_eq!(config_path().unwrap(), config_path_under(&home));
    assert_eq!(log_dir().unwrap(), log_dir_under(&home));
    assert_eq!(log_path().unwrap(), log_path_under(&home));
    assert_eq!(cliup_bin_dir().unwrap(), cliup_bin_dir_under(&home));
    assert_eq!(wrapper_path().unwrap(), wrapper_path_under(&home));
    assert_eq!(launch_agents_dir().unwrap(), launch_agents_dir_under(&home));
    assert_eq!(plist_path().unwrap(), plist_path_under(&home));
    assert!(cliup_dir().unwrap().ends_with(b"/.cliup"));
}
