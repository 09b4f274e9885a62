//! Where cliup keeps its files: everything lives under `~/.cliup`, except
//! the launchd agent, which lives under `~/Library/LaunchAgents`.
use vstd::prelude::*;
use vstd::string::StringSliceAdditionalSpecFns;

use crate::config::{CliupError, ErrorView};

verus! {

/// `dirs::home_dir`: the user's home directory, when one can be found, as
/// the bytes of the path. It depends on the environment (`$HOME` when it is
/// set and not empty, else the password database), so which directory comes
/// back is not promised. On Unix the crate returns `None` rather than an
/// empty path, so a directory that comes back is never empty.
#[verifier::external_body]
fn home_dir() -> (r: Option<Vec<u8>>)
    ensures
        r matches Some(h) ==> h@.len() > 0,
{
    match dirs::home_dir() {
        Some(p) => Some(p.into_os_string().into_encoded_bytes()),
        None => None,
    }
}

/// `base` extended by `part` as `PathBuf::join` does on Unix, over the
/// bytes of the paths: an absolute `part` replaces `base`; otherwise a `/`
/// separates the two unless `base` is empty or already ends with one.
pub open spec fn join_bytes_spec(base: Seq<u8>, part: Seq<u8>) -> Seq<u8> {
    if part.len() > 0 && part[0] == 47u8 {
        part
    } else if base.len() == 0 || base.last() == 47u8 {
        base + part
    } else {
        base + seq![47u8] + part
    }
}

pub(crate) fn push_bytes(r: &mut Vec<u8>, b: &[u8])
    ensures
        final(r)@ == old(r)@ + b@,
{
    let ghost start = r@;
    let mut i: usize = 0;
    while i < b.len()
        invariant
            i <= b@.len(),
            r@ == start + b@.take(i as int),
        decreases b.len() - i,
    {
        r.push(b[i]);
        assert(b@.take(i + 1) =~= b@.take(i as int).push(b@[i as int]));
        i = i + 1;
    }
    assert(b@.take(b@.len() as int) =~= b@);
}

/// The path `base` joined with the relative or absolute path `part`.
pub fn join_bytes(base: &[u8], part: &str) -> (r: Vec<u8>)
    ensures
        r@ == join_bytes_spec(base@, part.spec_bytes()),
{
    let pb = part.as_bytes();
    let mut r: Vec<u8> = Vec::new();
    if pb.len() > 0 && pb[0] == 47u8 {
        push_bytes(&mut r, pb);
        assert(r@ =~= pb@);
        return r;
    }
    push_bytes(&mut r, base);
    if base.len() > 0 && base[base.len() - 1] != 47u8 {
        r.push(47u8);
    }
    push_bytes(&mut r, pb);
    assert(r@ =~= join_bytes_spec(base@, part.spec_bytes()));
    r
}

pub open spec fn cliup_dir_at(home: Seq<u8>) -> Seq<u8> {
    join_bytes_spec(home, ".cliup".spec_bytes())
}

pub open spec fn config_path_at(home: Seq<u8>) -> Seq<u8> {
    join_bytes_spec(cliup_dir_at(home), "config.json".spec_bytes())
}

pub open spec fn log_dir_at(home: Seq<u8>) -> Seq<u8> {
    join_bytes_spec(cliup_dir_at(home), "logs".spec_bytes())
}

pub open spec fn log_path_at(home: Seq<u8>) -> Seq<u8> {
    join_bytes_spec(log_dir_at(home), "update.log".spec_bytes())
}

pub open spec fn cliup_bin_dir_at(home: Seq<u8>) -> Seq<u8> {
    join_bytes_spec(cliup_dir_at(home), "bin".spec_bytes())
}

pub open spec fn wrapper_path_at(home: Seq<u8>) -> Seq<u8> {
    join_bytes_spec(cliup_bin_dir_at(home), "cliup-run.sh".spec_bytes())
}

pub open spec fn launch_agents_dir_at(home: Seq<u8>) -> Seq<u8> {
    join_bytes_spec(join_bytes_spec(home, "Library".spec_bytes()), "LaunchAgents".spec_bytes())
}

pub open spec fn plist_path_at(home: Seq<u8>) -> Seq<u8> {
    join_bytes_spec(launch_agents_dir_at(home), "com.user.cliup.plist".spec_bytes())
}

/// `~/.cliup` for the home directory `home`.
pub fn cliup_dir_under(home: &[u8]) -> (r: Vec<u8>)
    ensures
        r@ == cliup_dir_at(home@),
{
    join_bytes(home, ".cliup")
}

/// `~/.cliup/config.json` for the home directory `home`.
pub fn config_path_under(home: &[u8]) -> (r: Vec<u8>)
    ensures
        r@ == config_path_at(home@),
{
    let dir = cliup_dir_under(home);
    join_bytes(dir.as_slice(), "config.json")
}

/// `~/.cliup/logs` for the home directory `home`.
pub fn log_dir_under(home: &[u8]) -> (r: Vec<u8>)
    ensures
        r@ == log_dir_at(home@),
{
    let dir = cliup_dir_under(home);
    join_bytes(dir.as_slice(), "logs")
}

/// `~/.cliup/logs/update.log` for the home directory `home`.
pub fn log_path_under(home: &[u8]) -> (r: Vec<u8>)
    ensures
        r@ == log_path_at(home@),
{
    let dir = log_dir_under(home);
    join_bytes(dir.as_slice(), "update.log")
}

/// `~/.cliup/bin` for the home directory `home`.
pub fn cliup_bin_dir_under(home: &[u8]) -> (r: Vec<u8>)
    ensures
        r@ == cliup_bin_dir_at(home@),
{
    let dir = cliup_dir_under(home);
    join_bytes(dir.as_slice(), "bin")
}

/// `~/.cliup/bin/cliup-run.sh` for the home directory `home`.
pub fn wrapper_path_under(home: &[u8]) -> (r: Vec<u8>)
    ensures
        r@ == wrapper_path_at(home@),
{
    let dir = cliup_bin_dir_under(home);
    join_bytes(dir.as_slice(), "cliup-run.sh")
}

/// `~/Library/LaunchAgents` for the home directory `home`.
pub fn launch_agents_dir_under(home: &[u8]) -> (r: Vec<u8>)
    ensures
        r@ == launch_agents_dir_at(home@),
{
    let library = join_bytes(home, "Library");
    join_bytes(library.as_slice(), "LaunchAgents")
}

/// `~/Library/LaunchAgents/com.user.cliup.plist` for the home directory `home`.
pub fn plist_path_under(home: &[u8]) -> (r: Vec<u8>)
    ensures
        r@ == plist_path_at(home@),
{
    let dir = launch_agents_dir_under(home);
    join_bytes(dir.as_slice(), "com.user.cliup.plist")
}

/// The home directory, which is never empty, or `HomeDirNotFound`.
pub(crate) fn home_path() -> (r: Result<Vec<u8>, CliupError>)
    ensures
        match r {
            Ok(h) => h@.len() > 0,
            Err(e) => e@ == ErrorView::HomeDirNotFound,
        },
{
    match home_dir() {
        Some(h) => Ok(h),
        None => Err(CliupError::HomeDirNotFound),
    }
}

/// `~/.cliup`.
pub fn cliup_dir() -> (r: Result<Vec<u8>, CliupError>)
    ensures
        match r {
            Ok(p) => exists|h: Seq<u8>| h.len() > 0 && p@ == #[trigger] cliup_dir_at(h),
            Err(e) => e@ == ErrorView::HomeDirNotFound,
        },
{
    let h = home_path()?;
    Ok(cliup_dir_under(h.as_slice()))
}

/// `~/.cliup/config.json`.
pub fn config_path() -> (r: Result<Vec<u8>, CliupError>)
    ensures
        match r {
            Ok(p) => exists|h: Seq<u8>| h.len() > 0 && p@ == #[trigger] config_path_at(h),
            Err(e) => e@ == ErrorView::HomeDirNotFound,
        },
{
    let h = home_path()?;
    Ok(config_path_under(h.as_slice()))
}

/// `~/.cliup/logs`.
pub fn log_dir() -> (r: Result<Vec<u8>, CliupError>)
    ensures
        match r {
            Ok(p) => exists|h: Seq<u8>| h.len() > 0 && p@ == #[trigger] log_dir_at(h),
            Err(e) => e@ == ErrorView::HomeDirNotFound,
        },
{
    let h = home_path()?;
    Ok(log_dir_under(h.as_slice()))
}

/// `~/.cliup/logs/update.log`.
pub fn log_path() -> (r: Result<Vec<u8>, CliupError>)
    ensures
        match r {
            Ok(p) => exists|h: Seq<u8>| h.len() > 0 && p@ == #[trigger] log_path_at(h),
            Err(e) => e@ == ErrorView::HomeDirNotFound,
        },
{
    let h = home_path()?;
    Ok(log_path_under(h.as_slice()))
}

/// `~/.cliup/bin`.
pub fn cliup_bin_dir() -> (r: Result<Vec<u8>, CliupError>)
    ensures
        match r {
            Ok(p) => exists|h: Seq<u8>| h.len() > 0 && p@ == #[trigger] cliup_bin_dir_at(h),
            Err(e) => e@ == ErrorView::HomeDirNotFound,
        },
{
    let h = home_path()?;
    Ok(cliup_bin_dir_under(h.as_slice()))
}

/// `~/.cliup/bin/cliup-run.sh`, the script that launchd starts.
pub fn wrapper_path() -> (r: Result<Vec<u8>, CliupError>)
    ensures
        match r {
            Ok(p) => exists|h: Seq<u8>| h.len() > 0 && p@ == #[trigger] wrapper_path_at(h),
            Err(e) => e@ == ErrorView::HomeDirNotFound,
        },
{
    let h = home_path()?;
    Ok(wrapper_path_under(h.as_slice()))
}

/// `~/Library/LaunchAgents`.
pub fn launch_agents_dir() -> (r: Result<Vec<u8>, CliupError>)
    ensures
        match r {
            Ok(p) => exists|h: Seq<u8>| h.len() > 0 && p@ == #[trigger] launch_agents_dir_at(h),
            Err(e) => e@ == ErrorView::HomeDirNotFound,
        },
{
    let h = home_path()?;
    Ok(launch_agents_dir_under(h.as_slice()))
}

/// `~/Library/LaunchAgents/com.user.cliup.plist`.
pub fn plist_path() -> (r: Result<Vec<u8>, CliupError>)
    ensures
        match r {
            Ok(p) => exists|h: Seq<u8>| h.len() > 0 && p@ == #[trigger] plist_path_at(h),
            Err(e) => e@ == ErrorView::HomeDirNotFound,
        },
{
    let h = home_path()?;
    Ok(plist_path_under(h.as_slice()))
}

/// Every file of cliup's own lies inside `~/.cliup`: the configuration, the
/// log, the logs directory, the bin directory and the launchd script all
/// begin with `~/.cliup/` (for a home that does not end with `/`).
pub proof fn lemma_files_under_cliup_dir(home: Seq<u8>)
    requires
        home.len() > 0,
        home.last() != 47u8,
    ensures
        config_path_at(home) == cliup_dir_at(home) + "/config.json".spec_bytes(),
        log_dir_at(home) == cliup_dir_at(home) + "/logs".spec_bytes(),
        log_path_at(home) == cliup_dir_at(home) + "/logs/update.log".spec_bytes(),
        cliup_bin_dir_at(home) == cliup_dir_at(home) + "/bin".spec_bytes(),
        wrapper_path_at(home) == cliup_dir_at(home) + "/bin/cliup-run.sh".spec_bytes(),
        cliup_dir_at(home) == home + "/.cliup".spec_bytes(),
{
    reveal_strlit(".cliup");
    reveal_strlit("config.json");
    reveal_strlit("logs");
    reveal_strlit("update.log");
    reveal_strlit("bin");
    reveal_strlit("cliup-run.sh");
    reveal_strlit("/config.json");
    reveal_strlit("/logs");
    reveal_strlit("/logs/update.log");
    reveal_strlit("/bin");
    reveal_strlit("/bin/cliup-run.sh");
    reveal_strlit("/.cliup");
    assert(vstd::string::is_ascii(".cliup"));
    assert(vstd::string::is_ascii("config.json"));
    assert(vstd::string::is_ascii("logs"));
    assert(vstd::string::is_ascii("update.log"));
    assert(vstd::string::is_ascii("bin"));
    assert(vstd::string::is_ascii("cliup-run.sh"));
    assert(vstd::string::is_ascii("/config.json"));
    assert(vstd::string::is_ascii("/logs"));
    assert(vstd::string::is_ascii("/logs/update.log"));
    assert(vstd::string::is_ascii("/bin"));
    assert(vstd::string::is_ascii("/bin/cliup-run.sh"));
    assert(vstd::string::is_ascii("/.cliup"));
    let d = cliup_dir_at(home);
    assert(d =~= home + "/.cliup".spec_bytes());
    assert(config_path_at(home) =~= d + "/config.json".spec_bytes());
    assert(log_dir_at(home) =~= d + "/logs".spec_bytes());
    assert(log_path_at(home) =~= d + "/logs/update.log".spec_bytes());
    assert(cliup_bin_dir_at(home) =~= d + "/bin".spec_bytes());
    assert(wrapper_path_at(home) =~= d + "/bin/cliup-run.sh".spec_bytes());
}

} // verus!
