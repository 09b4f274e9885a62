//! The texts that install cliup in launchd: the wrapper script, the agent's
//! property list, and what `launchctl` answers mean.
use vstd::prelude::*;
use vstd::string::StringSliceAdditionalSpecFns;

use crate::config::{Config, CliupError, ErrorView, Schedule};
use crate::paths::{home_path, join_bytes, join_bytes_spec, log_dir_at, log_dir_under, wrapper_path_at, wrapper_path_under};
use crate::text::{
    chars_of, contains_spec, occurs_at, contains_str, decimal, decode_lossy, owned, push_char, push_decimal,
    push_str, trim, trim_spec, utf8_lossy,
};

verus! {

/// The launchd label of the agent.
pub const LABEL: &'static str = "com.user.cliup";

pub open spec fn label_spec() -> Seq<char> {
    "com.user.cliup"@
}

// ---------------------------------------------------------------------------
// Escaping and quoting
// ---------------------------------------------------------------------------

/// The XML text of one character: the five markup characters become
/// entities, every other character stands for itself.
pub open spec fn escape_xml_char(c: char) -> Seq<char> {
    if c == '&' {
        "&amp;"@
    } else if c == '<' {
        "&lt;"@
    } else if c == '>' {
        "&gt;"@
    } else if c == '"' {
        "&quot;"@
    } else if c == '\'' {
        "&apos;"@
    } else {
        seq![c]
    }
}

/// `s` with each character escaped for XML.
pub open spec fn escape_xml_spec(s: Seq<char>) -> Seq<char>
    decreases s.len(),
{
    if s.len() == 0 {
        seq![]
    } else {
        escape_xml_spec(s.drop_last()) + escape_xml_char(s.last())
    }
}

/// `value` made safe to stand in XML text or an attribute.
pub fn escape_xml(value: &str) -> (r: String)
    ensures
        r@ == escape_xml_spec(value@),
{
    let cs = chars_of(value);
    let mut r = String::new();
    let mut i: usize = 0;
    while i < cs.len()
        invariant
            cs@ == value@,
            i <= cs.len(),
            r@ == escape_xml_spec(value@.take(i as int)),
        decreases cs.len() - i,
    {
        let c = cs[i];
        if c == '&' {
            push_str(&mut r, "&amp;");
        } else if c == '<' {
            push_str(&mut r, "&lt;");
        } else if c == '>' {
            push_str(&mut r, "&gt;");
        } else if c == '"' {
            push_str(&mut r, "&quot;");
        } else if c == '\'' {
            push_str(&mut r, "&apos;");
        } else {
            push_char(&mut r, c);
        }
        assert(value@.take(i + 1).drop_last() =~= value@.take(i as int));
        assert(r@ =~= escape_xml_spec(value@.take(i + 1)));
        i = i + 1;
    }
    assert(value@.take(cs.len() as int) =~= value@);
    r
}

/// The shell text of one character inside single quotes: a quote closes the
/// quoting, is escaped, and reopens it.
pub open spec fn quote_char(c: char) -> Seq<char> {
    if c == '\'' {
        "'\\''"@
    } else {
        seq![c]
    }
}

/// The characters of `s`, each as `quote_char` gives it.
pub open spec fn quote_body(s: Seq<char>) -> Seq<char>
    decreases s.len(),
{
    if s.len() == 0 {
        seq![]
    } else {
        quote_body(s.drop_last()) + quote_char(s.last())
    }
}

/// `s` as one single-quoted shell word.
pub open spec fn shell_quote_spec(s: Seq<char>) -> Seq<char> {
    seq!['\''] + quote_body(s) + seq!['\'']
}

/// Appends the characters of `cs`, each as `quote_char` gives it.
pub(crate) fn push_quote_body(r: &mut String, cs: &Vec<char>)
    ensures
        final(r)@ == old(r)@ + quote_body(cs@),
{
    let ghost start = r@;
    let mut i: usize = 0;
    while i < cs.len()
        invariant
            i <= cs.len(),
            r@ == start + quote_body(cs@.take(i as int)),
        decreases cs.len() - i,
    {
        if cs[i] == '\'' {
            push_str(r, "'\\''");
        } else {
            push_char(r, cs[i]);
        }
        assert(cs@.take(i + 1).drop_last() =~= cs@.take(i as int));
        assert(r@ =~= start + quote_body(cs@.take(i + 1)));
        i = i + 1;
    }
    assert(cs@.take(cs.len() as int) =~= cs@);
}

/// `value` quoted for `sh`, always inside single quotes.
pub fn shell_quote(value: &str) -> (r: String)
    ensures
        r@ == shell_quote_spec(value@),
{
    let cs = chars_of(value);
    let mut r = String::new();
    push_char(&mut r, '\'');
    push_quote_body(&mut r, &cs);
    push_char(&mut r, '\'');
    assert(r@ =~= shell_quote_spec(value@));
    r
}

// ---------------------------------------------------------------------------
// The wrapper script and the property list
// ---------------------------------------------------------------------------

/// The script that launchd runs: it puts the usual tool directories first on
/// `PATH` and runs `cliup run` with the binary at `cliup_path`.
pub open spec fn wrapper_script_spec(cliup_path: Seq<char>) -> Seq<char> {
    "#!/bin/sh\nexport PATH=\"/opt/homebrew/bin:/usr/local/bin:/usr/bin:/bin:/usr/sbin:/sbin:$PATH\"\n"@
        + shell_quote_spec(cliup_path) + " run\n"@
}

/// The wrapper script for the cliup binary at `cliup_path`.
pub fn wrapper_script(cliup_path: &str) -> (r: String)
    ensures
        r@ == wrapper_script_spec(cliup_path@),
{
    let mut r = owned(
        "#!/bin/sh\nexport PATH=\"/opt/homebrew/bin:/usr/local/bin:/usr/bin:/bin:/usr/sbin:/sbin:$PATH\"\n",
    );
    let q = shell_quote(cliup_path);
    push_str(&mut r, q.as_str());
    push_str(&mut r, " run\n");
    r
}

/// The launchd property list: label, program, the daily start time, a run at
/// load, and the two output logs, each path escaped for XML.
pub open spec fn plist_spec(
    schedule: Schedule,
    wrapper: Seq<char>,
    out: Seq<char>,
    err: Seq<char>,
) -> Seq<char> {
    "<?xml version=\"1.0\" encoding=\"UTF-8\"?>\n<!DOCTYPE plist PUBLIC \"-//Apple//DTD PLIST 1.0//EN\" \"http://www.apple.com/DTDs/PropertyList-1.0.dtd\">\n<plist version=\"1.0\">\n<dict>\n  <key>Label</key>\n  <string>"@
        + label_spec()
        + "</string>\n  <key>ProgramArguments</key>\n  <array>\n    <string>"@
        + escape_xml_spec(wrapper)
        + "</string>\n  </array>\n  <key>StartCalendarInterval</key>\n  <dict>\n    <key>Hour</key>\n    <integer>"@
        + decimal(schedule.hour as nat) + "</integer>\n    <key>Minute</key>\n    <integer>"@
        + decimal(schedule.minute as nat)
        + "</integer>\n  </dict>\n  <key>RunAtLoad</key>\n  <true/>\n  <key>StandardOutPath</key>\n  <string>"@
        + escape_xml_spec(out) + "</string>\n  <key>StandardErrorPath</key>\n  <string>"@
        + escape_xml_spec(err) + "</string>\n</dict>\n</plist>\n"@
}

/// The property list for `config`'s schedule, the wrapper script at
/// `wrapper`, and the launchd logs at `out` and `err`.
pub fn plist_document(config: &Config, wrapper: &str, out: &str, err: &str) -> (r: String)
    ensures
        r@ == plist_spec(config.schedule, wrapper@, out@, err@),
{
    let mut r = owned(
        "<?xml version=\"1.0\" encoding=\"UTF-8\"?>\n<!DOCTYPE plist PUBLIC \"-//Apple//DTD PLIST 1.0//EN\" \"http://www.apple.com/DTDs/PropertyList-1.0.dtd\">\n<plist version=\"1.0\">\n<dict>\n  <key>Label</key>\n  <string>",
    );
    push_str(&mut r, LABEL);
    push_str(&mut r, "</string>\n  <key>ProgramArguments</key>\n  <array>\n    <string>");
    let w = escape_xml(wrapper);
    push_str(&mut r, w.as_str());
    push_str(
        &mut r,
        "</string>\n  </array>\n  <key>StartCalendarInterval</key>\n  <dict>\n    <key>Hour</key>\n    <integer>",
    );
    push_decimal(&mut r, config.schedule.hour as u64);
    push_str(&mut r, "</integer>\n    <key>Minute</key>\n    <integer>");
    push_decimal(&mut r, config.schedule.minute as u64);
    push_str(
        &mut r,
        "</integer>\n  </dict>\n  <key>RunAtLoad</key>\n  <true/>\n  <key>StandardOutPath</key>\n  <string>",
    );
    let o = escape_xml(out);
    push_str(&mut r, o.as_str());
    push_str(&mut r, "</string>\n  <key>StandardErrorPath</key>\n  <string>");
    let e = escape_xml(err);
    push_str(&mut r, e.as_str());
    push_str(&mut r, "</string>\n</dict>\n</plist>\n");
    assert(r@ =~= plist_spec(config.schedule, wrapper@, out@, err@));
    r
}

/// The property list for the home directory `home`: the wrapper script
/// under `~/.cliup/bin`, the logs `launchd.out.log` and `launchd.err.log`
/// under `~/.cliup/logs`, each path shown as text as `Path::display` shows
/// it.
pub open spec fn plist_at(schedule: Schedule, home: Seq<u8>) -> Seq<char> {
    plist_spec(
        schedule,
        utf8_lossy(wrapper_path_at(home)),
        utf8_lossy(join_bytes_spec(log_dir_at(home), "launchd.out.log".spec_bytes())),
        utf8_lossy(join_bytes_spec(log_dir_at(home), "launchd.err.log".spec_bytes())),
    )
}

/// The agent of a home directory (not ending in `/`) runs the script
/// `HOME/.cliup/bin/cliup-run.sh` and writes its output to
/// `HOME/.cliup/logs/launchd.out.log` and `HOME/.cliup/logs/launchd.err.log`.
pub proof fn lemma_plist_paths(schedule: Schedule, home: Seq<u8>)
    requires
        home.len() > 0,
        home.last() != 47u8,
    ensures
        plist_at(schedule, home) == plist_spec(
            schedule,
            utf8_lossy(home + "/.cliup/bin/cliup-run.sh".spec_bytes()),
            utf8_lossy(home + "/.cliup/logs/launchd.out.log".spec_bytes()),
            utf8_lossy(home + "/.cliup/logs/launchd.err.log".spec_bytes()),
        ),
{
    crate::paths::lemma_files_under_cliup_dir(home);
    reveal_strlit("/.cliup");
    reveal_strlit("/bin/cliup-run.sh");
    reveal_strlit("/logs");
    reveal_strlit("launchd.out.log");
    reveal_strlit("launchd.err.log");
    reveal_strlit("/.cliup/bin/cliup-run.sh");
    reveal_strlit("/.cliup/logs/launchd.out.log");
    reveal_strlit("/.cliup/logs/launchd.err.log");
    assert(vstd::string::is_ascii("/.cliup"));
    assert(vstd::string::is_ascii("/bin/cliup-run.sh"));
    assert(vstd::string::is_ascii("/logs"));
    assert(vstd::string::is_ascii("launchd.out.log"));
    assert(vstd::string::is_ascii("launchd.err.log"));
    assert(vstd::string::is_ascii("/.cliup/bin/cliup-run.sh"));
    assert(vstd::string::is_ascii("/.cliup/logs/launchd.out.log"));
    assert(vstd::string::is_ascii("/.cliup/logs/launchd.err.log"));
    let d = crate::paths::cliup_dir_at(home);
    assert(wrapper_path_at(home) =~= home + "/.cliup/bin/cliup-run.sh".spec_bytes());
    let logs = log_dir_at(home);
    assert(logs =~= d + "/logs".spec_bytes());
    assert(join_bytes_spec(logs, "launchd.out.log".spec_bytes()) =~= home
        + "/.cliup/logs/launchd.out.log".spec_bytes());
    assert(join_bytes_spec(logs, "launchd.err.log".spec_bytes()) =~= home
        + "/.cliup/logs/launchd.err.log".spec_bytes());
}

/// The property list for `config` and the home directory `home`.
pub fn plist_under(config: &Config, home: &[u8]) -> (r: String)
    ensures
        r@ == plist_at(config.schedule, home@),
{
    let wrapper = wrapper_path_under(home);
    let logs = log_dir_under(home);
    let out = join_bytes(logs.as_slice(), "launchd.out.log");
    let err = join_bytes(logs.as_slice(), "launchd.err.log");
    let wrapper_text = decode_lossy(wrapper.as_slice());
    let out_text = decode_lossy(out.as_slice());
    let err_text = decode_lossy(err.as_slice());
    plist_document(config, wrapper_text.as_str(), out_text.as_str(), err_text.as_str())
}

/// The property list for `config` in the user's home directory.
pub fn plist_content(config: &Config) -> (r: Result<String, CliupError>)
    ensures
        match r {
            Ok(s) => exists|h: Seq<u8>| h.len() > 0 && s@ == #[trigger] plist_at(config.schedule, h),
            Err(e) => e@ == ErrorView::HomeDirNotFound,
        },
{
    let h = home_path()?;
    Ok(plist_under(config, h.as_slice()))
}

// ---------------------------------------------------------------------------
// launchctl answers
// ---------------------------------------------------------------------------

/// What `cliup status` says of the output of `launchctl list`: `loaded`
/// when the agent's label occurs in it.
pub open spec fn status_spec(listing: Seq<u8>) -> Seq<char> {
    if contains_spec(utf8_lossy(listing), label_spec()) {
        "loaded"@
    } else {
        "not loaded"@
    }
}

/// `loaded` or `not loaded`, from the output of `launchctl list`.
pub fn status_text(listing: &[u8]) -> (r: &'static str)
    ensures
        r@ == status_spec(listing@),
{
    let text = decode_lossy(listing);
    if contains_str(text.as_str(), LABEL) {
        "loaded"
    } else {
        "not loaded"
    }
}

/// The error reported when `launchctl load` fails, with its trimmed stderr.
pub open spec fn load_failure_spec(stderr: Seq<u8>) -> Seq<char> {
    "launchctl load failed: "@ + trim_spec(utf8_lossy(stderr))
}

/// The message for a failed `launchctl load`.
pub fn load_failure_message(stderr: &[u8]) -> (r: String)
    ensures
        r@ == load_failure_spec(stderr@),
{
    let text = decode_lossy(stderr);
    let trimmed = trim(text.as_str());
    let mut r = owned("launchctl load failed: ");
    push_str(&mut r, trimmed.as_str());
    r
}

// ---------------------------------------------------------------------------
// Laws
// ---------------------------------------------------------------------------

/// Escaped text holds no `<`, `>`, `"` or `'`, so it cannot end the element
/// or attribute that it stands in.
pub proof fn lemma_escape_xml_safe(s: Seq<char>)
    ensures
        forall|i: int|
            0 <= i < escape_xml_spec(s).len() ==> {
                let c = #[trigger] escape_xml_spec(s)[i];
                c != '<' && c != '>' && c != '"' && c != '\''
            },
    decreases s.len(),
{
    reveal_strlit("&amp;");
    reveal_strlit("&lt;");
    reveal_strlit("&gt;");
    reveal_strlit("&quot;");
    reveal_strlit("&apos;");
    if s.len() > 0 {
        lemma_escape_xml_safe(s.drop_last());
        let a = escape_xml_spec(s.drop_last());
        let b = escape_xml_char(s.last());
        assert forall|i: int| 0 <= i < (a + b).len() implies {
            let c = #[trigger] (a + b)[i];
            c != '<' && c != '>' && c != '"' && c != '\''
        } by {
            if i >= a.len() {
                assert((a + b)[i] == b[i - a.len()]);
            } else {
                assert((a + b)[i] == a[i]);
            }
        }
    }
}

/// Text without markup characters is left as it is.
pub proof fn lemma_escape_xml_plain(s: Seq<char>)
    requires
        forall|i: int|
            0 <= i < s.len() ==> {
                let c = #[trigger] s[i];
                c != '&' && c != '<' && c != '>' && c != '"' && c != '\''
            },
    ensures
        escape_xml_spec(s) == s,
    decreases s.len(),
{
    if s.len() > 0 {
        assert forall|i: int| 0 <= i < s.drop_last().len() implies {
            let c = #[trigger] s.drop_last()[i];
            c != '&' && c != '<' && c != '>' && c != '"' && c != '\''
        } by {
            assert(s.drop_last()[i] == s[i]);
        }
        lemma_escape_xml_plain(s.drop_last());
        assert(s.last() == s[s.len() - 1]);
        assert(s.drop_last() + seq![s.last()] =~= s);
    }
}

/// `s` begins with the entity `e`.
pub open spec fn starts_with(s: Seq<char>, e: Seq<char>) -> bool {
    e.len() <= s.len() && s.take(e.len() as int) == e
}

/// XML text decoded left to right: each of the five entities that
/// `escape_xml` writes becomes its character, and any other character
/// stands for itself.
pub open spec fn unescape_xml_spec(s: Seq<char>) -> Seq<char>
    decreases s.len(),
{
    if s.len() == 0 {
        seq![]
    } else if s.len() >= 5 && s.take(5) == "&amp;"@ {
        seq!['&'] + unescape_xml_spec(s.skip(5))
    } else if s.len() >= 4 && s.take(4) == "&lt;"@ {
        seq!['<'] + unescape_xml_spec(s.skip(4))
    } else if s.len() >= 4 && s.take(4) == "&gt;"@ {
        seq!['>'] + unescape_xml_spec(s.skip(4))
    } else if s.len() >= 6 && s.take(6) == "&quot;"@ {
        seq!['"'] + unescape_xml_spec(s.skip(6))
    } else if s.len() >= 6 && s.take(6) == "&apos;"@ {
        seq!['\''] + unescape_xml_spec(s.skip(6))
    } else {
        seq![s[0]] + unescape_xml_spec(s.skip(1))
    }
}

/// One of the five entities that `escape_xml` writes begins at `i`.
pub open spec fn entity_at(s: Seq<char>, i: int) -> bool {
    ||| occurs_at(s, "&amp;"@, i)
    ||| occurs_at(s, "&lt;"@, i)
    ||| occurs_at(s, "&gt;"@, i)
    ||| occurs_at(s, "&quot;"@, i)
    ||| occurs_at(s, "&apos;"@, i)
}

proof fn lemma_escape_xml_concat(a: Seq<char>, b: Seq<char>)
    ensures
        escape_xml_spec(a + b) == escape_xml_spec(a) + escape_xml_spec(b),
    decreases b.len(),
{
    if b.len() == 0 {
        assert(a + b =~= a);
        assert(escape_xml_spec(a) + escape_xml_spec(b) =~= escape_xml_spec(a));
    } else {
        assert((a + b).drop_last() =~= a + b.drop_last());
        assert((a + b).last() == b.last());
        lemma_escape_xml_concat(a, b.drop_last());
        assert(escape_xml_spec(a) + escape_xml_spec(b.drop_last()) + escape_xml_char(b.last())
            =~= escape_xml_spec(a) + (escape_xml_spec(b.drop_last()) + escape_xml_char(b.last())));
    }
}

proof fn lemma_unescape_one(c: char, t: Seq<char>)
    ensures
        unescape_xml_spec(escape_xml_char(c) + t) == seq![c] + unescape_xml_spec(t),
{
    reveal_strlit("&amp;");
    reveal_strlit("&lt;");
    reveal_strlit("&gt;");
    reveal_strlit("&quot;");
    reveal_strlit("&apos;");
    let e = escape_xml_char(c);
    let s = e + t;
    assert(s.len() > 0);
    if c == '&' {
        assert(s.take(5) =~= "&amp;"@);
        assert(s.skip(5) =~= t);
    } else if c == '<' {
        assert(s[1] == 'l');
        assert(s.take(4) =~= "&lt;"@);
        assert(s.skip(4) =~= t);
    } else if c == '>' {
        assert(s[1] == 'g');
        assert(s.take(4) =~= "&gt;"@);
        assert(s.skip(4) =~= t);
    } else if c == '"' {
        assert(s[1] == 'q');
        assert(s.take(6) =~= "&quot;"@);
        assert(s.skip(6) =~= t);
    } else if c == '\'' {
        assert(s[1] == 'a' && s[2] == 'p');
        assert(s.take(6) =~= "&apos;"@);
        assert(s.skip(6) =~= t);
    } else {
        assert(s[0] == c);
        assert(s.len() >= 5 ==> s.take(5)[0] != "&amp;"@[0]);
        assert(s.len() >= 4 ==> s.take(4)[0] != "&lt;"@[0]);
        assert(s.len() >= 6 ==> s.take(6)[0] != "&quot;"@[0]);
        assert(s.skip(1) =~= t);
    }
}

/// Decoding escaped text gives the value back.
pub proof fn lemma_escape_xml_roundtrip(s: Seq<char>)
    ensures
        unescape_xml_spec(escape_xml_spec(s)) == s,
    decreases s.len(),
{
    if s.len() > 0 {
        let rest = s.drop_first();
        assert(seq![s[0]] + rest =~= s);
        lemma_escape_xml_concat(seq![s[0]], rest);
        let one = seq![s[0]];
        assert(one.drop_last() =~= Seq::<char>::empty());
        assert(one.last() == s[0]);
        assert(escape_xml_spec(one.drop_last()) == Seq::<char>::empty());
        assert(escape_xml_spec(one) == escape_xml_spec(one.drop_last()) + escape_xml_char(s[0]));
        assert(escape_xml_spec(one) =~= escape_xml_char(s[0]));
        lemma_unescape_one(s[0], escape_xml_spec(rest));
        lemma_escape_xml_roundtrip(rest);
    }
}

/// In escaped text every `&` begins one of the five entities.
pub proof fn lemma_escape_xml_ampersands(s: Seq<char>)
    ensures
        forall|i: int|
            0 <= i < escape_xml_spec(s).len() && #[trigger] escape_xml_spec(s)[i] == '&'
                ==> entity_at(escape_xml_spec(s), i),
    decreases s.len(),
{
    reveal_strlit("&amp;");
    reveal_strlit("&lt;");
    reveal_strlit("&gt;");
    reveal_strlit("&quot;");
    reveal_strlit("&apos;");
    if s.len() > 0 {
        lemma_escape_xml_ampersands(s.drop_last());
        let a = escape_xml_spec(s.drop_last());
        let b = escape_xml_char(s.last());
        let e = a + b;
        assert(e == escape_xml_spec(s));
        assert forall|i: int| 0 <= i < e.len() && #[trigger] e[i] == '&' implies entity_at(e, i) by {
            if i < a.len() {
                assert(a[i] == '&');
                assert(entity_at(a, i));
                if occurs_at(a, "&amp;"@, i) {
                    assert(e.subrange(i, i + 5) =~= a.subrange(i, i + 5));
                } else if occurs_at(a, "&lt;"@, i) {
                    assert(e.subrange(i, i + 4) =~= a.subrange(i, i + 4));
                } else if occurs_at(a, "&gt;"@, i) {
                    assert(e.subrange(i, i + 4) =~= a.subrange(i, i + 4));
                } else if occurs_at(a, "&quot;"@, i) {
                    assert(e.subrange(i, i + 6) =~= a.subrange(i, i + 6));
                } else {
                    assert(e.subrange(i, i + 6) =~= a.subrange(i, i + 6));
                }
            } else {
                assert(e[i] == b[i - a.len()]);
                assert(i == a.len());
                assert(e.subrange(i, e.len() as int) =~= b);
            }
        }
    }
}

} // verus!
