//! The decisions and texts of the subcommands `add`, `remove`, `list`,
//! `schedule` and `doctor`.
use vstd::prelude::*;

use crate::config::{kind_name, lemma_type_name_roundtrip, CliupError, ErrorView, Package, PackageType, PackageView, parse_type_spec};
use crate::text::{owned, push_decimal, push_padded, push_str, push_two_digits, decimal, pad_right_spec, two_digits, views};
use crate::runner::first_line;
use crate::text::first_line_spec;
use crate::update::{is_installed_check, list_call, tool_of, InvocationView, Invocation};

verus! {

// ---------------------------------------------------------------------------
// add
// ---------------------------------------------------------------------------

/// `words` joined by single spaces.
pub open spec fn join_words(words: Seq<Seq<char>>) -> Seq<char>
    decreases words.len(),
{
    if words.len() == 0 {
        seq![]
    } else if words.len() == 1 {
        words[0]
    } else {
        join_words(words.drop_last()) + " "@ + words.last()
    }
}

/// The words joined by single spaces.
pub fn join_with_spaces(words: &Vec<String>) -> (r: String)
    ensures
        r@ == join_words(views(words@)),
{
    let ghost ws = views(words@);
    let mut r = String::new();
    let mut i: usize = 0;
    assert(ws.take(0) =~= seq![]);
    while i < words.len()
        invariant
            ws == views(words@),
            i <= words.len(),
            r@ == join_words(ws.take(i as int)),
        decreases words.len() - i,
    {
        if i > 0 {
            push_str(&mut r, " ");
        }
        push_str(&mut r, words[i].as_str());
        proof {
            assert(ws.take(i + 1).drop_last() =~= ws.take(i as int));
            assert(ws.take(i + 1).last() == words@[i as int]@);
            if i == 0 {
                assert(ws.take(1)[0] == words@[0]@);
                assert(r@ =~= join_words(ws.take(1)));
            }
        }
        i = i + 1;
    }
    assert(ws.take(words.len() as int) =~= ws);
    r
}

/// What `cliup add TYPE NAME COMMAND...` asks for before the configuration
/// is read: the type, and the command of a `self` package (its words
/// joined by spaces). An unknown type, a `self` package without command
/// words, or command words for another type is refused, in that order.
pub open spec fn add_request_spec(type_text: Seq<char>, command: Seq<Seq<char>>) -> Result<
    (PackageType, Option<Seq<char>>),
    ErrorView,
> {
    match parse_type_spec(type_text) {
        None => Err(ErrorView::UnknownPackageType),
        Some(t) => if t == PackageType::SelfUpdate {
            if command.len() == 0 {
                Err(ErrorView::SelfArgsRequired)
            } else {
                Ok((t, Some(join_words(command))))
            }
        } else if command.len() > 0 {
            Err(ErrorView::ArgsNotAccepted)
        } else {
            Ok((t, None))
        },
    }
}

/// The type and the command of the package that `add` is asked to add.
pub fn add_request(type_text: &str, command: &Vec<String>) -> (r: Result<
    (PackageType, Option<String>),
    CliupError,
>)
    ensures
        match r {
            Ok((t, c)) => add_request_spec(type_text@, views(command@)) == Ok::<
                (PackageType, Option<Seq<char>>),
                ErrorView,
            >((
                t,
                match c {
                    Some(s) => Some(s@),
                    None => None,
                },
            )),
            Err(e) => add_request_spec(type_text@, views(command@)) == Err::<
                (PackageType, Option<Seq<char>>),
                ErrorView,
            >(e@),
        },
        r matches Ok((t, _)) ==> kind_name(t) == type_text@,
{
    proof {
        if parse_type_spec(type_text@) is Some {
            lemma_type_name_roundtrip(parse_type_spec(type_text@)->0);
        }
    }
    let t = PackageType::parse(type_text)?;
    if t == PackageType::SelfUpdate {
        if command.len() == 0 {
            return Err(CliupError::SelfArgsRequired);
        }
        Ok((t, Some(join_with_spaces(command))))
    } else {
        if command.len() > 0 {
            return Err(CliupError::ArgsNotAccepted);
        }
        Ok((t, None))
    }
}

/// What `add` accepts: the type is the one the user named (its name is the
/// text given), a `self` package and only a `self` package carries a
/// command, that command is the words given (one word as it is), and the
/// request is refused exactly when the type is unknown or the command words
/// do not fit the type.
pub proof fn lemma_add_request(type_text: Seq<char>, command: Seq<Seq<char>>)
    ensures
        add_request_spec(type_text, command) matches Ok((t, c)) ==> kind_name(t) == type_text && (
        c is Some <==> t == PackageType::SelfUpdate) && (command.len() == 1 ==> (c matches Some(
        x) ==> x == command[0])),
        add_request_spec(type_text, command) is Ok <==> ((type_text == "npm"@ || type_text
            == "brew"@ || type_text == "cask"@) && command.len() == 0) || (type_text == "self"@
            && command.len() > 0),
{
    if parse_type_spec(type_text) is Some {
        lemma_type_name_roundtrip(parse_type_spec(type_text)->0);
    }
    reveal_strlit("npm");
    reveal_strlit("brew");
    reveal_strlit("cask");
    reveal_strlit("self");
    assert("npm"@.len() == 3 && "brew"@.len() == 4 && "cask"@.len() == 4 && "self"@.len() == 4);
    assert("brew"@[0] == 'b' && "cask"@[0] == 'c' && "self"@[0] == 's');
}

// ---------------------------------------------------------------------------
// Texts
// ---------------------------------------------------------------------------

/// The command of a package as shown (empty when absent).
pub open spec fn shown_command(p: PackageView) -> Seq<char> {
    match p.command {
        Some(c) => c,
        None => seq![],
    }
}

/// A line of `cliup list`: the type in a field of six, the name, and for a
/// `self` package an arrow to its command.
pub open spec fn list_line_spec(p: PackageView) -> Seq<char> {
    if p.package_type == PackageType::SelfUpdate {
        pad_right_spec(kind_name(p.package_type), 6) + " "@ + p.name + " -> "@ + shown_command(p)
    } else {
        pad_right_spec(kind_name(p.package_type), 6) + " "@ + p.name
    }
}

fn push_shown_command(r: &mut String, p: &Package)
    ensures
        final(r)@ == old(r)@ + shown_command(p@),
{
    match &p.command {
        Some(c) => push_str(r, c.as_str()),
        None => {
            assert(old(r)@ + seq![] =~= old(r)@);
        },
    }
}

/// The line that `cliup list` shows for `p`.
pub fn list_line(p: &Package) -> (r: String)
    ensures
        r@ == list_line_spec(p@),
{
    let mut r = String::new();
    push_padded(&mut r, p.package_type.as_str(), 6);
    push_str(&mut r, " ");
    push_str(&mut r, p.name.as_str());
    if p.package_type == PackageType::SelfUpdate {
        push_str(&mut r, " -> ");
        push_shown_command(&mut r, p);
    }
    assert(r@ =~= list_line_spec(p@));
    r
}

/// What `add` says of a package: the prefix, the type and the name, and
/// for a `self` package an arrow to its command.
pub open spec fn package_summary_spec(prefix: Seq<char>, p: PackageView) -> Seq<char> {
    if p.package_type == PackageType::SelfUpdate {
        prefix + ": "@ + kind_name(p.package_type) + " "@ + p.name + " -> "@ + shown_command(p)
    } else {
        prefix + ": "@ + kind_name(p.package_type) + " "@ + p.name
    }
}

/// The line that `add` prints for `p` (`added` or `already exists`).
pub fn package_summary(prefix: &str, p: &Package) -> (r: String)
    ensures
        r@ == package_summary_spec(prefix@, p@),
{
    let mut r = owned(prefix);
    push_str(&mut r, ": ");
    push_str(&mut r, p.package_type.as_str());
    push_str(&mut r, " ");
    push_str(&mut r, p.name.as_str());
    if p.package_type == PackageType::SelfUpdate {
        push_str(&mut r, " -> ");
        push_shown_command(&mut r, p);
    }
    assert(r@ =~= package_summary_spec(prefix@, p@));
    r
}

/// What `remove` says: that nothing matched, or how many packages went.
pub open spec fn removal_spec(name: Seq<char>, removed: nat) -> Seq<char> {
    if removed == 0 {
        "not found: "@ + name
    } else {
        "removed "@ + decimal(removed) + " item(s)"@
    }
}

/// The line that `remove` prints after deleting `removed` packages.
pub fn removal_message(name: &str, removed: usize) -> (r: String)
    ensures
        r@ == removal_spec(name@, removed as nat),
{
    if removed == 0 {
        let mut r = owned("not found: ");
        push_str(&mut r, name);
        r
    } else {
        let mut r = owned("removed ");
        push_decimal(&mut r, removed as u64);
        push_str(&mut r, " item(s)");
        r
    }
}

/// What `schedule` says: the new time, `HH:MM`.
pub open spec fn schedule_spec(hour: u8, minute: u8) -> Seq<char> {
    "schedule updated: "@ + two_digits(hour as nat) + ":"@ + two_digits(minute as nat)
}

/// The line that `schedule` prints for the new time.
pub fn schedule_message(hour: u8, minute: u8) -> (r: String)
    ensures
        r@ == schedule_spec(hour, minute),
{
    let mut r = owned("schedule updated: ");
    push_two_digits(&mut r, hour);
    push_str(&mut r, ":");
    push_two_digits(&mut r, minute);
    r
}

// ---------------------------------------------------------------------------
// doctor
// ---------------------------------------------------------------------------

/// The command whose presence `doctor` probes for a package: its tool, or
/// for a `self` package its own name.
pub open spec fn status_probe_spec(p: PackageView) -> Seq<char> {
    if p.package_type == PackageType::SelfUpdate {
        p.name
    } else {
        tool_of(p.package_type)
    }
}

/// The command that tells `doctor` whether the package is installed; none
/// for a `self` package, whose presence is the probe itself.
pub open spec fn status_check_spec(p: PackageView) -> Option<InvocationView> {
    if p.package_type == PackageType::SelfUpdate {
        None
    } else {
        Some(list_call(p))
    }
}

/// The command to probe for `p`.
pub fn status_probe(p: &Package) -> (r: String)
    ensures
        r@ == status_probe_spec(p@),
{
    match p.package_type {
        PackageType::SelfUpdate => p.name.clone(),
        PackageType::Npm => owned("npm"),
        _ => owned("brew"),
    }
}

/// The installed check to run for `p`, when it has one.
pub fn status_check(p: &Package) -> (r: Option<Invocation>)
    ensures
        match r {
            Some(i) => status_check_spec(p@) == Some(i@),
            None => status_check_spec(p@) is None,
        },
{
    if p.package_type == PackageType::SelfUpdate {
        None
    } else {
        Some(crate::update::list_invocation(p))
    }
}

/// The installed check of `doctor` is the package's own check (`--cask` for
/// a cask, `--formula` for a formula, `npm ls` for an npm package), the same
/// one a real run uses; `doctor` probes for the package's tool, or for a
/// `self` package for its own name, which has no check.
pub proof fn lemma_status_check(p: PackageView)
    ensures
        p.package_type != PackageType::SelfUpdate ==> (status_check_spec(p) matches Some(inv)
            && is_installed_check(p, inv)),
        p.package_type == PackageType::SelfUpdate ==> status_check_spec(p) is None
            && status_probe_spec(p) == p.name,
        p.package_type == PackageType::Npm ==> status_probe_spec(p) == "npm"@,
        (p.package_type == PackageType::Brew || p.package_type == PackageType::Cask)
            ==> status_probe_spec(p) == "brew"@,
{
    assert(list_call(p).args =~= crate::update::list_args(p));
}

/// The status `doctor` shows for a package: for a `self` package,
/// `installed` when its command is found and `missing` when not; for the
/// others, `unknown` when the tool is missing or the check cannot start,
/// else `installed` or `missing` as the check succeeds or not.
pub open spec fn status_spec(t: PackageType, found: bool, checked: Option<bool>) -> Seq<char> {
    if t == PackageType::SelfUpdate {
        if found {
            "installed"@
        } else {
            "missing"@
        }
    } else if !found {
        "unknown"@
    } else {
        match checked {
            Some(true) => "installed"@,
            Some(false) => "missing"@,
            None => "unknown"@,
        }
    }
}

/// The status of a package from what the probe found and, for a package
/// with an installed check, how that check went (`None`: it did not start).
pub fn package_status(p: &Package, found: bool, checked: Option<bool>) -> (r: &'static str)
    ensures
        r@ == status_spec(p.package_type, found, checked),
{
    if p.package_type == PackageType::SelfUpdate {
        if found {
            "installed"
        } else {
            "missing"
        }
    } else if !found {
        "unknown"
    } else {
        match checked {
            Some(true) => "installed",
            Some(false) => "missing",
            None => "unknown",
        }
    }
}

/// A package line of `doctor`: indented, the type in a field of five, the
/// name in a field of 36, then the status.
pub open spec fn doctor_line_spec(p: PackageView, status: Seq<char>) -> Seq<char> {
    "  "@ + pad_right_spec(kind_name(p.package_type), 5) + " "@ + pad_right_spec(p.name, 36) + " "@
        + status
}

/// The line that `doctor` prints for `p` with its status.
pub fn doctor_line(p: &Package, status: &str) -> (r: String)
    ensures
        r@ == doctor_line_spec(p@, status@),
{
    let mut r = owned("  ");
    push_padded(&mut r, p.package_type.as_str(), 5);
    push_str(&mut r, " ");
    push_padded(&mut r, p.name.as_str(), 36);
    push_str(&mut r, " ");
    push_str(&mut r, status);
    r
}

/// A location line of `doctor`: the label, the path, and whether it exists.
pub open spec fn presence_spec(label: Seq<char>, path: Seq<char>, exists: bool) -> Seq<char> {
    label + ": "@ + path + " ("@ + (if exists {
        "exists"@
    } else {
        "missing"@
    }) + ")"@
}

/// The line that `doctor` prints for a file or directory of cliup.
pub fn presence_line(label: &str, path: &str, exists: bool) -> (r: String)
    ensures
        r@ == presence_spec(label@, path@, exists),
{
    let mut r = owned(label);
    push_str(&mut r, ": ");
    push_str(&mut r, path);
    push_str(&mut r, " (");
    push_str(&mut r, if exists { "exists" } else { "missing" });
    push_str(&mut r, ")");
    r
}

/// A tool line of `doctor`: where the tool was found and the first line of
/// its version, or that it is missing.
pub open spec fn tool_line_spec(program: Seq<char>, found: Option<(Seq<char>, Seq<char>)>) -> Seq<
    char,
> {
    match found {
        Some((path, version)) => program + ": "@ + path + " ("@ + first_line_spec(version) + ")"@,
        None => program + ": missing"@,
    }
}

/// The line that `doctor` prints for a tool found at `path` with the
/// version text `version`.
pub fn tool_found_line(program: &str, path: &str, version: &str) -> (r: String)
    ensures
        r@ == tool_line_spec(program@, Some((path@, version@))),
{
    let mut r = owned(program);
    push_str(&mut r, ": ");
    push_str(&mut r, path);
    push_str(&mut r, " (");
    let first = first_line(version);
    push_str(&mut r, first.as_str());
    push_str(&mut r, ")");
    r
}

/// The line that `doctor` prints for a tool that is not found.
pub fn tool_missing_line(program: &str) -> (r: String)
    ensures
        r@ == tool_line_spec(program@, None),
{
    let mut r = owned(program);
    push_str(&mut r, ": missing");
    r
}

/// The tools whose location and `--version` output `doctor` shows.
pub open spec fn version_tools_spec() -> Seq<Seq<char>> {
    seq!["node"@, "npm"@, "brew"@]
}

/// The argument that asks a tool for its version.
pub const VERSION_FLAG: &'static str = "--version";

/// The tool whose location alone `doctor` shows.
pub const LOCATION_TOOL: &'static str = "launchctl";

/// The tools whose version `doctor` shows, in order.
pub fn version_tools() -> (r: Vec<String>)
    ensures
        views(r@) == version_tools_spec(),
{
    let mut r: Vec<String> = Vec::new();
    r.push(owned("node"));
    r.push(owned("npm"));
    r.push(owned("brew"));
    assert(views(r@) =~= version_tools_spec());
    r
}

/// The heading of the package section of `doctor`: it says `empty` when
/// there are no packages, else the package lines follow it.
pub open spec fn packages_heading_spec(count: nat) -> Seq<char> {
    if count == 0 {
        "packages: empty"@
    } else {
        "packages:"@
    }
}

/// The heading of the package section for `count` packages.
pub fn packages_heading(count: usize) -> (r: &'static str)
    ensures
        r@ == packages_heading_spec(count as nat),
{
    if count == 0 {
        "packages: empty"
    } else {
        "packages:"
    }
}

} // verus!
