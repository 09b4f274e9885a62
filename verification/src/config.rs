//! The configuration model: the schedule, the whitelisted packages, their
//! validation, and the edits that `add` and `remove` make to the list.
use vstd::prelude::*;

use crate::text::{is_blank, owned, push_str, str_eq, str_is_blank};

verus! {

broadcast use vstd::seq_lib::group_filter_ensures;

/// The hour of day at which a new configuration schedules its run.
pub const DEFAULT_HOUR: u8 = 10;

/// The minute at which a new configuration schedules its run.
pub const DEFAULT_MINUTE: u8 = 30;

/// How a package is installed, and so how it is updated.
#[derive(Clone, Copy, PartialEq, Eq, Structural, Debug)]
pub enum PackageType {
    Npm,
    Brew,
    Cask,
    SelfUpdate,
}

/// The daily time at which the scheduled run starts.
#[derive(Clone, Copy, PartialEq, Eq, Structural, Debug)]
pub struct Schedule {
    pub hour: u8,
    pub minute: u8,
}

/// One whitelisted tool. `command` is the trusted update command of a
/// `self` package and absent for the other types.
#[derive(Clone, Debug)]
pub struct Package {
    pub package_type: PackageType,
    pub name: String,
    pub command: Option<String>,
}

/// The whole configuration file.
#[derive(Clone, Debug)]
pub struct Config {
    pub schedule: Schedule,
    pub packages: Vec<Package>,
}

/// Why a request was refused.
#[derive(Clone, Debug)]
pub enum CliupError {
    HourOutOfRange,
    MinuteOutOfRange,
    EmptyPackageName,
    MissingSelfCommand { name: String },
    UnexpectedCommand { package_type: PackageType, name: String },
    UnknownPackageType,
    HomeDirNotFound,
    SelfArgsRequired,
    ArgsNotAccepted,
}

// ---------------------------------------------------------------------------
// Views
// ---------------------------------------------------------------------------

pub struct PackageView {
    pub package_type: PackageType,
    pub name: Seq<char>,
    pub command: Option<Seq<char>>,
}

pub struct ConfigView {
    pub schedule: Schedule,
    pub packages: Seq<PackageView>,
}

pub enum ErrorView {
    HourOutOfRange,
    MinuteOutOfRange,
    EmptyPackageName,
    MissingSelfCommand { name: Seq<char> },
    UnexpectedCommand { package_type: PackageType, name: Seq<char> },
    UnknownPackageType,
    HomeDirNotFound,
    SelfArgsRequired,
    ArgsNotAccepted,
}

pub open spec fn opt_view(o: Option<String>) -> Option<Seq<char>> {
    match o {
        Some(s) => Some(s@),
        None => None,
    }
}

impl View for Package {
    type V = PackageView;

    open spec fn view(&self) -> PackageView {
        PackageView { package_type: self.package_type, name: self.name@, command: opt_view(self.command) }
    }
}

pub open spec fn package_views(ps: Seq<Package>) -> Seq<PackageView> {
    ps.map_values(|p: Package| p@)
}

impl View for Config {
    type V = ConfigView;

    open spec fn view(&self) -> ConfigView {
        ConfigView { schedule: self.schedule, packages: package_views(self.packages@) }
    }
}

impl View for CliupError {
    type V = ErrorView;

    open spec fn view(&self) -> ErrorView {
        match self {
            CliupError::HourOutOfRange => ErrorView::HourOutOfRange,
            CliupError::MinuteOutOfRange => ErrorView::MinuteOutOfRange,
            CliupError::EmptyPackageName => ErrorView::EmptyPackageName,
            CliupError::MissingSelfCommand { name } => ErrorView::MissingSelfCommand { name: name@ },
            CliupError::UnexpectedCommand { package_type, name } => ErrorView::UnexpectedCommand {
                package_type: *package_type,
                name: name@,
            },
            CliupError::UnknownPackageType => ErrorView::UnknownPackageType,
            CliupError::HomeDirNotFound => ErrorView::HomeDirNotFound,
            CliupError::SelfArgsRequired => ErrorView::SelfArgsRequired,
            CliupError::ArgsNotAccepted => ErrorView::ArgsNotAccepted,
        }
    }
}

// ---------------------------------------------------------------------------
// Package types
// ---------------------------------------------------------------------------

/// The name under which a package type is written in the configuration and
/// on the command line.
pub open spec fn kind_name(t: PackageType) -> Seq<char> {
    match t {
        PackageType::Npm => "npm"@,
        PackageType::Brew => "brew"@,
        PackageType::Cask => "cask"@,
        PackageType::SelfUpdate => "self"@,
    }
}

/// The package type that a name denotes, if any.
pub open spec fn parse_type_spec(value: Seq<char>) -> Option<PackageType> {
    if value == "npm"@ {
        Some(PackageType::Npm)
    } else if value == "brew"@ {
        Some(PackageType::Brew)
    } else if value == "cask"@ {
        Some(PackageType::Cask)
    } else if value == "self"@ {
        Some(PackageType::SelfUpdate)
    } else {
        None
    }
}

impl PackageType {
    /// The type's name: `npm`, `brew`, `cask` or `self`.
    pub fn as_str(&self) -> (r: &'static str)
        ensures
            r@ == kind_name(*self),
    {
        match self {
            PackageType::Npm => "npm",
            PackageType::Brew => "brew",
            PackageType::Cask => "cask",
            PackageType::SelfUpdate => "self",
        }
    }

    /// The package type named by `value`; any other text is refused.
    pub fn parse(value: &str) -> (r: Result<PackageType, CliupError>)
        ensures
            match r {
                Ok(t) => parse_type_spec(value@) == Some(t),
                Err(e) => parse_type_spec(value@) is None && e@ == ErrorView::UnknownPackageType,
            },
    {
        if str_eq(value, "npm") {
            Ok(PackageType::Npm)
        } else if str_eq(value, "brew") {
            Ok(PackageType::Brew)
        } else if str_eq(value, "cask") {
            Ok(PackageType::Cask)
        } else if str_eq(value, "self") {
            Ok(PackageType::SelfUpdate)
        } else {
            Err(CliupError::UnknownPackageType)
        }
    }
}

/// Parsing the name of a package type gives that type back, and the four
/// names are the only ones that parse.
pub proof fn lemma_type_name_roundtrip(t: PackageType)
    ensures
        parse_type_spec(kind_name(t)) == Some(t),
        forall|v: Seq<char>| #[trigger] parse_type_spec(v) == Some(t) ==> v == kind_name(t),
{
    reveal_strlit("npm");
    reveal_strlit("brew");
    reveal_strlit("cask");
    reveal_strlit("self");
    assert("npm"@.len() == 3 && "brew"@.len() == 4 && "cask"@.len() == 4 && "self"@.len() == 4);
    assert("brew"@[0] == 'b' && "cask"@[0] == 'c' && "self"@[0] == 's');
}

// ---------------------------------------------------------------------------
// Validation
// ---------------------------------------------------------------------------

/// What is wrong with a package, if anything: a blank name; a `self`
/// package whose command is absent or blank; a command on any other type.
pub open spec fn package_problem(p: PackageView) -> Option<ErrorView> {
    if is_blank(p.name) {
        Some(ErrorView::EmptyPackageName)
    } else {
        match p.package_type {
            PackageType::SelfUpdate => match p.command {
                Some(c) => if is_blank(c) {
                    Some(ErrorView::MissingSelfCommand { name: p.name })
                } else {
                    None
                },
                None => Some(ErrorView::MissingSelfCommand { name: p.name }),
            },
            _ => match p.command {
                Some(_) => Some(
                    ErrorView::UnexpectedCommand { package_type: p.package_type, name: p.name },
                ),
                None => None,
            },
        }
    }
}

/// The problem of the first package, from index `i` on, that has one.
pub open spec fn first_problem_from(ps: Seq<PackageView>, i: int) -> Option<ErrorView>
    decreases ps.len() - i,
{
    if 0 <= i < ps.len() {
        match package_problem(ps[i]) {
            Some(e) => Some(e),
            None => first_problem_from(ps, i + 1),
        }
    } else {
        None
    }
}

/// What is wrong with a configuration: the hour, then the minute, then the
/// first package that has a problem.
pub open spec fn config_problem(c: ConfigView) -> Option<ErrorView> {
    if c.schedule.hour > 23 {
        Some(ErrorView::HourOutOfRange)
    } else if c.schedule.minute > 59 {
        Some(ErrorView::MinuteOutOfRange)
    } else {
        first_problem_from(c.packages, 0)
    }
}

/// The schedule is a time of day: an hour in 0..=23 and a minute in 0..=59.
pub open spec fn schedule_valid(s: Schedule) -> bool {
    s.hour <= 23 && s.minute <= 59
}

impl Package {
    /// A package with the given fields, where they pass `validate`.
    pub fn new(package_type: PackageType, name: String, command: Option<String>) -> (r: Result<
        Package,
        CliupError,
    >)
        ensures
            match r {
                Ok(p) => p@ == (PackageView {
                    package_type,
                    name: name@,
                    command: opt_view(command),
                }) && package_problem(p@) is None,
                Err(e) => package_problem(
                    PackageView { package_type, name: name@, command: opt_view(command) },
                ) == Some(e@),
            },
    {
        let package = Package { package_type, name, command };
        match package.validate() {
            Ok(()) => Ok(package),
            Err(e) => Err(e),
        }
    }

    /// Refuses a blank name, a `self` package without a non-blank command,
    /// and a command on an `npm`, `brew` or `cask` package.
    pub fn validate(&self) -> (r: Result<(), CliupError>)
        ensures
            match r {
                Ok(_) => package_problem(self@) is None,
                Err(e) => package_problem(self@) == Some(e@),
            },
    {
        if str_is_blank(self.name.as_str()) {
            return Err(CliupError::EmptyPackageName);
        }
        match self.package_type {
            PackageType::SelfUpdate => {
                let blank = match &self.command {
                    Some(c) => str_is_blank(c.as_str()),
                    None => true,
                };
                if blank {
                    return Err(CliupError::MissingSelfCommand { name: self.name.clone() });
                }
            },
            _ => {
                if self.command.is_some() {
                    return Err(
                        CliupError::UnexpectedCommand {
                            package_type: self.package_type,
                            name: self.name.clone(),
                        },
                    );
                }
            },
        }
        Ok(())
    }
}

/// The package that shares type and name with `p` is already listed.
pub open spec fn listed(ps: Seq<PackageView>, p: PackageView) -> bool {
    exists|i: int|
        0 <= i < ps.len() && #[trigger] ps[i].package_type == p.package_type && ps[i].name
            == p.name
}

/// No two packages share both type and name.
pub open spec fn no_duplicates(ps: Seq<PackageView>) -> bool {
    forall|i: int, j: int|
        0 <= i < j < ps.len() ==> !(ps[i].package_type == ps[j].package_type && ps[i].name
            == ps[j].name)
}

/// Keeps the packages whose name is not `name`.
pub open spec fn name_differs(name: Seq<char>) -> spec_fn(PackageView) -> bool {
    |p: PackageView| p.name != name
}

impl Config {
    /// The configuration that `init` writes: a run at 10:30 and no packages.
    pub fn default_config() -> (r: Config)
        ensures
            r@ == (ConfigView {
                schedule: Schedule { hour: DEFAULT_HOUR, minute: DEFAULT_MINUTE },
                packages: seq![],
            }),
            config_problem(r@) is None,
    {
        let r = Config {
            schedule: Schedule { hour: DEFAULT_HOUR, minute: DEFAULT_MINUTE },
            packages: Vec::new(),
        };
        assert(r@.packages =~= seq![]);
        r
    }

    /// Refuses an hour above 23, then a minute above 59, then the first
    /// package that `Package::validate` refuses.
    pub fn validate(&self) -> (r: Result<(), CliupError>)
        ensures
            match r {
                Ok(_) => config_problem(self@) is None,
                Err(e) => config_problem(self@) == Some(e@),
            },
    {
        if self.schedule.hour > 23 {
            return Err(CliupError::HourOutOfRange);
        }
        if self.schedule.minute > 59 {
            return Err(CliupError::MinuteOutOfRange);
        }
        let ghost ps = self@.packages;
        let mut i: usize = 0;
        while i < self.packages.len()
            invariant
                ps == self@.packages,
                ps.len() == self.packages.len(),
                i <= self.packages.len(),
                self.schedule.hour <= 23,
                self.schedule.minute <= 59,
                first_problem_from(ps, 0) == first_problem_from(ps, i as int),
            decreases self.packages.len() - i,
        {
            let checked = self.packages[i].validate();
            assert(ps[i as int] == self.packages@[i as int]@);
            match checked {
                Ok(()) => {},
                Err(e) => {
                    assert(first_problem_from(ps, i as int) == Some(e@));
                    return Err(e);
                },
            }
            i = i + 1;
        }
        Ok(())
    }

    /// Appends `package` unless a package of the same type and name is
    /// already listed; says whether it appended.
    pub fn add_package(&mut self, package: Package) -> (r: bool)
        ensures
            r == !listed(old(self)@.packages, package@),
            r ==> final(self)@.packages == old(self)@.packages.push(package@),
            !r ==> final(self)@.packages == old(self)@.packages,
            final(self).schedule == old(self).schedule,
    {
        let ghost ps = self@.packages;
        let mut i: usize = 0;
        while i < self.packages.len()
            invariant
                ps == self@.packages,
                ps.len() == self.packages.len(),
                i <= self.packages.len(),
                forall|j: int|
                    0 <= j < i ==> !(#[trigger] ps[j].package_type == package@.package_type
                        && ps[j].name == package@.name),
            decreases self.packages.len() - i,
        {
            let existing = &self.packages[i];
            assert(ps[i as int] == self.packages@[i as int]@);
            if existing.package_type == package.package_type && str_eq(
                existing.name.as_str(),
                package.name.as_str(),
            ) {
                assert(ps[i as int].package_type == package@.package_type && ps[i as int].name
                    == package@.name);
                return false;
            }
            i = i + 1;
        }
        self.packages.push(package);
        assert(self@.packages =~= ps.push(package@));
        true
    }

    /// Deletes every package whose name is `name`, of any type, keeping the
    /// order of the others; returns how many it deleted.
    pub fn remove_by_name(&mut self, name: &str) -> (r: usize)
        ensures
            final(self)@.packages == old(self)@.packages.filter(name_differs(name@)),
            r == old(self)@.packages.len() - final(self)@.packages.len(),
            final(self).schedule == old(self).schedule,
    {
        let mut taken: Vec<Package> = Vec::new();
        std::mem::swap(&mut taken, &mut self.packages);
        let ghost ps = package_views(taken@);
        let ghost pred = name_differs(name@);
        let mut kept: Vec<Package> = Vec::new();
        let n = taken.len();
        for p in it: taken
            invariant
                it.seq() == old(self).packages@,
                ps == package_views(it.seq()),
                n == ps.len(),
                pred == name_differs(name@),
                package_views(kept@) == ps.take(it.index() as int).filter(pred),
                kept.len() <= it.index(),
        {
            let ghost k = it.index() as int;
            assert(p == it.seq()[k]);
            assert(ps[k] == p@);
            assert(ps.take(k + 1).filter(pred) == if pred(ps[k]) {
                ps.take(k).filter(pred).push(ps[k])
            } else {
                ps.take(k).filter(pred)
            }) by {
                reveal_with_fuel(Seq::filter, 1);
                assert(ps.take(k + 1).drop_last() =~= ps.take(k));
            }
            let ghost before = package_views(kept@);
            if !str_eq(p.name.as_str(), name) {
                kept.push(p);
                assert(package_views(kept@) =~= before.push(ps[k]));
            }
        }
        assert(ps.take(n as int) =~= ps);
        proof {
            ps.lemma_filter_len(pred);
        }
        let removed = n - kept.len();
        self.packages = kept;
        removed
    }
}

// ---------------------------------------------------------------------------
// Laws
// ---------------------------------------------------------------------------

/// A configuration passes validation exactly when its schedule is a time of
/// day and every package passes validation.
pub proof fn lemma_validate_iff(c: ConfigView)
    ensures
        config_problem(c) is None <==> (schedule_valid(c.schedule) && forall|i: int|
            0 <= i < c.packages.len() ==> #[trigger] package_problem(c.packages[i]) is None),
{
    lemma_first_problem_none(c.packages, 0);
}

proof fn lemma_first_problem_none(ps: Seq<PackageView>, i: int)
    requires
        0 <= i <= ps.len(),
    ensures
        first_problem_from(ps, i) is None <==> forall|j: int|
            i <= j < ps.len() ==> #[trigger] package_problem(ps[j]) is None,
    decreases ps.len() - i,
{
    if i < ps.len() {
        lemma_first_problem_none(ps, i + 1);
    }
}

/// Adding a package never lists one type and name twice, and afterwards the
/// package's type and name are listed.
pub proof fn lemma_add_keeps_unique(before: ConfigView, p: PackageView, added: bool, after: ConfigView)
    requires
        no_duplicates(before.packages),
        added == !listed(before.packages, p),
        added ==> after.packages == before.packages.push(p),
        !added ==> after.packages == before.packages,
    ensures
        no_duplicates(after.packages),
        listed(after.packages, p),
{
    if added {
        let n = before.packages.len();
        assert(after.packages[n as int] == p);
        assert forall|i: int, j: int| 0 <= i < j < after.packages.len() implies !(
        after.packages[i].package_type == after.packages[j].package_type
            && after.packages[i].name == after.packages[j].name) by {
            if j == n {
                assert(after.packages[i] == before.packages[i]);
            } else {
                assert(after.packages[i] == before.packages[i]);
                assert(after.packages[j] == before.packages[j]);
            }
        }
    }
}

/// After `remove_by_name`, no package has that name, and every package of
/// another name is still there.
pub proof fn lemma_remove_by_name(ps: Seq<PackageView>, name: Seq<char>)
    ensures
        forall|i: int|
            0 <= i < ps.filter(name_differs(name)).len() ==> #[trigger] ps.filter(
                name_differs(name),
            )[i].name != name,
        forall|i: int|
            0 <= i < ps.len() && ps[i].name != name ==> #[trigger] ps.filter(
                name_differs(name),
            ).contains(ps[i]),
        ps.filter(name_differs(name)).len() <= ps.len(),
{
    let f = ps.filter(name_differs(name));
    assert forall|i: int| 0 <= i < f.len() implies #[trigger] f[i].name != name by {
        ps.lemma_filter_pred(name_differs(name), i);
    }
    assert forall|i: int| 0 <= i < ps.len() && ps[i].name != name implies #[trigger] f.contains(
        ps[i],
    ) by {
        ps.lemma_filter_contains(name_differs(name), i);
    }
    ps.lemma_filter_len(name_differs(name));
}

// ---------------------------------------------------------------------------
// Messages
// ---------------------------------------------------------------------------

/// The text shown for each error.
pub open spec fn message_spec(e: ErrorView) -> Seq<char> {
    match e {
        ErrorView::HourOutOfRange => "schedule.hour must be between 0 and 23"@,
        ErrorView::MinuteOutOfRange => "schedule.minute must be between 0 and 59"@,
        ErrorView::EmptyPackageName => "package name cannot be empty"@,
        ErrorView::MissingSelfCommand { name } => "self package `"@ + name
            + "` requires a command"@,
        ErrorView::UnexpectedCommand { package_type, name } => kind_name(package_type)
            + " package `"@ + name + "` must not include a command"@,
        ErrorView::UnknownPackageType => "type must be one of: npm, brew, cask, self"@,
        ErrorView::HomeDirNotFound => "failed to find home directory"@,
        ErrorView::SelfArgsRequired =>
            "self package requires command, for example: cliup add self rustup rustup update"@,
        ErrorView::ArgsNotAccepted => "npm/brew/cask packages do not accept command arguments"@,
    }
}

impl CliupError {
    /// The error's text.
    pub fn message(&self) -> (r: String)
        ensures
            r@ == message_spec(self@),
    {
        match self {
            CliupError::HourOutOfRange => owned("schedule.hour must be between 0 and 23"),
            CliupError::MinuteOutOfRange => owned("schedule.minute must be between 0 and 59"),
            CliupError::EmptyPackageName => owned("package name cannot be empty"),
            CliupError::MissingSelfCommand { name } => {
                let mut s = owned("self package `");
                push_str(&mut s, name.as_str());
                push_str(&mut s, "` requires a command");
                s
            },
            CliupError::UnexpectedCommand { package_type, name } => {
                let mut s = owned(package_type.as_str());
                push_str(&mut s, " package `");
                push_str(&mut s, name.as_str());
                push_str(&mut s, "` must not include a command");
                s
            },
            CliupError::UnknownPackageType => owned("type must be one of: npm, brew, cask, self"),
            CliupError::HomeDirNotFound => owned("failed to find home directory"),
            CliupError::SelfArgsRequired => owned(
                "self package requires command, for example: cliup add self rustup rustup update",
            ),
            CliupError::ArgsNotAccepted => owned(
                "npm/brew/cask packages do not accept command arguments",
            ),
        }
    }
}

} // verus!
