//! How a run is shown and where commands are looked for: shell quoting of
//! command lines, the `PATH` that external commands get, and the places
//! where a command may be found.
use vstd::prelude::*;
use vstd::string::StringSliceAdditionalSpecFns;

use crate::launchd::{push_quote_body, shell_quote_spec};
use crate::paths::{join_bytes, join_bytes_spec, push_bytes};
use crate::text::{
    chars_of, decode_lossy, first_line_spec, owned, push_char, push_str, split_lines,
    trim, trim_spec, utf8_lossy, views,
};

verus! {

// ---------------------------------------------------------------------------
// Quoting and displaying command lines
// ---------------------------------------------------------------------------

/// A character that needs no quoting in a shell word.
pub open spec fn is_safe_char(c: char) -> bool {
    ||| ('a' <= c && c <= 'z')
    ||| ('A' <= c && c <= 'Z')
    ||| ('0' <= c && c <= '9')
    ||| c == '-'
    ||| c == '_'
    ||| c == '.'
    ||| c == '/'
    ||| c == '@'
    ||| c == ':'
    ||| c == '='
    ||| c == '+'
}

/// Every character of `s` needs no quoting.
pub open spec fn all_safe(s: Seq<char>) -> bool {
    forall|i: int| 0 <= i < s.len() ==> #[trigger] is_safe_char(s[i])
}

/// `s` as a shell word: as it is when every character is safe, else in
/// single quotes.
pub open spec fn sh_quote_spec(s: Seq<char>) -> Seq<char> {
    if all_safe(s) {
        s
    } else {
        shell_quote_spec(s)
    }
}

fn safe_char(c: char) -> (r: bool)
    ensures
        r == is_safe_char(c),
{
    ('a' <= c && c <= 'z') || ('A' <= c && c <= 'Z') || ('0' <= c && c <= '9') || c == '-' || c
        == '_' || c == '.' || c == '/' || c == '@' || c == ':' || c == '=' || c == '+'
}

/// `value` as a shell word, quoted only where it has to be.
pub fn shell_quote(value: &str) -> (r: String)
    ensures
        r@ == sh_quote_spec(value@),
{
    let cs = chars_of(value);
    let mut i: usize = 0;
    let mut safe = true;
    while i < cs.len()
        invariant
            cs@ == value@,
            i <= cs.len(),
            safe == forall|j: int| 0 <= j < i ==> #[trigger] is_safe_char(cs@[j]),
        decreases cs.len() - i,
    {
        if !safe_char(cs[i]) {
            safe = false;
        }
        i = i + 1;
    }
    if safe {
        owned(value)
    } else {
        let mut r = String::new();
        push_char(&mut r, '\'');
        push_quote_body(&mut r, &cs);
        push_char(&mut r, '\'');
        assert(r@ =~= shell_quote_spec(value@));
        r
    }
}

/// The arguments as they follow the program on a displayed command line:
/// each one after a space, quoted where it has to be.
pub open spec fn args_text(args: Seq<Seq<char>>) -> Seq<char>
    decreases args.len(),
{
    if args.len() == 0 {
        seq![]
    } else {
        args_text(args.drop_last()) + seq![' '] + sh_quote_spec(args.last())
    }
}

/// A command line as cliup displays and logs it.
pub open spec fn display_spec(program: Seq<char>, args: Seq<Seq<char>>) -> Seq<char> {
    program + args_text(args)
}

/// The command line `program args...` as cliup displays it.
pub fn command_display(program: &str, args: &Vec<String>) -> (r: String)
    ensures
        r@ == display_spec(program@, views(args@)),
{
    let mut r = owned(program);
    let mut i: usize = 0;
    while i < args.len()
        invariant
            i <= args.len(),
            r@ == program@ + args_text(views(args@).take(i as int)),
        decreases args.len() - i,
    {
        push_char(&mut r, ' ');
        let q = shell_quote(args[i].as_str());
        push_str(&mut r, q.as_str());
        proof {
            let vs = views(args@);
            assert(vs.take(i + 1).drop_last() =~= vs.take(i as int));
            assert(vs.take(i + 1).last() == args@[i as int]@);
        }
        assert(r@ =~= program@ + args_text(views(args@).take(i + 1)));
        i = i + 1;
    }
    assert(views(args@).take(args.len() as int) =~= views(args@));
    r
}

/// The first line of `value`, or all of it when it has none.
pub fn first_line(value: &str) -> (r: String)
    ensures
        r@ == first_line_spec(value@),
{
    let lines = split_lines(value);
    if lines.len() > 0 {
        assert(views(lines@)[0] == lines@[0]@);
        lines[0].clone()
    } else {
        owned(value)
    }
}

/// What `doctor` shows as a tool's version: its trimmed stdout, or its
/// trimmed stderr when stdout is empty, or `version unknown` when that text
/// is empty.
pub open spec fn version_spec(stdout: Seq<u8>, stderr: Seq<u8>) -> Seq<char> {
    let text = if stdout.len() == 0 {
        trim_spec(utf8_lossy(stderr))
    } else {
        trim_spec(utf8_lossy(stdout))
    };
    if text.len() == 0 {
        "version unknown"@
    } else {
        text
    }
}

/// A tool's version text from the output of `tool --version`.
pub fn version_text(stdout: &[u8], stderr: &[u8]) -> (r: String)
    ensures
        r@ == version_spec(stdout@, stderr@),
{
    let raw = if stdout.len() == 0 {
        decode_lossy(stderr)
    } else {
        decode_lossy(stdout)
    };
    let text = trim(raw.as_str());
    if text.as_str().is_empty() {
        owned("version unknown")
    } else {
        text
    }
}

// ---------------------------------------------------------------------------
// Search paths
// ---------------------------------------------------------------------------
//
// Paths and search paths are handled as the bytes of Unix paths, as `Path`
// and `OsString` hold them.

/// The byte views of a sequence of byte vectors.
pub open spec fn byte_views(v: Seq<Vec<u8>>) -> Seq<Seq<u8>> {
    v.map_values(|b: Vec<u8>| b@)
}

/// The pieces of `s` between occurrences of `sep`, read from the left: the
/// pieces closed so far and the one still open.
pub open spec fn scan_split(s: Seq<u8>, sep: u8) -> (Seq<Seq<u8>>, Seq<u8>)
    decreases s.len(),
{
    if s.len() == 0 {
        (seq![], seq![])
    } else {
        let (done, cur) = scan_split(s.drop_last(), sep);
        if s.last() == sep {
            (done.push(cur), seq![])
        } else {
            (done, cur.push(s.last()))
        }
    }
}

/// The pieces of `s` between occurrences of `sep`, empty ones included; an
/// empty `s` is one empty piece (as `env::split_paths` gives them on Unix).
pub open spec fn split_spec(s: Seq<u8>, sep: u8) -> Seq<Seq<u8>> {
    let (done, cur) = scan_split(s, sep);
    done.push(cur)
}

/// The pieces of `s` between occurrences of `sep`.
pub fn split_on(s: &[u8], sep: u8) -> (r: Vec<Vec<u8>>)
    ensures
        byte_views(r@) == split_spec(s@, sep),
{
    let mut done: Vec<Vec<u8>> = Vec::new();
    let mut cur: Vec<u8> = Vec::new();
    let mut i: usize = 0;
    while i < s.len()
        invariant
            i <= s@.len(),
            (byte_views(done@), cur@) == scan_split(s@.take(i as int), sep),
        decreases s.len() - i,
    {
        let c = s[i];
        assert(s@.take(i + 1).drop_last() =~= s@.take(i as int));
        if c == sep {
            let ghost before = byte_views(done@);
            done.push(cur);
            cur = Vec::new();
            assert(byte_views(done@) =~= before.push(scan_split(s@.take(i as int), sep).1));
        } else {
            cur.push(c);
        }
        i = i + 1;
    }
    assert(s@.take(s@.len() as int) =~= s@);
    let ghost before = byte_views(done@);
    done.push(cur);
    assert(byte_views(done@) =~= before.push(scan_split(s@, sep).1));
    done
}

/// The path component `.`.
pub open spec fn dot() -> Seq<u8> {
    seq![46u8]
}

/// The components of a path as `Path::components` sees them on Unix: a
/// leading `/` as the root; the pieces between separators, without empty
/// pieces and without `.` except a leading one.
pub open spec fn components_spec(p: Seq<u8>) -> (bool, Seq<Seq<u8>>) {
    let pieces = split_spec(p, 47u8);
    let normal = pieces.filter(normal_piece());
    let root = p.len() > 0 && p[0] == 47u8;
    if pieces[0] == dot() {
        (root, seq![dot()] + normal)
    } else {
        (root, normal)
    }
}

/// Two paths are equal as `Path`s: the same components.
pub open spec fn same_path(a: Seq<u8>, b: Seq<u8>) -> bool {
    components_spec(a) == components_spec(b)
}

broadcast use vstd::seq_lib::group_filter_ensures;

/// Keeps the pieces that are neither empty nor `.`.
pub open spec fn normal_piece() -> spec_fn(Seq<u8>) -> bool {
    |x: Seq<u8>| x.len() > 0 && x != dot()
}

fn is_dot(piece: &Vec<u8>) -> (r: bool)
    ensures
        r == (piece@ == dot()),
{
    if piece.len() == 1 && piece[0] == 46u8 {
        assert(piece@ =~= dot());
        true
    } else {
        false
    }
}

fn components(p: &[u8]) -> (r: (bool, Vec<Vec<u8>>))
    ensures
        (r.0, byte_views(r.1@)) == components_spec(p@),
{
    let pieces = split_on(p, 47u8);
    let ghost ps = byte_views(pieces@);
    let ghost pred = normal_piece();
    let mut out: Vec<Vec<u8>> = Vec::new();
    assert(ps.len() > 0);
    let lead_dot = is_dot(&pieces[0]);
    assert(ps[0] == pieces@[0]@);
    if lead_dot {
        let mut d: Vec<u8> = Vec::new();
        d.push(46u8);
        assert(d@ =~= dot());
        out.push(d);
    }
    let ghost head: Seq<Seq<u8>> = if lead_dot { seq![dot()] } else { seq![] };
    assert(byte_views(out@) =~= head + ps.take(0).filter(pred)) by {
        reveal_with_fuel(Seq::filter, 1);
    }
    let mut i: usize = 0;
    while i < pieces.len()
        invariant
            ps == byte_views(pieces@),
            pred == normal_piece(),
            i <= pieces.len(),
            byte_views(out@) == head + ps.take(i as int).filter(pred),
        decreases pieces.len() - i,
    {
        let piece = &pieces[i];
        let keep = piece.len() > 0 && !is_dot(piece);
        proof {
            assert(ps[i as int] == piece@);
            assert(ps.take(i + 1).drop_last() =~= ps.take(i as int));
            reveal_with_fuel(Seq::filter, 1);
            assert(keep == pred(ps[i as int]));
        }
        let ghost before = byte_views(out@);
        if keep {
            out.push(piece.clone());
            assert(byte_views(out@) =~= before.push(ps[i as int]));
        }
        assert(byte_views(out@) =~= head + ps.take(i + 1).filter(pred));
        i = i + 1;
    }
    assert(ps.take(pieces.len() as int) =~= ps);
    let root = p.len() > 0 && p[0] == 47u8;
    (root, out)
}

fn same_bytes(a: &Vec<u8>, b: &Vec<u8>) -> (r: bool)
    ensures
        r == (a@ == b@),
{
    if a.len() != b.len() {
        return false;
    }
    let mut i: usize = 0;
    while i < a.len()
        invariant
            a.len() == b.len(),
            i <= a.len(),
            forall|j: int| 0 <= j < i ==> a@[j] == b@[j],
        decreases a.len() - i,
    {
        if a[i] != b[i] {
            return false;
        }
        i = i + 1;
    }
    assert(a@ =~= b@);
    true
}

fn same_byte_lists(a: &Vec<Vec<u8>>, b: &Vec<Vec<u8>>) -> (r: bool)
    ensures
        r == (byte_views(a@) == byte_views(b@)),
{
    if a.len() != b.len() {
        assert(byte_views(a@).len() != byte_views(b@).len());
        return false;
    }
    let mut i: usize = 0;
    while i < a.len()
        invariant
            a.len() == b.len(),
            i <= a.len(),
            forall|j: int| 0 <= j < i ==> #[trigger] a@[j]@ == b@[j]@,
        decreases a.len() - i,
    {
        if !same_bytes(&a[i], &b[i]) {
            assert(byte_views(a@)[i as int] != byte_views(b@)[i as int]);
            return false;
        }
        i = i + 1;
    }
    assert(byte_views(a@) =~= byte_views(b@));
    true
}

/// Whether `a` and `b` name the same path, component by component.
pub fn path_eq(a: &[u8], b: &[u8]) -> (r: bool)
    ensures
        r == same_path(a@, b@),
{
    let (ra, ca) = components(a);
    let (rb, cb) = components(b);
    ra == rb && same_byte_lists(&ca, &cb)
}

/// The directories that external commands are always looked for in first.
pub open spec fn base_paths() -> Seq<Seq<u8>> {
    seq![
        "/opt/homebrew/bin".spec_bytes(),
        "/usr/local/bin".spec_bytes(),
        "/usr/bin".spec_bytes(),
        "/bin".spec_bytes(),
        "/usr/sbin".spec_bytes(),
        "/sbin".spec_bytes(),
    ]
}

/// The user directories, relative to the home directory, where tools of
/// `self` packages are often installed.
pub open spec fn user_bin_suffixes() -> Seq<Seq<u8>> {
    seq![
        ".local/bin".spec_bytes(),
        ".cargo/bin".spec_bytes(),
        ".bun/bin".spec_bytes(),
        "bin".spec_bytes(),
    ]
}

fn bytes_of(s: &str) -> (r: Vec<u8>)
    ensures
        r@ == s.spec_bytes(),
{
    let mut r: Vec<u8> = Vec::new();
    push_bytes(&mut r, s.as_bytes());
    assert(r@ =~= s.spec_bytes());
    r
}

fn base_path_list() -> (r: Vec<Vec<u8>>)
    ensures
        byte_views(r@) == base_paths(),
{
    let mut r: Vec<Vec<u8>> = Vec::new();
    r.push(bytes_of("/opt/homebrew/bin"));
    r.push(bytes_of("/usr/local/bin"));
    r.push(bytes_of("/usr/bin"));
    r.push(bytes_of("/bin"));
    r.push(bytes_of("/usr/sbin"));
    r.push(bytes_of("/sbin"));
    assert(byte_views(r@) =~= base_paths());
    r
}

/// `entries` with `candidate` appended unless an entry is the same path.
pub open spec fn add_unique(entries: Seq<Seq<u8>>, candidate: Seq<u8>) -> Seq<Seq<u8>> {
    if exists|i: int| 0 <= i < entries.len() && #[trigger] same_path(entries[i], candidate) {
        entries
    } else {
        entries.push(candidate)
    }
}

/// `entries` with each candidate added in turn by `add_unique`.
pub open spec fn add_all(entries: Seq<Seq<u8>>, candidates: Seq<Seq<u8>>) -> Seq<Seq<u8>>
    decreases candidates.len(),
{
    if candidates.len() == 0 {
        entries
    } else {
        add_unique(add_all(entries, candidates.drop_last()), candidates.last())
    }
}

/// Joins a directory to `base`.
pub open spec fn joined_under(base: Seq<u8>) -> spec_fn(Seq<u8>) -> Seq<u8> {
    |s: Seq<u8>| join_bytes_spec(base, s)
}

/// Joins `part` to a directory.
pub open spec fn joined_with(part: Seq<u8>) -> spec_fn(Seq<u8>) -> Seq<u8> {
    |dir: Seq<u8>| join_bytes_spec(dir, part)
}

/// Keeps the non-empty pieces.
pub open spec fn nonempty_piece() -> spec_fn(Seq<u8>) -> bool {
    |x: Seq<u8>| x.len() > 0
}

/// The directories offered after the base ones: the user directories under
/// `$HOME` when it is set, then the non-empty entries of `$PATH`.
pub open spec fn path_candidates(home: Option<Seq<u8>>, path: Option<Seq<u8>>) -> Seq<Seq<u8>> {
    let from_home = match home {
        Some(h) => user_bin_suffixes().map_values(joined_under(h)),
        None => seq![],
    };
    let from_path = match path {
        Some(p) => split_spec(p, 58u8).filter(nonempty_piece()),
        None => seq![],
    };
    from_home + from_path
}

/// The directories of the `PATH` that external commands get.
pub open spec fn effective_entries(home: Option<Seq<u8>>, path: Option<Seq<u8>>) -> Seq<Seq<u8>> {
    add_all(base_paths(), path_candidates(home, path))
}

/// The entries joined by `:`, or nothing when an entry holds a `:`, as
/// `env::join_paths` does on Unix.
pub open spec fn join_paths_spec(entries: Seq<Seq<u8>>) -> Option<Seq<u8>>
    decreases entries.len(),
{
    if entries.len() == 0 {
        Some(seq![])
    } else if entries.last().contains(58u8) {
        None
    } else if entries.len() == 1 {
        Some(entries.last())
    } else {
        match join_paths_spec(entries.drop_last()) {
            Some(s) => Some(s + seq![58u8] + entries.last()),
            None => None,
        }
    }
}

/// The `PATH` that external commands get: the effective entries joined by
/// `:`, or the base directories alone when they cannot be joined.
pub open spec fn effective_path_spec(home: Option<Seq<u8>>, path: Option<Seq<u8>>) -> Seq<u8> {
    match join_paths_spec(effective_entries(home, path)) {
        Some(s) => s,
        None => "/opt/homebrew/bin:/usr/local/bin:/usr/bin:/bin:/usr/sbin:/sbin".spec_bytes(),
    }
}

/// Appends `candidate` to `entries` unless an entry is the same path.
fn push_unique(entries: &mut Vec<Vec<u8>>, candidate: Vec<u8>)
    ensures
        byte_views(final(entries)@) == add_unique(byte_views(old(entries)@), candidate@),
{
    let ghost es = byte_views(entries@);
    let mut i: usize = 0;
    while i < entries.len()
        invariant
            es == byte_views(entries@),
            i <= entries.len(),
            forall|j: int| 0 <= j < i ==> !#[trigger] same_path(es[j], candidate@),
        decreases entries.len() - i,
    {
        if path_eq(entries[i].as_slice(), candidate.as_slice()) {
            assert(same_path(es[i as int], candidate@));
            return;
        }
        i = i + 1;
    }
    entries.push(candidate);
    assert(byte_views(entries@) =~= es.push(candidate@));
}

/// Adds each of `candidates` in turn.
fn push_all_unique(entries: &mut Vec<Vec<u8>>, candidates: Vec<Vec<u8>>)
    ensures
        byte_views(final(entries)@) == add_all(byte_views(old(entries)@), byte_views(candidates@)),
{
    let ghost start = byte_views(entries@);
    let ghost cs = byte_views(candidates@);
    let ghost orig = candidates@;
    let n = candidates.len();
    for c in it: candidates
        invariant
            it.seq() == orig,
            cs == byte_views(it.seq()),
            n == cs.len(),
            byte_views(entries@) == add_all(start, cs.take(it.index() as int)),
    {
        let ghost k = it.index() as int;
        assert(c == it.seq()[k]);
        assert(cs.take(k + 1).drop_last() =~= cs.take(k));
        assert(cs.take(k + 1).last() == c@);
        push_unique(entries, c);
    }
    assert(cs.take(n as int) =~= cs);
}

pub open spec fn opt_bytes(o: Option<&[u8]>) -> Option<Seq<u8>> {
    match o {
        Some(b) => Some(b@),
        None => None,
    }
}

/// The directories offered after the base ones.
fn candidates_list(home: Option<&[u8]>, path: Option<&[u8]>) -> (r: Vec<Vec<u8>>)
    ensures
        byte_views(r@) == path_candidates(opt_bytes(home), opt_bytes(path)),
{
    let mut r: Vec<Vec<u8>> = Vec::new();
    let ghost from_home: Seq<Seq<u8>> = match opt_bytes(home) {
        Some(h) => user_bin_suffixes().map_values(joined_under(h)),
        None => seq![],
    };
    match home {
        Some(h) => {
            r.push(join_bytes(h, ".local/bin"));
            r.push(join_bytes(h, ".cargo/bin"));
            r.push(join_bytes(h, ".bun/bin"));
            r.push(join_bytes(h, "bin"));
        },
        None => {},
    }
    assert(byte_views(r@) =~= from_home);
    let ghost pred = nonempty_piece();
    let ghost from_path: Seq<Seq<u8>> = match opt_bytes(path) {
        Some(p) => split_spec(p, 58u8).filter(pred),
        None => seq![],
    };
    match path {
        Some(p) => {
            let parts = split_on(p, 58u8);
            let ghost ps = byte_views(parts@);
            assert(ps.take(0).filter(pred) =~= seq![]) by {
                reveal_with_fuel(Seq::filter, 1);
            }
            assert(byte_views(r@) =~= from_home + ps.take(0).filter(pred));
            let mut i: usize = 0;
            while i < parts.len()
                invariant
                    ps == byte_views(parts@),
                    ps == split_spec(p@, 58u8),
                    i <= parts.len(),
                    byte_views(r@) == from_home + ps.take(i as int).filter(pred),
                    pred == nonempty_piece(),
                decreases parts.len() - i,
            {
                proof {
                    assert(ps[i as int] == parts@[i as int]@);
                    assert(ps.take(i + 1).drop_last() =~= ps.take(i as int));
                    reveal_with_fuel(Seq::filter, 1);
                }
                let ghost before = byte_views(r@);
                if parts[i].len() > 0 {
                    r.push(parts[i].clone());
                    assert(byte_views(r@) =~= before.push(ps[i as int]));
                }
                assert(byte_views(r@) =~= from_home + ps.take(i + 1).filter(pred));
                i = i + 1;
            }
            assert(ps.take(parts.len() as int) =~= ps);
        },
        None => {},
    }
    assert(byte_views(r@) =~= from_home + from_path);
    r
}

/// The directories of the `PATH` that external commands get, from the
/// bytes of `$HOME` and `$PATH`.
pub fn effective_path_entries(home: Option<&[u8]>, path: Option<&[u8]>) -> (r: Vec<Vec<u8>>)
    ensures
        byte_views(r@) == effective_entries(opt_bytes(home), opt_bytes(path)),
{
    let mut entries = base_path_list();
    let candidates = candidates_list(home, path);
    push_all_unique(&mut entries, candidates);
    entries
}

/// The entries joined by `:`, or `None` when one of them holds a `:`.
pub fn join_paths(entries: &Vec<Vec<u8>>) -> (r: Option<Vec<u8>>)
    ensures
        match r {
            Some(s) => join_paths_spec(byte_views(entries@)) == Some(s@),
            None => join_paths_spec(byte_views(entries@)) is None,
        },
{
    let mut out: Vec<u8> = Vec::new();
    let mut i: usize = 0;
    assert(byte_views(entries@).take(0) =~= seq![]);
    while i < entries.len()
        invariant
            i <= entries.len(),
            join_paths_spec(byte_views(entries@).take(i as int)) == Some(out@),
        decreases entries.len() - i,
    {
        let ghost es = byte_views(entries@);
        assert(es.take(i + 1).drop_last() =~= es.take(i as int));
        assert(es.take(i + 1).last() == entries@[i as int]@);
        let cs = &entries[i];
        let mut k: usize = 0;
        while k < cs.len()
            invariant
                k <= cs.len(),
                i < entries.len(),
                es == byte_views(entries@),
                cs@ == entries@[i as int]@,
                es.take(i + 1).last() == entries@[i as int]@,
                join_paths_spec(es.take(i as int)) == Some(out@),
                forall|j: int| 0 <= j < k ==> cs@[j] != 58u8,
            decreases cs.len() - k,
        {
            if cs[k] == 58u8 {
                assert(es.take(i + 1).last().contains(58u8)) by {
                    assert(es.take(i + 1).last()[k as int] == 58u8);
                }
                proof {
                    lemma_join_paths_none_extends(es, i + 1);
                }
                return None;
            }
            k = k + 1;
        }
        assert(!es.take(i + 1).last().contains(58u8));
        if i > 0 {
            out.push(58u8);
        }
        push_bytes(&mut out, cs.as_slice());
        assert(out@ =~= join_paths_spec(es.take(i + 1))->0);
        i = i + 1;
    }
    assert(byte_views(entries@).take(entries.len() as int) =~= byte_views(entries@));
    Some(out)
}

proof fn lemma_join_paths_none_extends(es: Seq<Seq<u8>>, m: int)
    requires
        0 < m <= es.len(),
        join_paths_spec(es.take(m)) is None,
    ensures
        join_paths_spec(es) is None,
    decreases es.len() - m,
{
    if m < es.len() {
        assert(es.take(m + 1).drop_last() =~= es.take(m));
        lemma_join_paths_none_extends(es, m + 1);
    } else {
        assert(es.take(m) =~= es);
    }
}

/// The `PATH` that external commands get, from the bytes of `$HOME` and
/// `$PATH`: the base directories, then the user directories, then the
/// entries of `$PATH`, each once.
pub fn effective_path(home: Option<&[u8]>, path: Option<&[u8]>) -> (r: Vec<u8>)
    ensures
        r@ == effective_path_spec(opt_bytes(home), opt_bytes(path)),
{
    let entries = effective_path_entries(home, path);
    match join_paths(&entries) {
        Some(s) => s,
        None => bytes_of("/opt/homebrew/bin:/usr/local/bin:/usr/bin:/bin:/usr/sbin:/sbin"),
    }
}

/// Where `command` may be found, in the order to try: itself when it holds
/// a `/`, else the command joined to each entry of the search path.
pub open spec fn command_candidates_spec(command: &str, env_path: Seq<u8>) -> Seq<Seq<u8>> {
    if command@.contains('/') {
        seq![command.spec_bytes()]
    } else {
        split_spec(env_path, 58u8).map_values(joined_with(command.spec_bytes()))
    }
}

/// The files to test, in order, when looking for `command` on `env_path`;
/// the command is the first of them that is an executable file.
pub fn command_candidates(command: &str, env_path: &[u8]) -> (r: Vec<Vec<u8>>)
    ensures
        byte_views(r@) == command_candidates_spec(command, env_path@),
{
    let cs = chars_of(command);
    let mut k: usize = 0;
    while k < cs.len()
        invariant
            cs@ == command@,
            k <= cs.len(),
            forall|j: int| 0 <= j < k ==> cs@[j] != '/',
        decreases cs.len() - k,
    {
        if cs[k] == '/' {
            assert(command@.contains('/')) by {
                assert(command@[k as int] == '/');
            }
            let mut r: Vec<Vec<u8>> = Vec::new();
            r.push(bytes_of(command));
            assert(byte_views(r@) =~= seq![command.spec_bytes()]);
            return r;
        }
        k = k + 1;
    }
    assert(!command@.contains('/'));
    let dirs = split_on(env_path, 58u8);
    let ghost ds = byte_views(dirs@);
    let mut r: Vec<Vec<u8>> = Vec::new();
    let mut i: usize = 0;
    while i < dirs.len()
        invariant
            ds == byte_views(dirs@),
            i <= dirs.len(),
            byte_views(r@) == ds.take(i as int).map_values(joined_with(command.spec_bytes())),
        decreases dirs.len() - i,
    {
        let joined = join_bytes(dirs[i].as_slice(), command);
        let ghost before = byte_views(r@);
        let ghost jv = joined@;
        r.push(joined);
        proof {
            let f = joined_with(command.spec_bytes());
            assert(ds[i as int] == dirs@[i as int]@);
            assert(jv == f(ds[i as int]));
            assert(byte_views(r@) =~= before.push(jv));
            assert(ds.take(i + 1).map_values(f) =~= ds.take(i as int).map_values(f).push(
                f(ds[i as int]),
            ));
        }
        i = i + 1;
    }
    assert(ds.take(dirs.len() as int) =~= ds);
    r
}

// ---------------------------------------------------------------------------
// Laws
// ---------------------------------------------------------------------------

/// Some entry of `entries` is the same path as `c`.
pub open spec fn covered(entries: Seq<Seq<u8>>, c: Seq<u8>) -> bool {
    exists|i: int| 0 <= i < entries.len() && #[trigger] same_path(entries[i], c)
}

/// What `add_all` adds is new: the starting entries stay in front, each
/// added entry is a different path from every entry before it, and every
/// candidate is the same path as some entry.
pub proof fn lemma_add_all(entries: Seq<Seq<u8>>, candidates: Seq<Seq<u8>>)
    ensures
        add_all(entries, candidates).len() >= entries.len(),
        add_all(entries, candidates).take(entries.len() as int) == entries,
        forall|i: int, j: int|
            0 <= i < j < add_all(entries, candidates).len() && j >= entries.len() ==> !same_path(
                #[trigger] add_all(entries, candidates)[i],
                #[trigger] add_all(entries, candidates)[j],
            ),
        forall|k: int|
            0 <= k < candidates.len() ==> covered(
                add_all(entries, candidates),
                #[trigger] candidates[k],
            ),
    decreases candidates.len(),
{
    if candidates.len() == 0 {
        assert(entries.take(entries.len() as int) =~= entries);
    } else {
        let prev = add_all(entries, candidates.drop_last());
        let c = candidates.last();
        lemma_add_all(entries, candidates.drop_last());
        let next = add_all(entries, candidates);
        assert(next == add_unique(prev, c));
        if exists|i: int| 0 <= i < prev.len() && #[trigger] same_path(prev[i], c) {
            assert(next == prev);
        } else {
            assert(next == prev.push(c));
            assert(next.take(entries.len() as int) =~= prev.take(entries.len() as int));
            assert forall|i: int, j: int|
                0 <= i < j < next.len() && j >= entries.len() implies !same_path(
                #[trigger] next[i],
                #[trigger] next[j],
            ) by {
                if j == next.len() - 1 {
                    assert(next[i] == prev[i]);
                } else {
                    assert(next[i] == prev[i]);
                    assert(next[j] == prev[j]);
                }
            }
            assert(same_path(next[next.len() - 1], c));
        }
        assert forall|k: int| 0 <= k < candidates.len() implies covered(
            next,
            #[trigger] candidates[k],
        ) by {
            if k == candidates.len() - 1 {
                if exists|i: int| 0 <= i < prev.len() && #[trigger] same_path(prev[i], c) {
                    let i = choose|i: int| 0 <= i < prev.len() && #[trigger] same_path(prev[i], c);
                    assert(same_path(next[i], candidates[k]));
                } else {
                    assert(same_path(next[next.len() - 1], candidates[k]));
                }
            } else {
                assert(candidates[k] == candidates.drop_last()[k]);
                assert(covered(prev, candidates.drop_last()[k]));
                let i = choose|i: int|
                    0 <= i < prev.len() && #[trigger] same_path(prev[i], candidates.drop_last()[k]);
                assert(next[i] == prev[i]);
                assert(same_path(next[i], candidates[k]));
            }
        }
    }
}

/// The `PATH` of external commands starts with the base directories, holds
/// every user directory and every non-empty entry of `$PATH` (up to path
/// equality), and adds no directory twice.
pub proof fn lemma_effective_entries(home: Option<Seq<u8>>, path: Option<Seq<u8>>)
    ensures
        effective_entries(home, path).take(6) == base_paths(),
        forall|i: int, j: int|
            0 <= i < j < effective_entries(home, path).len() && j >= 6 ==> !same_path(
                #[trigger] effective_entries(home, path)[i],
                #[trigger] effective_entries(home, path)[j],
            ),
        forall|k: int|
            0 <= k < path_candidates(home, path).len() ==> covered(
                effective_entries(home, path),
                #[trigger] path_candidates(home, path)[k],
            ),
{
    lemma_add_all(base_paths(), path_candidates(home, path));
}

proof fn lemma_scan_without_sep(b: Seq<u8>, sep: u8)
    requires
        !b.contains(sep),
    ensures
        scan_split(b, sep) == (Seq::<Seq<u8>>::empty(), b),
    decreases b.len(),
{
    if b.len() > 0 {
        assert(!b.drop_last().contains(sep)) by {
            if b.drop_last().contains(sep) {
                let k = choose|k: int| 0 <= k < b.drop_last().len() && b.drop_last()[k] == sep;
                assert(b[k] == sep);
            }
        }
        lemma_scan_without_sep(b.drop_last(), sep);
        assert(b.last() == b[b.len() - 1]);
        assert(b.drop_last().push(b.last()) =~= b);
    }
}

proof fn lemma_scan_after_sep(a: Seq<u8>, b: Seq<u8>, sep: u8)
    ensures
        scan_split(a + seq![sep] + b, sep) == (split_spec(a, sep) + scan_split(b, sep).0, scan_split(
            b,
            sep,
        ).1),
    decreases b.len(),
{
    let s = a + seq![sep] + b;
    if b.len() == 0 {
        assert(s.drop_last() =~= a);
        assert(s.last() == sep);
        assert(split_spec(a, sep) + Seq::<Seq<u8>>::empty() =~= split_spec(a, sep));
    } else {
        assert(s.drop_last() =~= a + seq![sep] + b.drop_last());
        assert(s.last() == b.last());
        lemma_scan_after_sep(a, b.drop_last(), sep);
        let (d, c) = scan_split(b.drop_last(), sep);
        if b.last() == sep {
            assert(split_spec(a, sep) + d.push(c) =~= (split_spec(a, sep) + d).push(c));
        }
    }
}

/// Splitting the joined `PATH` at `:` gives its entries back, when there is
/// at least one entry and no entry holds a `:`.
pub proof fn lemma_split_join_paths(es: Seq<Seq<u8>>)
    requires
        es.len() > 0,
        forall|i: int| 0 <= i < es.len() ==> !(#[trigger] es[i]).contains(58u8),
    ensures
        join_paths_spec(es) is Some,
        split_spec(join_paths_spec(es)->0, 58u8) == es,
    decreases es.len(),
{
    let last = es.last();
    assert(last == es[es.len() - 1]);
    lemma_scan_without_sep(last, 58u8);
    if es.len() == 1 {
        assert(split_spec(last, 58u8) =~= es);
    } else {
        let init = es.drop_last();
        assert forall|i: int| 0 <= i < init.len() implies !(#[trigger] init[i]).contains(58u8) by {
            assert(init[i] == es[i]);
        }
        lemma_split_join_paths(init);
        let j = join_paths_spec(init)->0;
        lemma_scan_after_sep(j, last, 58u8);
        assert(split_spec(j + seq![58u8] + last, 58u8) =~= init + seq![last]);
        assert(init + seq![last] =~= es);
    }
}

/// The `PATH` given to external commands splits back into its entries.
pub proof fn lemma_effective_path_splits(home: Option<Seq<u8>>, path: Option<Seq<u8>>)
    requires
        forall|i: int|
            0 <= i < effective_entries(home, path).len() ==> !(#[trigger] effective_entries(
                home,
                path,
            )[i]).contains(58u8),
    ensures
        split_spec(effective_path_spec(home, path), 58u8) == effective_entries(home, path),
{
    lemma_add_all(base_paths(), path_candidates(home, path));
    assert(base_paths().len() == 6);
    lemma_split_join_paths(effective_entries(home, path));
}

} // verus!
