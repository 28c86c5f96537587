//! Running shell commands: the directories searched for programs, how a
//! program name is resolved in them, and the result of a finished, timed
//! out or interrupted run. Spawning, waiting and killing are the caller's.
use vstd::prelude::*;

use crate::support::num::{nat_text, u64_text};
use crate::support::path::{joined, path_before, path_eq, path_is_file, path_join, path_lt, same_path};
use crate::text::{chars_of, contains_char, extend_str, extend_vec, owned, string_of};

verus! {

/// The texts of a list of strings.
pub open spec fn texts(v: Seq<String>) -> Seq<Seq<char>> {
    v.map_values(|s: String| s@)
}

/// The version directory taken from nvm's list: the greatest by path order,
/// the last of equals (what sorting the list and taking its end gives).
pub open spec fn latest_version(vs: Seq<Seq<char>>) -> Option<Seq<char>>
    decreases vs.len(),
{
    if vs.len() == 0 {
        None
    } else {
        match latest_version(vs.drop_last()) {
            None => Some(vs.last()),
            Some(b) => if path_before(vs.last(), b) { Some(b) } else { Some(vs.last()) },
        }
    }
}

/// The tool directories under a home directory, in search order.
pub open spec fn home_dirs(home: Seq<char>, nvm: Option<Seq<char>>) -> Seq<Seq<char>> {
    seq![joined(home, ".local/bin"@)] + match nvm {
        Some(v) => seq![joined(v, "bin"@)],
        None => Seq::empty(),
    } + seq![joined(home, ".cargo/bin"@), joined(home, ".bun/bin"@), joined(home, ".volta/bin"@)]
}

/// The system directories added last (macOS has Homebrew's first).
pub open spec fn system_dirs(macos: bool) -> Seq<Seq<char>> {
    if macos {
        seq!["/opt/homebrew/bin"@, "/usr/local/bin"@]
    } else {
        seq!["/usr/local/bin"@]
    }
}

/// Every directory considered, in order: the `PATH` entries, the tool
/// directories of the home directory (with nvm's newest node), the system
/// directories.
pub open spec fn search_candidates(
    path: Seq<Seq<char>>,
    home: Option<Seq<char>>,
    nvm: Seq<Seq<char>>,
    macos: bool,
) -> Seq<Seq<char>> {
    path + match home {
        Some(h) => home_dirs(h, latest_version(nvm)),
        None => Seq::empty(),
    } + system_dirs(macos)
}

/// `acc` with `d` added, unless `d` is empty or names a path already there.
pub open spec fn add_dir(acc: Seq<Seq<char>>, d: Seq<char>) -> Seq<Seq<char>> {
    if d.len() > 0 && !(exists|i: int| 0 <= i < acc.len() && same_path(#[trigger] acc[i], d)) {
        acc.push(d)
    } else {
        acc
    }
}

/// The candidates, each path once (the first time), empty ones dropped.
pub open spec fn unique_dirs(c: Seq<Seq<char>>) -> Seq<Seq<char>>
    decreases c.len(),
{
    if c.len() == 0 {
        Seq::empty()
    } else {
        add_dir(unique_dirs(c.drop_last()), c.last())
    }
}

fn push_dir(dirs: &mut Vec<String>, d: String)
    ensures
        texts(final(dirs)@) == add_dir(texts(old(dirs)@), d@),
{
    let ghost before = texts(dirs@);
    if chars_of(d.as_str()).len() == 0 {
        return;
    }
    let mut i: usize = 0;
    while i < dirs.len()
        invariant
            i <= dirs@.len(),
            before == texts(dirs@),
            forall|k: int| 0 <= k < i ==> !same_path(#[trigger] before[k], d@),
        decreases dirs.len() - i,
    {
        if path_eq(dirs[i].as_str(), d.as_str()) {
            assert(same_path(before[i as int], d@));
            return;
        }
        i = i + 1;
    }
    dirs.push(d);
    assert(texts(dirs@) =~= before.push(d@));
}

fn latest_of(vs: &[String]) -> (r: Option<String>)
    ensures
        match r {
            Some(v) => latest_version(texts(vs@)) == Some(v@),
            None => latest_version(texts(vs@)) is None,
        },
{
    let mut best: Option<String> = None;
    for i in 0..vs.len()
        invariant
            match best {
                Some(v) => latest_version(texts(vs@).take(i as int)) == Some(v@),
                None => latest_version(texts(vs@).take(i as int)) is None,
            },
    {
        proof {
            assert(texts(vs@).take(i + 1).drop_last() =~= texts(vs@).take(i as int));
        }
        let v = vs[i].clone();
        best = match best {
            None => Some(v),
            Some(b) => if path_lt(v.as_str(), b.as_str()) { Some(b) } else { Some(v) },
        };
    }
    proof {
        assert(texts(vs@).take(vs@.len() as int) =~= texts(vs@));
    }
    best
}

/// The directories searched for programs (see [`unique_dirs`] and
/// [`search_candidates`]): the `PATH` entries, then, under the home
/// directory, `.local/bin`, nvm's newest node's `bin` (of the version
/// directories given), `.cargo/bin`, `.bun/bin` and `.volta/bin`, then the
/// system directories; each path once.
pub fn search_dirs(path_entries: &[String], home: Option<&str>, nvm_versions: &[String], macos: bool) -> (r: Vec<String>)
    ensures
        texts(r@) == unique_dirs(search_candidates(
            texts(path_entries@),
            match home { Some(h) => Some(h@), None => None },
            texts(nvm_versions@),
            macos,
        )),
{
    let ghost cand = search_candidates(
        texts(path_entries@),
        match home { Some(h) => Some(h@), None => None },
        texts(nvm_versions@),
        macos,
    );
    let mut c: Vec<String> = Vec::new();
    for i in 0..path_entries.len()
        invariant
            c@.len() == i,
            forall|k: int| 0 <= k < i ==> #[trigger] c@[k]@ == path_entries@[k]@,
    {
        c.push(path_entries[i].clone());
    }
    assert(texts(c@) =~= texts(path_entries@));
    let ghost front = texts(c@);
    match home {
        Some(h) => {
            c.push(path_join(h, ".local/bin"));
            match latest_of(nvm_versions) {
                Some(v) => c.push(path_join(v.as_str(), "bin")),
                None => {},
            }
            c.push(path_join(h, ".cargo/bin"));
            c.push(path_join(h, ".bun/bin"));
            c.push(path_join(h, ".volta/bin"));
            assert(texts(c@) =~= front + home_dirs(h@, latest_version(texts(nvm_versions@))));
        },
        None => {
            assert(texts(c@) =~= front + Seq::<Seq<char>>::empty());
        },
    }
    let ghost mid = texts(c@);
    if macos {
        c.push(owned("/opt/homebrew/bin"));
    }
    c.push(owned("/usr/local/bin"));
    assert(texts(c@) =~= mid + system_dirs(macos));
    assert(texts(c@) =~= cand);
    let mut dirs: Vec<String> = Vec::new();
    for i in 0..c.len()
        invariant
            texts(c@) == cand,
            texts(dirs@) == unique_dirs(cand.take(i as int)),
    {
        proof {
            assert(cand.take(i + 1).drop_last() =~= cand.take(i as int));
        }
        push_dir(&mut dirs, c[i].clone());
    }
    assert(cand.take(c@.len() as int) =~= cand);
    dirs
}

/// The search directories hold no path twice and no empty entry, and every
/// non-empty candidate is among them (as the same path).
pub proof fn lemma_unique_dirs(c: Seq<Seq<char>>)
    ensures
        forall|i: int, j: int| 0 <= i < j < unique_dirs(c).len()
            ==> !same_path(#[trigger] unique_dirs(c)[i], #[trigger] unique_dirs(c)[j]),
        forall|i: int| 0 <= i < unique_dirs(c).len() ==> (#[trigger] unique_dirs(c)[i]).len() > 0,
        forall|k: int| 0 <= k < c.len() && (#[trigger] c[k]).len() > 0
            ==> exists|i: int| 0 <= i < unique_dirs(c).len() && (unique_dirs(c)[i] == c[k] || same_path(unique_dirs(c)[i], c[k])),
    decreases c.len(),
{
    if c.len() > 0 {
        let p = c.drop_last();
        lemma_unique_dirs(p);
        let acc = unique_dirs(p);
        let r = unique_dirs(c);
        assert(r == add_dir(acc, c.last()));
        assert forall|k: int| 0 <= k < c.len() && (#[trigger] c[k]).len() > 0
            implies exists|i: int| 0 <= i < r.len() && (r[i] == c[k] || same_path(r[i], c[k])) by {
            if k < c.len() - 1 {
                assert(p[k] == c[k]);
                let i = choose|i: int| 0 <= i < acc.len() && (acc[i] == p[k] || same_path(acc[i], p[k]));
                assert(r[i] == acc[i]);
            } else if r.len() > acc.len() {
                assert(r[acc.len() as int] == c[k]);
            } else {
                let i = choose|i: int| 0 <= i < acc.len() && same_path(#[trigger] acc[i], c.last());
                assert(r[i] == acc[i]);
            }
        }
    }
}

/// The program a name resolves to, given which of the candidates
/// `joined(dirs[i], prog)` were found to be files (`found[i]`, for the
/// candidates looked at, in order): the first one found, else the name.
pub open spec fn program_pick(prog: Seq<char>, dirs: Seq<String>, found: Seq<bool>, i: int) -> Seq<char>
    decreases found.len() - i,
{
    if i < 0 || i >= found.len() || i >= dirs.len() {
        prog
    } else if found[i] {
        joined(dirs[i]@, prog)
    } else {
        program_pick(prog, dirs, found, i + 1)
    }
}

/// Whether `found` is what looking at `n` candidates in order, stopping
/// at the first file, can give: all of them looked at and none found, or
/// a prefix whose last one (only) is found.
pub open spec fn probed(found: Seq<bool>, n: int) -> bool {
    &&& found.len() <= n
    &&& forall|j: int| 0 <= j < found.len() - 1 ==> !#[trigger] found[j]
    &&& found.len() < n ==> found.len() > 0 && found.last()
}

/// Whether a program name is looked up in the search directories: a name
/// that is empty or holds `/` is taken as it is.
pub open spec fn searched_name(prog: Seq<char>) -> bool {
    !(prog.len() == 0 || prog.contains('/'))
}

/// The program a name resolves to, given which candidates were found to be
/// files (see [`program_pick`]); a name that is not searched is kept.
pub fn first_program(prog: &str, dirs: &[String], found: &[bool]) -> (r: String)
    ensures
        r@ == if searched_name(prog@) { program_pick(prog@, dirs@, found@, 0) } else { prog@ },
{
    let p = chars_of(prog);
    if p.len() == 0 || contains_char(&p, '/') {
        return owned(prog);
    }
    let mut i: usize = 0;
    while i < found.len() && i < dirs.len()
        invariant
            i <= found.len(),
            searched_name(prog@),
            program_pick(prog@, dirs@, found@, 0) == program_pick(prog@, dirs@, found@, i as int),
        decreases found.len() - i,
    {
        if found[i] {
            assert(searched_name(prog@));
            assert(program_pick(prog@, dirs@, found@, i as int) == joined(dirs@[i as int]@, prog@));
            return path_join(dirs[i].as_str(), prog);
        }
        i = i + 1;
    }
    owned(prog)
}

/// Resolves a program name in the search directories: a name that is
/// empty or holds `/` is kept; otherwise the candidates are looked at in
/// order until one is a file (which ones are files is read from the disk),
/// and the result is the first found, else the name (see [`first_program`]).
pub fn resolve_program(prog: &str, dirs: &[String]) -> (r: String)
    ensures
        !searched_name(prog@) ==> r@ == prog@,
        searched_name(prog@) ==> exists|found: Seq<bool>| probed(found, dirs@.len() as int)
            && r@ == #[trigger] program_pick(prog@, dirs@, found, 0),
        r@ == prog@ || exists|i: int| 0 <= i < dirs@.len() && r@ == joined(#[trigger] dirs@[i]@, prog@),
{
    let p = chars_of(prog);
    if p.len() == 0 || contains_char(&p, '/') {
        return owned(prog);
    }
    let mut found: Vec<bool> = Vec::new();
    let mut i: usize = 0;
    while i < dirs.len()
        invariant_except_break
            i <= dirs.len(),
            found@.len() == i,
            forall|j: int| 0 <= j < i ==> !#[trigger] found@[j],
        ensures
            probed(found@, dirs@.len() as int),
        decreases dirs.len() - i,
    {
        let f = path_is_file(path_join(dirs[i].as_str(), prog).as_str());
        found.push(f);
        if f {
            break;
        }
        i = i + 1;
    }
    let r = first_program(prog, dirs, &found);
    proof {
        lemma_pick_is_candidate(prog@, dirs@, found@, 0);
    }
    r
}

proof fn lemma_pick_is_candidate(prog: Seq<char>, dirs: Seq<String>, found: Seq<bool>, i: int)
    requires
        0 <= i,
    ensures
        program_pick(prog, dirs, found, i) == prog || exists|k: int| 0 <= k < dirs.len()
            && program_pick(prog, dirs, found, i) == joined(#[trigger] dirs[k]@, prog),
    decreases found.len() - i,
{
    if i < found.len() && i < dirs.len() && !found[i] {
        lemma_pick_is_candidate(prog, dirs, found, i + 1);
    }
}

/// The result of a shell command.
#[derive(Debug, Clone)]
pub struct BashOutput {
    /// Standard output.
    pub stdout: String,
    /// Standard error.
    pub stderr: String,
    /// Exit code (`None` when killed).
    pub exit_code: Option<i32>,
    /// Killed on timeout.
    pub timed_out: bool,
    /// Killed on interruption.
    pub cancelled: bool,
}

/// How a run ended.
#[derive(Debug, Clone, Copy, PartialEq, Eq)]
pub enum RunEnd {
    /// The process exited (with its code, if it had one).
    Done(Option<i32>),
    /// The timeout passed and the process was killed.
    Timeout,
    /// The run was interrupted and the process was killed.
    Cancelled,
}

/// The result of a run from its captured output and how it ended: a killed
/// process has no exit code and its standard error is replaced by a note
/// (the timeout in seconds, or the interruption).
pub fn finish_run(stdout: String, stderr: String, end: RunEnd, timeout_secs: u64) -> (r: BashOutput)
    ensures
        r.stdout == stdout,
        match end {
            RunEnd::Done(code) => r.exit_code == code && !r.timed_out && !r.cancelled && r.stderr == stderr,
            RunEnd::Timeout => r.exit_code is None && r.timed_out && !r.cancelled
                && r.stderr@ == "命令超时（"@ + nat_text(timeout_secs as nat) + "s）已被终止"@,
            RunEnd::Cancelled => r.exit_code is None && !r.timed_out && r.cancelled
                && r.stderr@ == "任务已中断，子进程已终止"@,
        },
{
    match end {
        RunEnd::Done(code) => BashOutput { stdout, stderr, exit_code: code, timed_out: false, cancelled: false },
        RunEnd::Timeout => {
            let mut m = chars_of("命令超时（");
            extend_vec(&mut m, &u64_text(timeout_secs));
            extend_str(&mut m, "s）已被终止");
            BashOutput { stdout, stderr: string_of(&m), exit_code: None, timed_out: true, cancelled: false }
        },
        RunEnd::Cancelled => BashOutput {
            stdout,
            stderr: owned("任务已中断，子进程已终止"),
            exit_code: None,
            timed_out: false,
            cancelled: true,
        },
    }
}

} // verus!
