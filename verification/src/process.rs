//! Telling the editor's processes from all others: which process is the
//! editor's main process, which are its helpers, and which belong to this
//! tool itself.

use crate::text::{
    clone_opt, concat2, contains_seq, ends_with_seq, first_occurrence, opt_view,
    owned, starts_with_seq, str_contains, str_ends_with, str_eq, str_find, str_starts_with,
    strings_view,
};
use std::collections::HashSet;
use vstd::prelude::*;
use vstd::string::StrSliceExecFns;

verus! {

/// The operating system that the tool runs on.
#[derive(Clone, Copy, Debug, PartialEq, Eq, Structural)]
pub enum Platform {
    MacOs,
    Windows,
    Linux,
}

/// What the system tells of one process.
#[derive(Debug)]
pub struct ProcessInfo {
    pub pid: u32,
    pub parent: Option<u32>,
    pub name: String,
    /// The path of the executable, where the system gives one.
    pub exe: Option<String>,
    /// That path made canonical, where that succeeded.
    pub exe_canonical: Option<String>,
    /// The command line, the program first.
    pub cmd: Vec<String>,
}

/// The mathematical view of [`ProcessInfo`].
pub struct ProcessInfoView {
    pub pid: u32,
    pub parent: Option<u32>,
    pub name: Seq<char>,
    pub exe: Option<Seq<char>>,
    pub exe_canonical: Option<Seq<char>>,
    pub cmd: Seq<Seq<char>>,
}

impl View for ProcessInfo {
    type V = ProcessInfoView;

    open spec fn view(&self) -> ProcessInfoView {
        ProcessInfoView {
            pid: self.pid,
            parent: self.parent,
            name: self.name@,
            exe: opt_view(self.exe),
            exe_canonical: opt_view(self.exe_canonical),
            cmd: strings_view(self.cmd@),
        }
    }
}

/// The views of a list of processes.
pub open spec fn processes_view(v: Seq<ProcessInfo>) -> Seq<ProcessInfoView> {
    v.map_values(|p: ProcessInfo| p@)
}

/// What the tool knows of itself and of the user's settings.
#[derive(Debug)]
pub struct ProcessContext {
    pub own_pid: u32,
    /// The canonical path of the tool's own executable, if known.
    pub own_exe: Option<String>,
    /// The canonical path of the editor's executable that the user set, if any.
    pub manual_path: Option<String>,
}

/// The mathematical view of [`ProcessContext`].
pub struct ProcessContextView {
    pub own_pid: u32,
    pub own_exe: Option<Seq<char>>,
    pub manual_path: Option<Seq<char>>,
}

impl View for ProcessContext {
    type V = ProcessContextView;

    open spec fn view(&self) -> ProcessContextView {
        ProcessContextView {
            own_pid: self.own_pid,
            own_exe: opt_view(self.own_exe),
            manual_path: opt_view(self.manual_path),
        }
    }
}

/// The lower-case form of a text, as `str::to_lowercase` gives it.
pub uninterp spec fn lowercase_of(s: Seq<char>) -> Seq<char>;

/// Calls `str::to_lowercase`. The contract only names the result.
#[verifier::external_body]
fn to_lowercase(s: &str) -> (r: String)
    ensures
        r@ == lowercase_of(s@),
{
    s.to_lowercase()
}

/// What is tested of a process: its name, the path of its executable and
/// its command line in lower case, and the canonical path as it is.
#[derive(Debug)]
pub struct ProcessFacts {
    pub pid: u32,
    pub name: String,
    /// Empty where the system gives no path.
    pub exe: String,
    pub exe_canonical: Option<String>,
    pub args: Vec<String>,
}

/// The mathematical view of [`ProcessFacts`].
pub struct ProcessFactsView {
    pub pid: u32,
    pub name: Seq<char>,
    pub exe: Seq<char>,
    pub exe_canonical: Option<Seq<char>>,
    pub args: Seq<Seq<char>>,
}

impl View for ProcessFacts {
    type V = ProcessFactsView;

    open spec fn view(&self) -> ProcessFactsView {
        ProcessFactsView {
            pid: self.pid,
            name: self.name@,
            exe: self.exe@,
            exe_canonical: opt_view(self.exe_canonical),
            args: strings_view(self.args@),
        }
    }
}

/// The lower-case forms of a list of texts.
pub open spec fn lowercase_all(v: Seq<Seq<char>>) -> Seq<Seq<char>> {
    v.map_values(|s: Seq<char>| lowercase_of(s))
}

/// What is tested of the process `p`.
pub open spec fn facts_of(p: ProcessInfoView) -> ProcessFactsView {
    ProcessFactsView {
        pid: p.pid,
        name: lowercase_of(p.name),
        exe: match p.exe {
            Some(path) => lowercase_of(path),
            None => lowercase_of(Seq::empty()),
        },
        exe_canonical: p.exe_canonical,
        args: lowercase_all(p.cmd),
    }
}

/// Puts a process's name, path and command line into lower case.
pub fn process_facts(p: &ProcessInfo) -> (r: ProcessFacts)
    ensures
        r@ == facts_of(p@),
{
    let mut args: Vec<String> = Vec::new();
    let mut i: usize = 0;
    while i < p.cmd.len()
        invariant
            i <= p.cmd.len(),
            args.len() == i,
            forall|j: int| 0 <= j < i ==> (#[trigger] args@[j])@ == lowercase_of(p.cmd@[j]@),
        decreases p.cmd.len() - i,
    {
        args.push(to_lowercase(p.cmd[i].as_str()));
        i += 1;
    }
    assert(strings_view(args@) =~= lowercase_all(strings_view(p.cmd@)));
    let exe = match &p.exe {
        Some(path) => to_lowercase(path.as_str()),
        None => {
            let empty = String::new();
            to_lowercase(empty.as_str())
        },
    };
    ProcessFacts {
        pid: p.pid,
        name: to_lowercase(p.name.as_str()),
        exe,
        exe_canonical: clone_opt(&p.exe_canonical),
        args,
    }
}

/// The name holds one of the words that mark a helper.
pub open spec fn has_helper_word(name: Seq<char>) -> bool {
    ||| contains_seq(name, "helper"@)
    ||| contains_seq(name, "plugin"@)
    ||| contains_seq(name, "renderer"@)
    ||| contains_seq(name, "gpu"@)
    ||| contains_seq(name, "crashpad"@)
    ||| contains_seq(name, "utility"@)
    ||| contains_seq(name, "audio"@)
    ||| contains_seq(name, "sandbox"@)
    ||| contains_seq(name, "language_server"@)
}

/// Some argument of the command line holds `--type=`.
pub open spec fn has_type_flag(args: Seq<Seq<char>>) -> bool {
    exists|i: int| 0 <= i < args.len() && contains_seq(#[trigger] args[i], "--type="@)
}

/// The process is a helper of the editor: its command line holds a
/// `--type=`, its name one of the words that mark a helper, or the path of
/// its executable `crashpad`.
pub open spec fn is_helper(f: ProcessFactsView) -> bool {
    has_type_flag(f.args) || has_helper_word(f.name) || contains_seq(f.exe, "crashpad"@)
}

/// Tells whether some text of `list` holds `needle`.
pub fn any_contains(list: &Vec<String>, needle: &str) -> (r: bool)
    ensures
        r == exists|i: int|
            0 <= i < list.len() && contains_seq(#[trigger] strings_view(list@)[i], needle@),
{
    let mut i: usize = 0;
    while i < list.len()
        invariant
            i <= list.len(),
            forall|j: int| 0 <= j < i ==> !contains_seq(#[trigger] strings_view(list@)[j], needle@),
        decreases list.len() - i,
    {
        if str_contains(list[i].as_str(), needle) {
            assert(contains_seq(strings_view(list@)[i as int], needle@));
            return true;
        }
        i += 1;
    }
    false
}

/// Tells whether a name holds one of the words that mark a helper.
pub fn name_marks_helper(name: &str) -> (r: bool)
    ensures
        r == has_helper_word(name@),
{
    str_contains(name, "helper") || str_contains(name, "plugin") || str_contains(name, "renderer")
        || str_contains(name, "gpu") || str_contains(name, "crashpad") || str_contains(
        name,
        "utility",
    ) || str_contains(name, "audio") || str_contains(name, "sandbox") || str_contains(
        name,
        "language_server",
    )
}

/// Tells whether the process is a helper of the editor.
pub fn is_helper_process(f: &ProcessFacts) -> (r: bool)
    ensures
        r == is_helper(f@),
{
    any_contains(&f.args, "--type=") || name_marks_helper(f.name.as_str()) || str_contains(
        f.exe.as_str(),
        "crashpad",
    )
}

/// The path up to and with the first `.app` in it, if it holds one: the
/// application bundle that the path lies in.
pub open spec fn bundle_root(path: Seq<char>) -> Option<Seq<char>> {
    if contains_seq(path, ".app"@) {
        Some(path.take(choose|i: int| first_occurrence(".app"@, path, i)) + ".app"@)
    } else {
        None
    }
}

/// The application bundle that a path lies in, if any.
pub fn bundle_root_of(path: &str) -> (r: Option<String>)
    ensures
        opt_view(r) == bundle_root(path@),
{
    match str_find(path, ".app") {
        Some(i) => {
            let length = path.unicode_len();
            proof {
                reveal_strlit(".app");
                let c = choose|c: int| first_occurrence(".app"@, path@, c);
                assert(first_occurrence(".app"@, path@, i as int));
                assert(first_occurrence(".app"@, path@, c));
                assert(c == i);
                assert(i + 4 <= length);
                assert(path@.subrange(i as int, i + 4) == ".app"@);
                assert(path@.subrange(0, i + 4) =~= path@.take(i as int) + ".app"@);
            }
            Some(path.substring_char(0, i + 4).to_owned())
        },
        None => None,
    }
}

/// The executable is the one that the user set: the same canonical path,
/// or on a Mac the same application bundle.
pub open spec fn matches_manual_path(
    exe_canonical: Option<Seq<char>>,
    manual_path: Option<Seq<char>>,
    platform: Platform,
) -> bool {
    match (manual_path, exe_canonical) {
        (Some(manual), Some(exe)) => {
            if platform == Platform::MacOs {
                bundle_root(manual) is Some && bundle_root(manual) == bundle_root(exe)
            } else {
                manual == exe
            }
        },
        _ => false,
    }
}

/// Tells whether the executable is the one that the user set.
pub fn is_manual_match(f: &ProcessFacts, context: &ProcessContext, platform: Platform) -> (r: bool)
    ensures
        r == matches_manual_path(f@.exe_canonical, context@.manual_path, platform),
{
    match (&context.manual_path, &f.exe_canonical) {
        (Some(manual), Some(exe)) => {
            match platform {
                Platform::MacOs => {
                    match bundle_root_of(manual.as_str()) {
                        Some(root) => {
                            match bundle_root_of(exe.as_str()) {
                                Some(other) => str_eq(root.as_str(), other.as_str()),
                                None => false,
                            }
                        },
                        None => false,
                    }
                },
                _ => str_eq(manual.as_str(), exe.as_str()),
            }
        },
        _ => false,
    }
}

/// The process looks like the editor itself on this platform. On a Mac its
/// executable lies in the editor's application bundle, outside of the
/// bundle's frameworks; on Windows it has the editor's file name; on Linux
/// it has the editor's name or lies in the editor's directory, and its name
/// does not hold this tool's own.
pub open spec fn looks_like_editor(f: ProcessFactsView, platform: Platform) -> bool {
    match platform {
        Platform::MacOs => contains_seq(f.exe, "antigravity.app"@) && !contains_seq(
            f.exe,
            "frameworks"@,
        ),
        Platform::Windows => f.name == "antigravity.exe"@,
        Platform::Linux => (f.name == "antigravity"@ || contains_seq(f.exe, "/antigravity"@))
            && !contains_seq(f.name, "tools"@),
    }
}

/// Tells whether the process looks like the editor itself on this platform.
pub fn is_editor_like(f: &ProcessFacts, platform: Platform) -> (r: bool)
    ensures
        r == looks_like_editor(f@, platform),
{
    match platform {
        Platform::MacOs => str_contains(f.exe.as_str(), "antigravity.app") && !str_contains(
            f.exe.as_str(),
            "frameworks",
        ),
        Platform::Windows => str_eq(f.name.as_str(), "antigravity.exe"),
        Platform::Linux => (str_eq(f.name.as_str(), "antigravity") || str_contains(
            f.exe.as_str(),
            "/antigravity",
        )) && !str_contains(f.name.as_str(), "tools"),
    }
}

/// The process is this tool itself: it has the tool's process id or the
/// tool's executable.
pub open spec fn is_own_process(f: ProcessFactsView, context: ProcessContextView) -> bool {
    f.pid == context.own_pid || (context.own_exe is Some && f.exe_canonical == context.own_exe)
}

/// The process belongs to this tool on Linux, where names tell too little:
/// it is of the tool's family, or its name holds the tool's own.
pub open spec fn is_kept_apart(f: ProcessFactsView, platform: Platform, in_family: bool) -> bool {
    platform == Platform::Linux && (in_family || contains_seq(f.name, "tools"@))
}

/// The process is a main process of the editor: not this tool nor of its
/// family, no helper, and either the executable that the user set or one
/// that looks like the editor.
pub open spec fn is_editor_main(
    f: ProcessFactsView,
    context: ProcessContextView,
    platform: Platform,
    in_family: bool,
) -> bool {
    &&& !is_own_process(f, context)
    &&& !is_kept_apart(f, platform, in_family)
    &&& !is_helper(f)
    &&& (matches_manual_path(f.exe_canonical, context.manual_path, platform) || looks_like_editor(
        f,
        platform,
    ))
}

/// Tells whether the process is a main process of the editor. `in_family`
/// says whether it is this tool's ancestor or descendant.
pub fn is_editor_main_process(
    f: &ProcessFacts,
    context: &ProcessContext,
    platform: Platform,
    in_family: bool,
) -> (r: bool)
    ensures
        r == is_editor_main(f@, context@, platform, in_family),
{
    if f.pid == context.own_pid {
        return false;
    }
    let own = match (&context.own_exe, &f.exe_canonical) {
        (Some(mine), Some(exe)) => str_eq(mine.as_str(), exe.as_str()),
        _ => false,
    };
    if own {
        return false;
    }
    let apart = match platform {
        Platform::Linux => in_family || str_contains(f.name.as_str(), "tools"),
        _ => false,
    };
    if apart {
        return false;
    }
    if is_helper_process(f) {
        return false;
    }
    is_manual_match(f, context, platform) || is_editor_like(f, platform)
}

/// Some process of the list has the id `pid`.
pub open spec fn has_pid(ps: Seq<ProcessInfoView>, pid: u32) -> bool {
    exists|i: int| 0 <= i < ps.len() && (#[trigger] ps[i]).pid == pid
}

/// `i` is the position of the first process with the id `pid`.
pub open spec fn first_with_pid(ps: Seq<ProcessInfoView>, pid: u32, i: int) -> bool {
    &&& 0 <= i < ps.len()
    &&& ps[i].pid == pid
    &&& forall|j: int| 0 <= j < i ==> (#[trigger] ps[j]).pid != pid
}

/// The position of the first process with the id `pid`.
pub open spec fn pid_position(ps: Seq<ProcessInfoView>, pid: u32) -> int {
    choose|i: int| first_with_pid(ps, pid, i)
}

/// The first process with an id is at the position that [`pid_position`] names.
pub proof fn lemma_pid_position(ps: Seq<ProcessInfoView>, pid: u32, i: int)
    requires
        first_with_pid(ps, pid, i),
    ensures
        pid_position(ps, pid) == i,
        has_pid(ps, pid),
{
    let c = pid_position(ps, pid);
    assert(first_with_pid(ps, pid, c));
    if c < i {
        assert(ps[c].pid == pid);
    }
    if i < c {
        assert(ps[i].pid == pid);
    }
}

/// The position of the first process with the id `pid`.
pub fn position_of_pid(processes: &Vec<ProcessInfo>, pid: u32) -> (r: Option<usize>)
    ensures
        match r {
            Some(i) => first_with_pid(processes_view(processes@), pid, i as int),
            None => !has_pid(processes_view(processes@), pid),
        },
{
    let mut i: usize = 0;
    while i < processes.len()
        invariant
            i <= processes.len(),
            forall|j: int| 0 <= j < i ==> (#[trigger] processes_view(processes@)[j]).pid != pid,
        decreases processes.len() - i,
    {
        if processes[i].pid == pid {
            return Some(i);
        }
        i += 1;
    }
    None
}

/// The parent of the process with the id `pid`, as far as the list tells.
pub open spec fn parent_in(ps: Seq<ProcessInfoView>, pid: u32) -> Option<u32> {
    if has_pid(ps, pid) {
        ps[pid_position(ps, pid)].parent
    } else {
        None
    }
}

/// The parent of the process with the id `pid`, as far as the list tells.
pub fn parent_of(processes: &Vec<ProcessInfo>, pid: u32) -> (r: Option<u32>)
    ensures
        r == parent_in(processes_view(processes@), pid),
{
    match position_of_pid(processes, pid) {
        Some(i) => {
            proof {
                lemma_pid_position(processes_view(processes@), pid, i as int);
            }
            processes[i].parent
        },
        None => None,
    }
}

/// Tells whether `list` holds `pid`.
pub fn pids_contain(list: &Vec<u32>, pid: u32) -> (r: bool)
    ensures
        r == list@.contains(pid),
{
    let mut i: usize = 0;
    while i < list.len()
        invariant
            i <= list.len(),
            forall|j: int| 0 <= j < i ==> list@[j] != pid,
        decreases list.len() - i,
    {
        if list[i] == pid {
            return true;
        }
        i += 1;
    }
    false
}

/// `seen` with the ancestors of `from` added, one generation after the
/// other, for at most `steps` generations and up to the first ancestor that
/// is unknown or was seen already.
pub open spec fn with_ancestors(ps: Seq<ProcessInfoView>, from: u32, seen: Seq<u32>, steps: nat) -> Seq<
    u32,
>
    decreases steps,
{
    if steps == 0 {
        seen
    } else {
        match parent_in(ps, from) {
            Some(parent) => if seen.contains(parent) {
                seen
            } else {
                with_ancestors(ps, parent, seen.push(parent), (steps - 1) as nat)
            },
            None => seen,
        }
    }
}

/// The number of generations of ancestors that count as this tool's family.
pub const MAX_GENERATIONS: usize = 10;

/// A process and its ancestors up to ten generations.
pub open spec fn lineage(ps: Seq<ProcessInfoView>, own: u32) -> Seq<u32> {
    with_ancestors(ps, own, seq![own], MAX_GENERATIONS as nat)
}

/// A process and its ancestors up to ten generations.
pub fn self_and_ancestors(processes: &Vec<ProcessInfo>, own_pid: u32) -> (r: Vec<u32>)
    ensures
        r@ == lineage(processes_view(processes@), own_pid),
        r@.no_duplicates(),
        r@.contains(own_pid),
{
    let mut family: Vec<u32> = Vec::new();
    family.push(own_pid);
    assert(family@ =~= seq![own_pid]);
    assert(family@[0] == own_pid);
    let mut next: u32 = own_pid;
    let mut left: usize = MAX_GENERATIONS;
    while left > 0
        invariant
            lineage(processes_view(processes@), own_pid) == with_ancestors(
                processes_view(processes@),
                next,
                family@,
                left as nat,
            ),
            family@.no_duplicates(),
            family@.contains(own_pid),
        decreases left,
    {
        match parent_of(processes, next) {
            Some(parent) => {
                if pids_contain(&family, parent) {
                    return family;
                }
                let ghost before = family@;
                family.push(parent);
                proof {
                    let k = choose|k: int| 0 <= k < before.len() && before[k] == own_pid;
                    assert(family@[k] == own_pid);
                    assert forall|i: int, j: int|
                        0 <= i < family@.len() && 0 <= j < family@.len() && i != j implies family@[i]
                        != family@[j] by {
                        if i < before.len() {
                            assert(before.contains(before[i]));
                        }
                        if j < before.len() {
                            assert(before.contains(before[j]));
                        }
                    }
                }
                next = parent;
            },
            None => {
                return family;
            },
        }
        left -= 1;
    }
    family
}

/// The process `pid` descends from `own` in at most `k` generations, and
/// neither it nor any process between the two is among `blocked`.
pub open spec fn descends_within(
    ps: Seq<ProcessInfoView>,
    blocked: Seq<u32>,
    own: u32,
    pid: u32,
    k: nat,
) -> bool
    decreases k,
{
    k > 0 && !blocked.contains(pid) && exists|i: int|
        0 <= i < ps.len() && (#[trigger] ps[i]).pid == pid && ps[i].parent is Some && (
        ps[i].parent->0 == own || descends_within(ps, blocked, own, ps[i].parent->0, (k - 1) as nat))
}

/// The process `pid` descends from `own`, and neither it nor any process
/// between the two is among `blocked`.
pub open spec fn is_descendant(ps: Seq<ProcessInfoView>, blocked: Seq<u32>, own: u32, pid: u32) -> bool {
    exists|k: nat| descends_within(ps, blocked, own, pid, k)
}

/// The process `pid` is of the family of `own`: it is `own`, one of its
/// ancestors up to ten generations, or a descendant of any generation.
pub open spec fn in_family(ps: Seq<ProcessInfoView>, own: u32, pid: u32) -> bool {
    lineage(ps, own).contains(pid) || is_descendant(ps, lineage(ps, own), own, pid)
}

/// The number of processes whose id is not among `seen`.
pub open spec fn unseen(ps: Seq<ProcessInfoView>, seen: Set<u32>) -> nat
    decreases ps.len(),
{
    if ps.len() == 0 {
        0
    } else if seen.contains(ps.last().pid) {
        unseen(ps.drop_last(), seen)
    } else {
        unseen(ps.drop_last(), seen) + 1
    }
}

/// Seeing one more id leaves no more processes unseen, and fewer if the id
/// is that of a process and was not seen before.
pub proof fn lemma_unseen_insert(ps: Seq<ProcessInfoView>, seen: Set<u32>, pid: u32)
    ensures
        unseen(ps, seen.insert(pid)) <= unseen(ps, seen),
        has_pid(ps, pid) && !seen.contains(pid) ==> unseen(ps, seen.insert(pid)) < unseen(ps, seen),
    decreases ps.len(),
{
    if ps.len() > 0 {
        let head = ps.drop_last();
        lemma_unseen_insert(head, seen, pid);
        if has_pid(ps, pid) && !seen.contains(pid) {
            let i = choose|i: int| 0 <= i < ps.len() && (#[trigger] ps[i]).pid == pid;
            if i < head.len() {
                assert(head[i].pid == pid);
            }
        }
    }
}

/// The family holds every child of each of its members that descend from
/// `own`, and of `own` itself, unless the child is among `blocked`.
pub open spec fn holds_children(
    ps: Seq<ProcessInfoView>,
    blocked: Seq<u32>,
    own: u32,
    family: Set<u32>,
    upto: int,
) -> bool {
    forall|i: int|
        0 <= i < upto && (#[trigger] ps[i]).parent is Some && (ps[i].parent->0 == own || (
        family.contains(ps[i].parent->0) && !blocked.contains(ps[i].parent->0))) && !blocked.contains(
            ps[i].pid,
        ) ==> family.contains(ps[i].pid)
}

/// A family that holds the children of its members holds every descendant.
pub proof fn lemma_family_is_complete(
    ps: Seq<ProcessInfoView>,
    blocked: Seq<u32>,
    own: u32,
    family: Set<u32>,
    pid: u32,
    k: nat,
)
    requires
        holds_children(ps, blocked, own, family, ps.len() as int),
        descends_within(ps, blocked, own, pid, k),
    ensures
        family.contains(pid),
    decreases k,
{
    let i = choose|i: int|
        0 <= i < ps.len() && (#[trigger] ps[i]).pid == pid && ps[i].parent is Some && (
        ps[i].parent->0 == own || descends_within(
            ps,
            blocked,
            own,
            ps[i].parent->0,
            (k - 1) as nat,
        ));
    if ps[i].parent->0 != own {
        lemma_family_is_complete(ps, blocked, own, family, ps[i].parent->0, (k - 1) as nat);
    }
}

/// The family of this tool's process: the process itself, its ancestors up
/// to ten generations, and its descendants of every generation.
pub fn get_self_family_pids(processes: &Vec<ProcessInfo>, own_pid: u32) -> (r: HashSet<u32>)
    ensures
        forall|pid: u32| r@.contains(pid) <==> in_family(processes_view(processes@), own_pid, pid),
{
    broadcast use vstd::std_specs::hash::group_hash_axioms;

    let elders = self_and_ancestors(processes, own_pid);
    let ghost ps = processes_view(processes@);
    let ghost up = elders@;
    let mut family: HashSet<u32> = HashSet::new();
    let mut n: usize = 0;
    while n < elders.len()
        invariant
            n <= elders.len(),
            up == elders@,
            forall|pid: u32| family@.contains(pid) <==> up.take(n as int).contains(pid),
        decreases elders.len() - n,
    {
        let ghost before = up.take(n as int);
        let ghost after = up.take(n + 1);
        family.insert(elders[n]);
        proof {
            assert(after.drop_last() =~= before);
            assert forall|pid: u32| family@.contains(pid) <==> after.contains(pid) by {
                if after.contains(pid) {
                    let k = choose|k: int| 0 <= k < after.len() && after[k] == pid;
                    if k < n {
                        assert(before[k] == pid);
                    }
                }
                if before.contains(pid) {
                    let k = choose|k: int| 0 <= k < before.len() && before[k] == pid;
                    assert(after[k] == pid);
                }
                assert(after[n as int] == up[n as int]);
            }
        }
        n += 1;
    }
    assert(up.take(elders.len() as int) =~= up);
    loop
        invariant
            ps == processes_view(processes@),
            up == elders@,
            up == lineage(ps, own_pid),
            forall|pid: u32| up.contains(pid) ==> family@.contains(pid),
            forall|pid: u32|
                family@.contains(pid) ==> up.contains(pid) || is_descendant(ps, up, own_pid, pid),
        ensures
            forall|pid: u32| up.contains(pid) ==> family@.contains(pid),
            forall|pid: u32|
                family@.contains(pid) ==> up.contains(pid) || is_descendant(ps, up, own_pid, pid),
            holds_children(ps, up, own_pid, family@, ps.len() as int),
        decreases unseen(ps, family@),
    {
        let ghost start = family@;
        let mut changed = false;
        let mut i: usize = 0;
        while i < processes.len()
            invariant
                i <= processes.len(),
                ps == processes_view(processes@),
                up == elders@,
                up == lineage(ps, own_pid),
                forall|pid: u32| up.contains(pid) ==> family@.contains(pid),
                forall|pid: u32|
                    family@.contains(pid) ==> up.contains(pid) || is_descendant(
                        ps,
                        up,
                        own_pid,
                        pid,
                    ),
                !changed ==> family@ == start,
                changed ==> unseen(ps, family@) < unseen(ps, start),
                unseen(ps, family@) <= unseen(ps, start),
                !changed ==> holds_children(ps, up, own_pid, family@, i as int),
            decreases processes.len() - i,
        {
            let pid = processes[i].pid;
            match processes[i].parent {
                Some(parent) => {
                    let reached = parent == own_pid || (family.contains(&parent) && !pids_contain(
                        &elders,
                        parent,
                    ));
                    if reached && !family.contains(&pid) {
                        let ghost before = family@;
                        proof {
                            assert(ps[i as int].pid == pid);
                            assert(!up.contains(pid));
                            if parent == own_pid {
                                assert(descends_within(ps, up, own_pid, pid, 1));
                            } else {
                                assert(is_descendant(ps, up, own_pid, parent));
                                let k = choose|k: nat| descends_within(ps, up, own_pid, parent, k);
                                assert(descends_within(ps, up, own_pid, pid, k + 1));
                            }
                            assert(is_descendant(ps, up, own_pid, pid));
                            lemma_unseen_insert(ps, before, pid);
                        }
                        family.insert(pid);
                        changed = true;
                    }
                },
                None => {},
            }
            i += 1;
        }
        if !changed {
            break;
        }
    }
    proof {
        assert forall|pid: u32| in_family(ps, own_pid, pid) implies family@.contains(pid) by {
            if !up.contains(pid) {
                let k = choose|k: nat| descends_within(ps, up, own_pid, pid, k);
                lemma_family_is_complete(ps, up, own_pid, family@, pid, k);
            }
        }
    }
    family
}

/// The process `p` of the list `ps` is a main process of the editor.
pub open spec fn is_editor_process(
    ps: Seq<ProcessInfoView>,
    p: ProcessInfoView,
    context: ProcessContextView,
    platform: Platform,
) -> bool {
    is_editor_main(facts_of(p), context, platform, in_family(ps, context.own_pid, p.pid))
}

/// The ids of those among the processes `part` that are main processes of
/// the editor, in order; `ps` is the whole list.
pub open spec fn editor_pids_among(
    ps: Seq<ProcessInfoView>,
    part: Seq<ProcessInfoView>,
    context: ProcessContextView,
    platform: Platform,
) -> Seq<u32>
    decreases part.len(),
{
    if part.len() == 0 {
        Seq::empty()
    } else if is_editor_process(ps, part.last(), context, platform) {
        editor_pids_among(ps, part.drop_last(), context, platform).push(part.last().pid)
    } else {
        editor_pids_among(ps, part.drop_last(), context, platform)
    }
}

/// The ids of the editor's main processes, in the order of the list.
pub open spec fn editor_pids(
    ps: Seq<ProcessInfoView>,
    context: ProcessContextView,
    platform: Platform,
) -> Seq<u32> {
    editor_pids_among(ps, ps, context, platform)
}

/// The ids of the editor's main processes among `processes`, a snapshot of
/// the system's processes. Left out are this tool's own process, every
/// process with the tool's executable, every helper, and on Linux the
/// tool's family and every process whose name holds the tool's own.
pub fn get_antigravity_pids(
    processes: &Vec<ProcessInfo>,
    context: &ProcessContext,
    platform: Platform,
) -> (r: Vec<u32>)
    ensures
        r@ == editor_pids(processes_view(processes@), context@, platform),
{
    let family = match platform {
        Platform::Linux => get_self_family_pids(processes, context.own_pid),
        _ => HashSet::new(),
    };
    let ghost ps = processes_view(processes@);
    let mut pids: Vec<u32> = Vec::new();
    let mut i: usize = 0;
    assert(ps.take(0) =~= Seq::empty());
    while i < processes.len()
        invariant
            i <= processes.len(),
            ps == processes_view(processes@),
            platform == Platform::Linux ==> forall|pid: u32|
                family@.contains(pid) <==> in_family(ps, context@.own_pid, pid),
            pids@ == editor_pids_among(ps, ps.take(i as int), context@, platform),
        decreases processes.len() - i,
    {
        proof {
            let next = ps.take(i + 1);
            assert(next.drop_last() =~= ps.take(i as int));
            assert(next.last() == processes@[i as int]@);
        }
        let facts = process_facts(&processes[i]);
        let related = family.contains(&processes[i].pid);
        if is_editor_main_process(&facts, context, platform, related) {
            pids.push(processes[i].pid);
        }
        i += 1;
    }
    assert(ps.take(processes.len() as int) =~= ps);
    pids
}

/// Tells whether the editor runs: whether the snapshot holds a main
/// process of the editor.
pub fn is_antigravity_running(
    processes: &Vec<ProcessInfo>,
    context: &ProcessContext,
    platform: Platform,
) -> (r: bool)
    ensures
        r == (editor_pids(processes_view(processes@), context@, platform).len() > 0),
{
    get_antigravity_pids(processes, context, platform).len() > 0
}

/// What is tested of the process with the id `pid`, if the list has one.
pub open spec fn facts_for(ps: Seq<ProcessInfoView>, pid: u32) -> Option<ProcessFactsView> {
    if has_pid(ps, pid) {
        Some(facts_of(ps[pid_position(ps, pid)]))
    } else {
        None
    }
}

/// The process with the id `pid` is no helper and, where `by_path` says
/// so, runs the executable that the user set.
pub open spec fn is_main_candidate(
    ps: Seq<ProcessInfoView>,
    context: ProcessContextView,
    platform: Platform,
    by_path: bool,
    pid: u32,
) -> bool {
    facts_for(ps, pid) matches Some(f) && !is_helper(f) && (by_path ==> matches_manual_path(
        f.exe_canonical,
        context.manual_path,
        platform,
    ))
}

/// The first of `pids` that is a candidate for the main process.
pub open spec fn first_candidate(
    ps: Seq<ProcessInfoView>,
    pids: Seq<u32>,
    context: ProcessContextView,
    platform: Platform,
    by_path: bool,
) -> Option<u32>
    decreases pids.len(),
{
    if pids.len() == 0 {
        None
    } else if is_main_candidate(ps, context, platform, by_path, pids[0]) {
        Some(pids[0])
    } else {
        first_candidate(ps, pids.drop_first(), context, platform, by_path)
    }
}

/// The one process that is asked to exit: the first of `pids` that runs
/// the executable that the user set and is no helper, else the first that
/// is no helper.
pub open spec fn main_pid(
    ps: Seq<ProcessInfoView>,
    pids: Seq<u32>,
    context: ProcessContextView,
    platform: Platform,
) -> Option<u32> {
    match first_candidate(ps, pids, context, platform, true) {
        Some(pid) => Some(pid),
        None => first_candidate(ps, pids, context, platform, false),
    }
}

/// The first of `pids` that is a candidate for the main process.
fn find_candidate(
    processes: &Vec<ProcessInfo>,
    pids: &Vec<u32>,
    context: &ProcessContext,
    platform: Platform,
    by_path: bool,
) -> (r: Option<u32>)
    ensures
        r == first_candidate(processes_view(processes@), pids@, context@, platform, by_path),
{
    let ghost ps = processes_view(processes@);
    let mut i: usize = 0;
    assert(pids@.skip(0) =~= pids@);
    while i < pids.len()
        invariant
            i <= pids.len(),
            ps == processes_view(processes@),
            first_candidate(ps, pids@, context@, platform, by_path) == first_candidate(
                ps,
                pids@.skip(i as int),
                context@,
                platform,
                by_path,
            ),
        decreases pids.len() - i,
    {
        proof {
            assert(pids@.skip(i as int)[0] == pids@[i as int]);
            assert(pids@.skip(i as int).drop_first() =~= pids@.skip(i + 1));
        }
        match position_of_pid(processes, pids[i]) {
            Some(k) => {
                proof {
                    lemma_pid_position(ps, pids@[i as int], k as int);
                }
                let facts = process_facts(&processes[k]);
                if !is_helper_process(&facts) && (!by_path || is_manual_match(
                    &facts,
                    context,
                    platform,
                )) {
                    return Some(pids[i]);
                }
            },
            None => {},
        }
        i += 1;
    }
    None
}

/// Picks the one process that is asked to exit, if any can be picked.
pub fn select_main_pid(
    processes: &Vec<ProcessInfo>,
    pids: &Vec<u32>,
    context: &ProcessContext,
    platform: Platform,
) -> (r: Option<u32>)
    ensures
        r == main_pid(processes_view(processes@), pids@, context@, platform),
{
    match find_candidate(processes, pids, context, platform, true) {
        Some(pid) => Some(pid),
        None => find_candidate(processes, pids, context, platform, false),
    }
}

/// Where the closing of the editor stands.
#[derive(Clone, Copy, Debug, PartialEq, Eq, Structural)]
pub enum ShutdownPhase {
    /// Nothing was done yet.
    Start,
    /// The editor was asked to exit; `polls` looks were taken since.
    Waiting { polls: u64 },
    /// The last step was taken; one look is left.
    Settling,
}

/// What is to be done next to close the editor.
#[derive(Debug)]
pub enum ShutdownAction {
    /// Ask these processes to exit, then look again.
    Terminate { pids: Vec<u32> },
    /// Wait so many milliseconds, then look again.
    Wait { millis: u64 },
    /// Kill these processes, wait so many milliseconds, then look again.
    Kill { pids: Vec<u32>, settle_millis: u64 },
    /// The closing is over, with this result.
    Done(Result<(), String>),
}

/// The mathematical view of [`ShutdownAction`].
pub enum ShutdownActionView {
    Terminate { pids: Seq<u32> },
    Wait { millis: u64 },
    Kill { pids: Seq<u32>, settle_millis: u64 },
    Done(Result<(), Seq<char>>),
}

impl View for ShutdownAction {
    type V = ShutdownActionView;

    open spec fn view(&self) -> ShutdownActionView {
        match self {
            ShutdownAction::Terminate { pids } => ShutdownActionView::Terminate { pids: pids@ },
            ShutdownAction::Wait { millis } => ShutdownActionView::Wait { millis: *millis },
            ShutdownAction::Kill { pids, settle_millis } => ShutdownActionView::Kill {
                pids: pids@,
                settle_millis: *settle_millis,
            },
            ShutdownAction::Done(Ok(_)) => ShutdownActionView::Done(Ok(())),
            ShutdownAction::Done(Err(message)) => ShutdownActionView::Done(Err(message@)),
        }
    }
}

/// The message for an editor that could not be closed.
pub const CLOSE_FAILED_MESSAGE: &'static str =
    "Unable to close Antigravity process, please close manually and retry";

/// Milliseconds between two looks while the editor is given time to exit.
pub const POLL_MILLIS: u64 = 500;

/// Milliseconds that killed processes are given to disappear.
pub const KILL_SETTLE_MILLIS: u64 = 1000;

/// The seconds that the editor is given to exit by itself: seven tenths of
/// the time allowed, rounded down.
pub open spec fn graceful_secs(timeout_secs: u64) -> int {
    timeout_secs * 7 / 10
}

/// The seconds that the editor is given to exit by itself.
pub fn graceful_timeout(timeout_secs: u64) -> (r: u64)
    ensures
        r == graceful_secs(timeout_secs),
{
    (timeout_secs / 10) * 7 + (timeout_secs % 10) * 7 / 10
}

/// The editor is still given time after `polls` looks, two looks a second.
pub open spec fn keeps_waiting(polls: u64, timeout_secs: u64) -> bool {
    polls / 2 < graceful_secs(timeout_secs) && polls < u64::MAX
}

/// The next step of closing the editor, given the phase, the editor's main
/// processes `pids` as the latest look found them, and the one of them
/// that was picked as the main process.
///
/// A look that finds no process ends the closing well, in every phase. At
/// the start the main process is asked to exit, or every process if none
/// was picked, and the editor is given time. While it is given time, each
/// look that still finds a process is followed by a wait; when the time is
/// up what is left is killed and given a second to disappear. The last
/// look decides: a process that is still there is a failure. The steps are
/// the same on every platform.
pub open spec fn shutdown_step(
    phase: ShutdownPhase,
    pids: Seq<u32>,
    main: Option<u32>,
    timeout_secs: u64,
) -> (ShutdownPhase, ShutdownActionView) {
    if pids.len() == 0 {
        (ShutdownPhase::Settling, ShutdownActionView::Done(Ok(())))
    } else {
        match phase {
            ShutdownPhase::Start => (
                ShutdownPhase::Waiting { polls: 0 },
                ShutdownActionView::Terminate {
                    pids: match main {
                        Some(pid) => seq![pid],
                        None => pids,
                    },
                },
            ),
            ShutdownPhase::Waiting { polls } => if keeps_waiting(polls, timeout_secs) {
                (
                    ShutdownPhase::Waiting { polls: (polls + 1) as u64 },
                    ShutdownActionView::Wait { millis: POLL_MILLIS },
                )
            } else {
                (
                    ShutdownPhase::Settling,
                    ShutdownActionView::Kill { pids, settle_millis: KILL_SETTLE_MILLIS },
                )
            },
            ShutdownPhase::Settling => (
                ShutdownPhase::Settling,
                ShutdownActionView::Done(Err(CLOSE_FAILED_MESSAGE@)),
            ),
        }
    }
}

/// The processes that an action sends a signal to.
pub open spec fn signalled(action: ShutdownActionView) -> Seq<u32> {
    match action {
        ShutdownActionView::Terminate { pids } => pids,
        ShutdownActionView::Kill { pids, .. } => pids,
        _ => Seq::empty(),
    }
}

/// This tool's own process is none of the editor's main processes.
pub proof fn lemma_own_process_is_no_editor(
    ps: Seq<ProcessInfoView>,
    part: Seq<ProcessInfoView>,
    context: ProcessContextView,
    platform: Platform,
)
    ensures
        !editor_pids_among(ps, part, context, platform).contains(context.own_pid),
    decreases part.len(),
{
    if part.len() > 0 {
        let before = editor_pids_among(ps, part.drop_last(), context, platform);
        let all = editor_pids_among(ps, part, context, platform);
        lemma_own_process_is_no_editor(ps, part.drop_last(), context, platform);
        if all.contains(context.own_pid) {
            let k = choose|k: int| 0 <= k < all.len() && all[k] == context.own_pid;
            if k < before.len() {
                assert(before[k] == context.own_pid);
            }
        }
    }
}

/// The process that is picked as the main process is one of `pids`.
pub proof fn lemma_candidate_is_listed(
    ps: Seq<ProcessInfoView>,
    pids: Seq<u32>,
    context: ProcessContextView,
    platform: Platform,
    by_path: bool,
)
    ensures
        first_candidate(ps, pids, context, platform, by_path) matches Some(pid) ==> pids.contains(
            pid,
        ),
    decreases pids.len(),
{
    if pids.len() > 0 {
        assert(pids[0] == pids[0]);
        if !is_main_candidate(ps, context, platform, by_path, pids[0]) {
            let rest = pids.drop_first();
            lemma_candidate_is_listed(ps, rest, context, platform, by_path);
            match first_candidate(ps, rest, context, platform, by_path) {
                Some(pid) => {
                    let k = choose|k: int| 0 <= k < rest.len() && rest[k] == pid;
                    assert(pids[k + 1] == pid);
                },
                None => {},
            }
        }
    }
}

/// No step of closing the editor sends a signal to this tool's own
/// process, nor to any process but the editor's main processes that the
/// latest look found.
pub proof fn law_only_the_editor_is_signalled(
    phase: ShutdownPhase,
    ps: Seq<ProcessInfoView>,
    context: ProcessContextView,
    platform: Platform,
    timeout_secs: u64,
)
    ensures
        ({
            let pids = editor_pids(ps, context, platform);
            let step = shutdown_step(
                phase,
                pids,
                main_pid(ps, pids, context, platform),
                timeout_secs,
            );
            &&& !signalled(step.1).contains(context.own_pid)
            &&& forall|pid: u32| signalled(step.1).contains(pid) ==> pids.contains(pid)
        }),
{
    let pids = editor_pids(ps, context, platform);
    let main = main_pid(ps, pids, context, platform);
    let step = shutdown_step(phase, pids, main, timeout_secs);
    lemma_own_process_is_no_editor(ps, ps, context, platform);
    lemma_candidate_is_listed(ps, pids, context, platform, true);
    lemma_candidate_is_listed(ps, pids, context, platform, false);
    assert forall|pid: u32| signalled(step.1).contains(pid) implies pids.contains(pid) by {
        let t = signalled(step.1);
        let k = choose|k: int| 0 <= k < t.len() && t[k] == pid;
        if main is Some && t == seq![main->0] {
            assert(pid == main->0);
        }
    }
}

/// Decides the next step of closing the editor from the phase and a fresh
/// snapshot of the system's processes. See [`shutdown_step`].
pub fn close_antigravity(
    phase: ShutdownPhase,
    processes: &Vec<ProcessInfo>,
    context: &ProcessContext,
    platform: Platform,
    timeout_secs: u64,
) -> (r: (ShutdownPhase, ShutdownAction))
    ensures
        (r.0, r.1@) == shutdown_step(
            phase,
            editor_pids(processes_view(processes@), context@, platform),
            main_pid(
                processes_view(processes@),
                editor_pids(processes_view(processes@), context@, platform),
                context@,
                platform,
            ),
            timeout_secs,
        ),
        !signalled(r.1@).contains(context.own_pid),
{
    proof {
        law_only_the_editor_is_signalled(
            phase,
            processes_view(processes@),
            context@,
            platform,
            timeout_secs,
        );
    }
    let pids = get_antigravity_pids(processes, context, platform);
    if pids.len() == 0 {
        return (ShutdownPhase::Settling, ShutdownAction::Done(Ok(())));
    }
    match phase {
        ShutdownPhase::Start => {
            let targets = match select_main_pid(processes, &pids, context, platform) {
                Some(pid) => {
                    let mut one: Vec<u32> = Vec::new();
                    one.push(pid);
                    assert(one@ =~= seq![pid]);
                    one
                },
                None => pids,
            };
            (ShutdownPhase::Waiting { polls: 0 }, ShutdownAction::Terminate { pids: targets })
        },
        ShutdownPhase::Waiting { polls } => {
            if polls / 2 < graceful_timeout(timeout_secs) && polls < u64::MAX {
                (
                    ShutdownPhase::Waiting { polls: polls + 1 },
                    ShutdownAction::Wait { millis: POLL_MILLIS },
                )
            } else {
                (
                    ShutdownPhase::Settling,
                    ShutdownAction::Kill { pids, settle_millis: KILL_SETTLE_MILLIS },
                )
            }
        },
        ShutdownPhase::Settling => (
            ShutdownPhase::Settling,
            ShutdownAction::Done(Err(owned(CLOSE_FAILED_MESSAGE))),
        ),
    }
}

/// The path that is started for the path that the user set: on a Mac the
/// application bundle that the path lies in, if it lies in one.
pub open spec fn launch_path(platform: Platform, manual_path: Seq<char>) -> Seq<char> {
    if platform == Platform::MacOs && bundle_root(manual_path) is Some {
        bundle_root(manual_path)->0
    } else {
        manual_path
    }
}

/// The path that is started for the path that the user set.
pub fn launch_target_path(platform: Platform, manual_path: &str) -> (r: String)
    ensures
        r@ == launch_path(platform, manual_path@),
{
    match platform {
        Platform::MacOs => {
            match bundle_root_of(manual_path) {
                Some(root) => root,
                None => owned(manual_path),
            }
        },
        _ => owned(manual_path),
    }
}

/// The path to start, with what the file system says of it.
#[derive(Debug)]
pub struct LaunchTarget {
    pub path: String,
    pub exists: bool,
    pub is_dir: bool,
}

/// The mathematical view of [`LaunchTarget`].
pub struct LaunchTargetView {
    pub path: Seq<char>,
    pub exists: bool,
    pub is_dir: bool,
}

impl View for LaunchTarget {
    type V = LaunchTargetView;

    open spec fn view(&self) -> LaunchTargetView {
        LaunchTargetView { path: self.path@, exists: self.exists, is_dir: self.is_dir }
    }
}

/// How a program is started and which failure it can have.
#[derive(Clone, Copy, Debug, PartialEq, Eq, Structural)]
pub enum LaunchKind {
    /// The system's opener is started with the bundle that the user set.
    ManualOpen,
    /// The executable that the user set is started, on a Mac.
    ManualDirect,
    /// A program is started and not waited for.
    Spawn,
    /// The system's opener is run with the editor's name and waited for.
    DefaultOpen,
    /// The editor's address scheme is opened through the command shell.
    UrlScheme,
}

/// The program to start, with its arguments.
#[derive(Debug)]
pub struct LaunchPlan {
    pub kind: LaunchKind,
    pub program: String,
    pub args: Vec<String>,
    /// The program is started without a console window.
    pub hide_window: bool,
}

/// The mathematical view of [`LaunchPlan`].
pub struct LaunchPlanView {
    pub kind: LaunchKind,
    pub program: Seq<char>,
    pub args: Seq<Seq<char>>,
    pub hide_window: bool,
}

impl View for LaunchPlan {
    type V = LaunchPlanView;

    open spec fn view(&self) -> LaunchPlanView {
        LaunchPlanView {
            kind: self.kind,
            program: self.program@,
            args: strings_view(self.args@),
            hide_window: self.hide_window,
        }
    }
}

/// The message for arguments that cannot be handed to the editor because
/// its executable is unknown.
pub const NO_PATH_FOR_ARGS_MESSAGE: &'static str =
    "Startup arguments configured but cannot find Antigravity executable path. Please set the executable path manually in Settings.";

/// How the editor is started. `target` is the path that the user set, as
/// [`launch_path`] corrects it; it is used if it exists. `args` are the
/// arguments that the user set, `detected` the editor's executable as it
/// was found on this machine.
///
/// With a target: on a Mac a bundle or directory goes to the opener, any
/// other path is started itself; elsewhere the path is started. Without
/// one: on a Mac the opener gets the editor's name; on Windows arguments
/// need the detected executable and fail without it, and without arguments
/// the editor's address scheme is opened; on Linux the editor's command is
/// started.
pub open spec fn launch_plan(
    platform: Platform,
    target: Option<LaunchTargetView>,
    args: Seq<Seq<char>>,
    detected: Option<Seq<char>>,
) -> Result<LaunchPlanView, Seq<char>> {
    if target matches Some(found) && found.exists {
        let t = target->0;
        if platform == Platform::MacOs {
            if ends_with_seq(t.path, ".app"@) || t.is_dir {
                Ok(
                    LaunchPlanView {
                        kind: LaunchKind::ManualOpen,
                        program: "open"@,
                        args: seq!["-a"@, t.path] + args,
                        hide_window: false,
                    },
                )
            } else {
                Ok(
                    LaunchPlanView {
                        kind: LaunchKind::ManualDirect,
                        program: t.path,
                        args,
                        hide_window: false,
                    },
                )
            }
        } else {
            Ok(LaunchPlanView { kind: LaunchKind::Spawn, program: t.path, args, hide_window: false })
        }
    } else {
        match platform {
            Platform::MacOs => Ok(
                LaunchPlanView {
                    kind: LaunchKind::DefaultOpen,
                    program: "open"@,
                    args: seq!["-a"@, "Antigravity"@] + args,
                    hide_window: false,
                },
            ),
            Platform::Windows => if args.len() > 0 {
                match detected {
                    Some(path) => Ok(
                        LaunchPlanView {
                            kind: LaunchKind::Spawn,
                            program: path,
                            args,
                            hide_window: true,
                        },
                    ),
                    None => Err(NO_PATH_FOR_ARGS_MESSAGE@),
                }
            } else {
                Ok(
                    LaunchPlanView {
                        kind: LaunchKind::UrlScheme,
                        program: "cmd"@,
                        args: seq!["/C"@, "start"@, "antigravity://"@],
                        hide_window: true,
                    },
                )
            },
            Platform::Linux => Ok(
                LaunchPlanView {
                    kind: LaunchKind::Spawn,
                    program: "antigravity"@,
                    args,
                    hide_window: false,
                },
            ),
        }
    }
}

/// The view of an optional launch target.
pub open spec fn target_view(target: Option<&LaunchTarget>) -> Option<LaunchTargetView> {
    match target {
        Some(t) => Some(t@),
        None => None,
    }
}

/// The view of optional arguments: none count as an empty list.
pub open spec fn args_view(args: Option<&Vec<String>>) -> Seq<Seq<char>> {
    match args {
        Some(a) => strings_view(a@),
        None => Seq::empty(),
    }
}

/// The view of an optional string slice.
pub open spec fn opt_str(o: Option<&str>) -> Option<Seq<char>> {
    match o {
        Some(s) => Some(s@),
        None => None,
    }
}

/// `head` followed by copies of `tail`.
fn with_args(head: Vec<String>, tail: Option<&Vec<String>>) -> (r: Vec<String>)
    ensures
        strings_view(r@) == strings_view(head@) + args_view(tail),
{
    let ghost start = strings_view(head@);
    let mut out = head;
    match tail {
        Some(list) => {
            let mut i: usize = 0;
            assert(strings_view(out@) =~= start + strings_view(list@).take(0));
            while i < list.len()
                invariant
                    i <= list.len(),
                    strings_view(out@) == start + strings_view(list@).take(i as int),
                decreases list.len() - i,
            {
                let ghost before = strings_view(out@);
                out.push(list[i].clone());
                assert(strings_view(out@) =~= before.push(list@[i as int]@));
                assert(strings_view(out@) =~= start + strings_view(list@).take(i + 1));
                i += 1;
            }
            assert(strings_view(list@).take(list.len() as int) =~= strings_view(list@));
        },
        None => {
            assert(strings_view(out@) =~= start + Seq::empty());
        },
    }
    out
}

/// Decides how the editor is started. See [`launch_plan`].
pub fn start_antigravity(
    platform: Platform,
    target: Option<&LaunchTarget>,
    args: Option<&Vec<String>>,
    detected: Option<&str>,
) -> (r: Result<LaunchPlan, String>)
    ensures
        match r {
            Ok(plan) => launch_plan(platform, target_view(target), args_view(args), opt_str(detected))
                == Ok::<LaunchPlanView, Seq<char>>(plan@),
            Err(message) => launch_plan(
                platform,
                target_view(target),
                args_view(args),
                opt_str(detected),
            ) == Err::<LaunchPlanView, Seq<char>>(message@),
        },
{
    let usable = match target {
        Some(t) => t.exists,
        None => false,
    };
    if usable {
        let t = target.unwrap();
        match platform {
            Platform::MacOs => {
                if str_ends_with(t.path.as_str(), ".app") || t.is_dir {
                    let mut head: Vec<String> = Vec::new();
                    head.push(owned("-a"));
                    head.push(t.path.clone());
                    assert(strings_view(head@) =~= seq!["-a"@, t.path@]);
                    return Ok(
                        LaunchPlan {
                            kind: LaunchKind::ManualOpen,
                            program: owned("open"),
                            args: with_args(head, args),
                            hide_window: false,
                        },
                    );
                }
                let head: Vec<String> = Vec::new();
                assert(strings_view(head@) + args_view(args) =~= args_view(args));
                return Ok(
                    LaunchPlan {
                        kind: LaunchKind::ManualDirect,
                        program: t.path.clone(),
                        args: with_args(head, args),
                        hide_window: false,
                    },
                );
            },
            _ => {
                let head: Vec<String> = Vec::new();
                assert(strings_view(head@) + args_view(args) =~= args_view(args));
                return Ok(
                    LaunchPlan {
                        kind: LaunchKind::Spawn,
                        program: t.path.clone(),
                        args: with_args(head, args),
                        hide_window: false,
                    },
                );
            },
        }
    }
    match platform {
        Platform::MacOs => {
            let mut head: Vec<String> = Vec::new();
            head.push(owned("-a"));
            head.push(owned("Antigravity"));
            assert(strings_view(head@) =~= seq!["-a"@, "Antigravity"@]);
            Ok(
                LaunchPlan {
                    kind: LaunchKind::DefaultOpen,
                    program: owned("open"),
                    args: with_args(head, args),
                    hide_window: false,
                },
            )
        },
        Platform::Windows => {
            let has_args = match args {
                Some(a) => a.len() > 0,
                None => false,
            };
            if has_args {
                match detected {
                    Some(path) => {
                        let head: Vec<String> = Vec::new();
                        assert(strings_view(head@) + args_view(args) =~= args_view(args));
                        Ok(
                            LaunchPlan {
                                kind: LaunchKind::Spawn,
                                program: owned(path),
                                args: with_args(head, args),
                                hide_window: true,
                            },
                        )
                    },
                    None => Err(owned(NO_PATH_FOR_ARGS_MESSAGE)),
                }
            } else {
                let mut list: Vec<String> = Vec::new();
                list.push(owned("/C"));
                list.push(owned("start"));
                list.push(owned("antigravity://"));
                assert(strings_view(list@) =~= seq!["/C"@, "start"@, "antigravity://"@]);
                Ok(
                    LaunchPlan {
                        kind: LaunchKind::UrlScheme,
                        program: owned("cmd"),
                        args: list,
                        hide_window: true,
                    },
                )
            }
        },
        Platform::Linux => {
            let head: Vec<String> = Vec::new();
            assert(strings_view(head@) + args_view(args) =~= args_view(args));
            Ok(
                LaunchPlan {
                    kind: LaunchKind::Spawn,
                    program: owned("antigravity"),
                    args: with_args(head, args),
                    hide_window: false,
                },
            )
        },
    }
}

/// The message for a program that could not be started; `detail` is what
/// the system said.
pub open spec fn launch_failure_text(kind: LaunchKind, detail: Seq<char>) -> Seq<char> {
    match kind {
        LaunchKind::ManualOpen => "Startup failed (open): "@ + detail,
        LaunchKind::ManualDirect => "Startup failed (direct): "@ + detail,
        LaunchKind::Spawn => "Startup failed: "@ + detail,
        LaunchKind::DefaultOpen => "Unable to execute open command: "@ + detail,
        LaunchKind::UrlScheme => "Startup failed, please open Antigravity manually"@,
    }
}

/// The message for a program that could not be started.
pub fn launch_failure(kind: LaunchKind, detail: &str) -> (r: String)
    ensures
        r@ == launch_failure_text(kind, detail@),
{
    match kind {
        LaunchKind::ManualOpen => concat2("Startup failed (open): ", detail),
        LaunchKind::ManualDirect => concat2("Startup failed (direct): ", detail),
        LaunchKind::Spawn => concat2("Startup failed: ", detail),
        LaunchKind::DefaultOpen => concat2("Unable to execute open command: ", detail),
        LaunchKind::UrlScheme => owned("Startup failed, please open Antigravity manually"),
    }
}

/// The message for the opener that ran and reported a failure: `status` is
/// how it ended and `stderr` what it wrote.
pub fn open_exit_failure(status: &str, stderr: &str) -> (r: String)
    ensures
        r@ == "Startup failed (open exited with "@ + status@ + "): "@ + stderr@,
{
    let mut out = concat2("Startup failed (open exited with ", status);
    out.append("): ");
    out.append(stderr);
    out
}

/// Some argument holds one of the marks of a script host that the editor
/// started.
pub open spec fn has_script_mark(args: Seq<Seq<char>>) -> bool {
    exists|i: int|
        0 <= i < args.len() && (contains_seq(#[trigger] args[i], "node-ipc"@) || contains_seq(
            args[i],
            "nodeipc"@,
        ) || contains_seq(args[i], "max-old-space-size"@) || contains_seq(
            args[i],
            "node_modules"@,
        ))
}

/// Tells whether some argument holds a mark of a script host.
pub fn args_have_script_mark(args: &Vec<String>) -> (r: bool)
    ensures
        r == has_script_mark(strings_view(args@)),
{
    let mut i: usize = 0;
    while i < args.len()
        invariant
            i <= args.len(),
            forall|j: int|
                0 <= j < i ==> !(contains_seq(#[trigger] strings_view(args@)[j], "node-ipc"@)
                    || contains_seq(strings_view(args@)[j], "nodeipc"@) || contains_seq(
                    strings_view(args@)[j],
                    "max-old-space-size"@,
                ) || contains_seq(strings_view(args@)[j], "node_modules"@)),
        decreases args.len() - i,
    {
        let arg = args[i].as_str();
        if str_contains(arg, "node-ipc") || str_contains(arg, "nodeipc") || str_contains(
            arg,
            "max-old-space-size",
        ) || str_contains(arg, "node_modules") {
            assert(strings_view(args@)[i as int] == arg@);
            return true;
        }
        i += 1;
    }
    false
}

/// The process tells where the editor is installed: its executable is
/// known, it is not this tool, it looks like the editor, and it is neither
/// a helper nor a script host.
pub open spec fn is_discoverable(
    p: ProcessInfoView,
    context: ProcessContextView,
    platform: Platform,
) -> bool {
    &&& p.exe is Some
    &&& !is_own_process(facts_of(p), context)
    &&& !is_helper(facts_of(p))
    &&& !has_script_mark(facts_of(p).args)
    &&& looks_like_editor(facts_of(p), platform)
}

/// The position of the first process from `from` on that tells where the
/// editor is installed.
pub open spec fn first_discoverable(
    ps: Seq<ProcessInfoView>,
    context: ProcessContextView,
    platform: Platform,
    from: int,
) -> Option<int>
    decreases ps.len() - from,
{
    if from < 0 || from >= ps.len() {
        None
    } else if is_discoverable(ps[from], context, platform) {
        Some(from)
    } else {
        first_discoverable(ps, context, platform, from + 1)
    }
}

/// The place of the editor that a process tells: on a Mac the application
/// bundle that its executable lies in, else the executable.
pub open spec fn discovered_path(p: ProcessInfoView, platform: Platform) -> Seq<char> {
    launch_path(platform, p.exe->0)
}

/// The arguments that a process tells: its command line without the
/// program, in lower case.
pub open spec fn discovered_args(p: ProcessInfoView) -> Seq<Seq<char>> {
    if p.cmd.len() > 0 {
        lowercase_all(p.cmd).skip(1)
    } else {
        Seq::empty()
    }
}

/// Where the editor is installed and with which arguments it runs, as the
/// first process that tells it shows; nothing where no process does.
pub fn get_process_info(
    processes: &Vec<ProcessInfo>,
    context: &ProcessContext,
    platform: Platform,
) -> (r: (Option<String>, Option<Vec<String>>))
    ensures
        match first_discoverable(processes_view(processes@), context@, platform, 0) {
            Some(i) => {
                &&& opt_view(r.0) == Some(discovered_path(processes_view(processes@)[i], platform))
                &&& r.1 matches Some(args)
                &&& strings_view(args@) == discovered_args(processes_view(processes@)[i])
            },
            None => r.0 is None && r.1 is None,
        },
{
    let ghost ps = processes_view(processes@);
    let mut i: usize = 0;
    while i < processes.len()
        invariant
            i <= processes.len(),
            ps == processes_view(processes@),
            first_discoverable(ps, context@, platform, 0) == first_discoverable(
                ps,
                context@,
                platform,
                i as int,
            ),
        decreases processes.len() - i,
    {
        let p = &processes[i];
        match &p.exe {
            Some(exe) => {
                let facts = process_facts(p);
                let own = p.pid == context.own_pid || match (&context.own_exe, &p.exe_canonical) {
                    (Some(mine), Some(path)) => str_eq(mine.as_str(), path.as_str()),
                    _ => false,
                };
                if !own && !is_helper_process(&facts) && !args_have_script_mark(&facts.args)
                    && is_editor_like(&facts, platform) {
                    let path = launch_target_path(platform, exe.as_str());
                    let mut args: Vec<String> = Vec::new();
                    let mut k: usize = 1;
                    while k < facts.args.len()
                        invariant
                            1 <= k,
                            k <= facts.args.len() || k == 1,
                            args.len() == k - 1,
                            forall|j: int|
                                0 <= j < args.len() ==> (#[trigger] args@[j])@ == facts.args@[j
                                    + 1]@,
                        decreases facts.args.len() - k,
                    {
                        args.push(facts.args[k].clone());
                        k += 1;
                    }
                    proof {
                        assert(ps[i as int] == p@);
                        if facts.args.len() > 0 {
                            assert(strings_view(args@) =~= strings_view(facts.args@).skip(1));
                        } else {
                            assert(strings_view(args@) =~= Seq::empty());
                        }
                    }
                    return (Some(path), Some(args));
                }
            },
            None => {},
        }
        i += 1;
    }
    (None, None)
}

/// Where the editor is installed, as a running process shows.
pub fn get_path_from_running_process(
    processes: &Vec<ProcessInfo>,
    context: &ProcessContext,
    platform: Platform,
) -> (r: Option<String>)
    ensures
        match first_discoverable(processes_view(processes@), context@, platform, 0) {
            Some(i) => opt_view(r) == Some(
                discovered_path(processes_view(processes@)[i], platform),
            ),
            None => r is None,
        },
{
    get_process_info(processes, context, platform).0
}

/// The arguments that the editor runs with, as a running process shows.
pub fn get_args_from_running_process(
    processes: &Vec<ProcessInfo>,
    context: &ProcessContext,
    platform: Platform,
) -> (r: Option<Vec<String>>)
    ensures
        match first_discoverable(processes_view(processes@), context@, platform, 0) {
            Some(i) => r matches Some(args) && strings_view(args@) == discovered_args(
                processes_view(processes@)[i],
            ),
            None => r is None,
        },
{
    get_process_info(processes, context, platform).1
}

/// Where the editor is installed: where a running process shows it, else
/// `standard`, the first of the usual places at which it was found.
pub fn get_antigravity_executable_path(
    processes: &Vec<ProcessInfo>,
    context: &ProcessContext,
    platform: Platform,
    standard: Option<String>,
) -> (r: Option<String>)
    ensures
        match first_discoverable(processes_view(processes@), context@, platform, 0) {
            Some(i) => opt_view(r) == Some(
                discovered_path(processes_view(processes@)[i], platform),
            ),
            None => opt_view(r) == opt_view(standard),
        },
{
    match get_path_from_running_process(processes, context, platform) {
        Some(path) => Some(path),
        None => standard,
    }
}

/// The argument that names the directory of the editor's user data.
pub const USER_DATA_DIR_FLAG: &'static str = "--user-data-dir";

/// The same argument where the directory follows in the same word.
pub const USER_DATA_DIR_PREFIX: &'static str = "--user-data-dir=";

/// One naming of the directory of the editor's user data in a command line.
#[derive(Debug)]
pub struct DataDirArgument {
    pub path: String,
    /// The directory stands in the same argument, behind `=`; else it is
    /// the argument that follows.
    pub joined: bool,
}

/// The mathematical view of [`DataDirArgument`].
pub struct DataDirArgumentView {
    pub path: Seq<char>,
    pub joined: bool,
}

impl View for DataDirArgument {
    type V = DataDirArgumentView;

    open spec fn view(&self) -> DataDirArgumentView {
        DataDirArgumentView { path: self.path@, joined: self.joined }
    }
}

/// The views of a list of namings.
pub open spec fn namings_view(v: Seq<DataDirArgument>) -> Seq<DataDirArgumentView> {
    v.map_values(|a: DataDirArgument| a@)
}

/// The directories that the first `upto` arguments name as the editor's
/// user data, in order: what follows `--user-data-dir` as the next
/// argument, or in the same argument behind `=`.
pub open spec fn user_data_dirs(args: Seq<Seq<char>>, upto: int) -> Seq<DataDirArgumentView>
    decreases upto,
{
    if upto <= 0 {
        Seq::empty()
    } else {
        let i = upto - 1;
        let before = user_data_dirs(args, i);
        if i < args.len() && args[i] == USER_DATA_DIR_FLAG@ && i + 1 < args.len() {
            before.push(DataDirArgumentView { path: args[i + 1], joined: false })
        } else if i < args.len() && starts_with_seq(args[i], USER_DATA_DIR_PREFIX@) {
            before.push(
                DataDirArgumentView {
                    path: args[i].skip(USER_DATA_DIR_PREFIX@.len() as int),
                    joined: true,
                },
            )
        } else {
            before
        }
    }
}

/// The directories that the arguments name as the editor's user data.
pub fn user_data_dir_arguments(args: &Vec<String>) -> (r: Vec<DataDirArgument>)
    ensures
        namings_view(r@) == user_data_dirs(strings_view(args@), args.len() as int),
{
    let mut out: Vec<DataDirArgument> = Vec::new();
    let mut i: usize = 0;
    assert(namings_view(out@) =~= Seq::empty());
    while i < args.len()
        invariant
            i <= args.len(),
            namings_view(out@) == user_data_dirs(strings_view(args@), i as int),
        decreases args.len() - i,
    {
        let arg = args[i].as_str();
        let ghost before = namings_view(out@);
        if str_eq(arg, USER_DATA_DIR_FLAG) && i + 1 < args.len() {
            let found = DataDirArgument { path: args[i + 1].clone(), joined: false };
            out.push(found);
            assert(namings_view(out@) =~= before.push(found@));
        } else if str_starts_with(arg, USER_DATA_DIR_PREFIX) {
            let n = arg.unicode_len();
            proof {
                reveal_strlit("--user-data-dir=");
            }
            let found = DataDirArgument {
                path: arg.substring_char(16, n).to_owned(),
                joined: true,
            };
            assert(arg@.subrange(16, n as int) =~= arg@.skip(16));
            out.push(found);
            assert(namings_view(out@) =~= before.push(found@));
        }
        i += 1;
    }
    out
}

/// The directories that may hold the editor's user data, the likeliest
/// first: those that the arguments of the user's settings name, then those
/// that the arguments of the running editor name.
pub open spec fn data_dir_candidates(
    config_args: Seq<Seq<char>>,
    process_args: Seq<Seq<char>>,
) -> Seq<DataDirArgumentView> {
    user_data_dirs(config_args, config_args.len() as int) + user_data_dirs(
        process_args,
        process_args.len() as int,
    )
}

/// The directories that may hold the editor's user data, the likeliest first.
pub fn user_data_dir_candidates(
    config_args: Option<&Vec<String>>,
    process_args: Option<&Vec<String>>,
) -> (r: Vec<DataDirArgument>)
    ensures
        namings_view(r@) == data_dir_candidates(args_view(config_args), args_view(process_args)),
{
    let mut out = match config_args {
        Some(args) => user_data_dir_arguments(args),
        None => Vec::new(),
    };
    let ghost head = namings_view(out@);
    assert(head =~= user_data_dirs(args_view(config_args), args_view(config_args).len() as int));
    let mut tail = match process_args {
        Some(args) => user_data_dir_arguments(args),
        None => Vec::new(),
    };
    let ghost rest = namings_view(tail@);
    assert(rest =~= user_data_dirs(args_view(process_args), args_view(process_args).len() as int));
    out.append(&mut tail);
    assert(namings_view(out@) =~= head + rest);
    out
}

/// The candidate at position `i` can be the directory: it was named as an
/// argument of its own, or it stood behind `=` and exists. `exists` says
/// of each candidate, position by position, whether it exists on disk; a
/// candidate beyond its end counts as absent.
pub open spec fn is_usable_dir(
    candidates: Seq<DataDirArgumentView>,
    exists: Seq<bool>,
    i: int,
) -> bool {
    0 <= i < candidates.len() && (!candidates[i].joined || (i < exists.len() && exists[i]))
}

/// The directory of the editor's user data: the first candidate from
/// `from` on that can be the directory.
pub open spec fn chosen_data_dir(
    candidates: Seq<DataDirArgumentView>,
    exists: Seq<bool>,
    from: int,
) -> Option<Seq<char>>
    decreases candidates.len() - from,
{
    if from < 0 || from >= candidates.len() {
        None
    } else if is_usable_dir(candidates, exists, from) {
        Some(candidates[from].path)
    } else {
        chosen_data_dir(candidates, exists, from + 1)
    }
}

/// The directory of the editor's user data. The arguments of the user's
/// settings are looked at first, then those of the running editor; each
/// names a directory as the argument behind `--user-data-dir` or in the
/// same argument behind `=`. A directory of the second form counts only
/// if it exists: `exists` says so of each candidate that
/// [`user_data_dir_candidates`] gives, position by position.
pub fn get_user_data_dir_from_process(
    config_args: Option<&Vec<String>>,
    process_args: Option<&Vec<String>>,
    exists: &[bool],
) -> (r: Option<String>)
    ensures
        opt_view(r) == chosen_data_dir(
            data_dir_candidates(args_view(config_args), args_view(process_args)),
            exists@,
            0,
        ),
{
    let candidates = user_data_dir_candidates(config_args, process_args);
    let ghost all = namings_view(candidates@);
    let mut i: usize = 0;
    while i < candidates.len()
        invariant
            i <= candidates.len(),
            all == namings_view(candidates@),
            all == data_dir_candidates(args_view(config_args), args_view(process_args)),
            chosen_data_dir(all, exists@, 0) == chosen_data_dir(all, exists@, i as int),
        decreases candidates.len() - i,
    {
        assert(all[i as int] == candidates@[i as int]@);
        if !candidates[i].joined || (i < exists.len() && exists[i]) {
            return Some(candidates[i].path.clone());
        }
        i += 1;
    }
    None
}

/// How far the closing has come in a phase.
pub open spec fn shutdown_progress(phase: ShutdownPhase) -> int {
    match phase {
        ShutdownPhase::Start => 0,
        ShutdownPhase::Waiting { polls } => 1 + polls,
        ShutdownPhase::Settling => 2 + u64::MAX,
    }
}

/// Every step that does not end the closing brings it further, and the last
/// phase ends it: the closing is over after finitely many steps, whatever
/// the looks at the processes show. Processes are killed only when the
/// time that the editor is given is up.
pub proof fn law_closing_always_advances(
    phase: ShutdownPhase,
    pids: Seq<u32>,
    main: Option<u32>,
    timeout_secs: u64,
)
    ensures
        !(shutdown_step(phase, pids, main, timeout_secs).1 is Done) ==> shutdown_progress(
            shutdown_step(phase, pids, main, timeout_secs).0,
        ) > shutdown_progress(phase),
        phase == ShutdownPhase::Settling ==> shutdown_step(phase, pids, main, timeout_secs).1
            is Done,
        shutdown_step(phase, pids, main, timeout_secs).1 is Kill ==> phase is Waiting
            && !keeps_waiting(phase->polls, timeout_secs),
{
}

} // verus!
