use vstd::prelude::*;
use vstd::multiset::Multiset;

use crate::redact::{opt_str_view, redact, redacted};
use crate::text::{
    ascii_lowercase, chars_of, contains, contains_exec, occurs_at, push_all, starts_with_exec,
    str_eq, string_of, to_ascii_lowercase, trim, trim_chars, trim_exec,
};

verus! {

/// The operating system the app runs on; `Linux` stands for every system that is neither
/// Windows nor macOS.
#[derive(Debug, Clone, Copy, PartialEq, Eq, Structural)]
pub enum Platform {
    Windows,
    Macos,
    Linux,
}

/// The file names under which the Codex CLI is looked for.
pub open spec fn codex_names_spec(platform: Platform) -> Seq<Seq<char>> {
    if platform == Platform::Windows {
        seq!["codex.exe"@, "codex.cmd"@, "codex.bat"@, "codex.ps1"@, "codex"@]
    } else {
        seq!["codex"@]
    }
}

/// The file names under which the Codex CLI is looked for, in the order they are tried.
pub fn codex_names(platform: Platform) -> (names: Vec<&'static str>)
    ensures
        names@.map_values(|n: &str| n@) == codex_names_spec(platform),
{
    let names: Vec<&'static str> = if platform == Platform::Windows {
        vec!["codex.exe", "codex.cmd", "codex.bat", "codex.ps1", "codex"]
    } else {
        vec!["codex"]
    };
    assert(names@.map_values(|n: &str| n@) =~= codex_names_spec(platform));
    names
}

/// A bundled-binary directory name (already lower case) is for this platform.
pub open spec fn target_matches_platform_spec(target: Seq<char>, platform: Platform) -> bool {
    match platform {
        Platform::Windows => contains(target, "windows"@),
        Platform::Macos => contains(target, "darwin"@) || contains(target, "macos"@),
        Platform::Linux => contains(target, "linux"@),
    }
}

/// Whether a bundled-binary directory name (already lower case) is for this platform.
pub fn target_matches_current_platform(target: &str, platform: Platform) -> (b: bool)
    ensures
        b == target_matches_platform_spec(target@, platform),
{
    match platform {
        Platform::Windows => contains_exec(target, "windows"),
        Platform::Macos => contains_exec(target, "darwin") || contains_exec(target, "macos"),
        Platform::Linux => contains_exec(target, "linux"),
    }
}

/// A bundled-binary directory name (already lower case) is for the CPU architecture `arch`
/// (as Rust names it): `x86_64` also goes by `x64`, `aarch64` by `arm64`.
pub open spec fn target_matches_architecture_spec(target: Seq<char>, arch: Seq<char>) -> bool {
    if arch == "x86_64"@ {
        contains(target, "x86_64"@) || contains(target, "x64"@)
    } else if arch == "aarch64"@ {
        contains(target, "aarch64"@) || contains(target, "arm64"@)
    } else {
        contains(target, arch)
    }
}

/// Whether a bundled-binary directory name (already lower case) is for the architecture
/// `arch`.
pub fn target_matches_current_architecture(target: &str, arch: &str) -> (b: bool)
    ensures
        b == target_matches_architecture_spec(target@, arch@),
{
    if str_eq(arch, "x86_64") {
        contains_exec(target, "x86_64") || contains_exec(target, "x64")
    } else if str_eq(arch, "aarch64") {
        contains_exec(target, "aarch64") || contains_exec(target, "arm64")
    } else {
        contains_exec(target, arch)
    }
}

/// An editor extension directory belongs to the OpenAI ChatGPT/Codex extension: its name,
/// in lower case, is `openai.chatgpt` or starts with `openai.chatgpt-`.
pub open spec fn is_codex_extension_spec(name: Seq<char>) -> bool {
    let lower = ascii_lowercase(name);
    lower == "openai.chatgpt"@ || occurs_at(lower, "openai.chatgpt-"@, 0)
}

/// Whether an editor extension directory belongs to the OpenAI extension.
pub fn is_codex_extension(name: &str) -> (b: bool)
    ensures
        b == is_codex_extension_spec(name@),
{
    let lower = to_ascii_lowercase(name);
    str_eq(lower.as_str(), "openai.chatgpt") || starts_with_exec(lower.as_str(), "openai.chatgpt-")
}

/// A Codex binary that was found: whether it is built for this CPU architecture, when it
/// was last modified (nanoseconds from the Unix epoch), and where it is.
#[derive(Debug, Clone)]
pub struct CodexCandidate {
    pub architecture_match: bool,
    pub modified: i128,
    pub path: String,
}

/// `a` ranks below `b`: architecture match first, then modification time.
pub open spec fn ranks_below(a: CodexCandidate, b: CodexCandidate) -> bool {
    (!a.architecture_match && b.architecture_match) || (a.architecture_match
        == b.architecture_match && a.modified < b.modified)
}

/// Notes the binary at `path` as a candidate where it is a file (`modified` is its
/// modification time then, `None` where it is not a file).
pub fn push_codex_candidate(
    candidates: &mut Vec<CodexCandidate>,
    path: String,
    modified: Option<i128>,
    architecture_match: bool,
)
    ensures
        modified is None ==> final(candidates)@ == old(candidates)@,
        modified matches Some(m) ==> final(candidates)@.len() == old(candidates)@.len() + 1
            && final(candidates)@.drop_last() == old(candidates)@ && final(candidates)@.last()
            == (CodexCandidate { architecture_match, modified: m, path }),
{
    match modified {
        None => {},
        Some(m) => {
            candidates.push(CodexCandidate { architecture_match, modified: m, path });
            assert(candidates@.drop_last() =~= old(candidates)@);
        },
    }
}

/// The candidate that is used: the first of those that no other candidate ranks above.
pub fn best_candidate(candidates: &Vec<CodexCandidate>) -> (r: Option<usize>)
    ensures
        r is None <==> candidates@.len() == 0,
        r matches Some(i) ==> i < candidates@.len(),
        r matches Some(i) ==> forall|j: int|
            0 <= j < candidates@.len() ==> !ranks_below(candidates@[i as int], #[trigger] candidates@[j]),
        r matches Some(i) ==> forall|j: int|
            0 <= j < i ==> ranks_below(#[trigger] candidates@[j], candidates@[i as int]),
{
    if candidates.len() == 0 {
        return None;
    }
    let mut best: usize = 0;
    let mut k: usize = 1;
    while k < candidates.len()
        invariant
            0 <= best < k <= candidates.len(),
            forall|j: int|
                0 <= j < k ==> !ranks_below(candidates@[best as int], #[trigger] candidates@[j]),
            forall|j: int| 0 <= j < best ==> ranks_below(#[trigger] candidates@[j], candidates@[best as int]),
        decreases candidates.len() - k,
    {
        let a = &candidates[best];
        let b = &candidates[k];
        if (!a.architecture_match && b.architecture_match) || (a.architecture_match
            == b.architecture_match && a.modified < b.modified) {
            best = k;
        }
        k = k + 1;
    }
    Some(best)
}

/// The path of the candidate that is used, if any was found.
pub fn select_codex(candidates: &Vec<CodexCandidate>) -> (r: Option<String>)
    ensures
        r is None <==> candidates@.len() == 0,
        r matches Some(p) ==> exists|i: int|
            0 <= i < candidates@.len() && p@ == candidates@[i].path@ && (forall|j: int|
                0 <= j < candidates@.len() ==> !ranks_below(candidates@[i], #[trigger] candidates@[j]))
                && (forall|j: int| 0 <= j < i ==> ranks_below(#[trigger] candidates@[j], candidates@[i])),
{
    match best_candidate(candidates) {
        None => None,
        Some(i) => {
            let p = candidates[i].path.clone();
            assert(p@ == candidates@[i as int].path@);
            Some(p)
        },
    }
}

/// Law: the selected candidate outranks or ties with every candidate, and where several tie
/// the earliest found wins, so selection does not depend on anything but the list.
pub proof fn law_selected_candidate_is_first_best(
    candidates: Seq<CodexCandidate>,
    i: int,
    i2: int,
)
    requires
        0 <= i < candidates.len(),
        0 <= i2 < candidates.len(),
        forall|j: int| 0 <= j < candidates.len() ==> !ranks_below(candidates[i], #[trigger] candidates[j]),
        forall|j: int| 0 <= j < i ==> ranks_below(#[trigger] candidates[j], candidates[i]),
        forall|j: int| 0 <= j < candidates.len() ==> !ranks_below(candidates[i2], #[trigger] candidates[j]),
        forall|j: int| 0 <= j < i2 ==> ranks_below(#[trigger] candidates[j], candidates[i2]),
    ensures
        i == i2,
{
    if i < i2 {
        assert(ranks_below(candidates[i], candidates[i2]));
    } else if i2 < i {
        assert(ranks_below(candidates[i2], candidates[i]));
    }
}

/// A bounded depth-first walk of directory trees, in which Codex binaries are looked for.
/// The directories still to visit, with their depth below the root they came from, form a
/// stack; none is deeper than the limit. The walk also keeps, as ghost state, every
/// directory ever added and every directory handed out, in order.
pub struct DirWalk {
    pending: Vec<(String, usize)>,
    max_depth: usize,
    added: Ghost<Seq<(Seq<char>, usize)>>,
    visited: Ghost<Seq<(Seq<char>, usize)>>,
}

/// The mathematical content of a [`DirWalk`].
pub struct DirWalkView {
    pub pending: Seq<(Seq<char>, usize)>,
    pub max_depth: usize,
    /// Every directory added so far (roots and subdirectories), with its depth.
    pub added: Seq<(Seq<char>, usize)>,
    /// Every directory handed out by `next_dir` so far, with its depth.
    pub visited: Seq<(Seq<char>, usize)>,
}

impl View for DirWalk {
    type V = DirWalkView;

    closed spec fn view(&self) -> DirWalkView {
        DirWalkView {
            pending: self.pending@.map_values(|e: (String, usize)| (e.0@, e.1)),
            max_depth: self.max_depth,
            added: self.added@,
            visited: self.visited@,
        }
    }
}

impl DirWalkView {
    /// No directory waiting to be visited is deeper than the limit, and what was added is
    /// exactly what was handed out together with what still waits (counted with repeats).
    pub open spec fn wf(self) -> bool {
        &&& forall|i: int|
            0 <= i < self.pending.len() ==> (#[trigger] self.pending[i]).1 <= self.max_depth
        &&& self.added.to_multiset() == self.visited.to_multiset().add(self.pending.to_multiset())
    }
}

impl DirWalk {
    /// A walk of the given root directories, at depth 0, down to `max_depth`.
    pub fn new(roots: Vec<String>, max_depth: usize) -> (w: DirWalk)
        ensures
            w@.max_depth == max_depth,
            w@.pending == roots@.map_values(|r: String| (r@, 0usize)),
            w@.added == w@.pending,
            w@.visited == Seq::<(Seq<char>, usize)>::empty(),
            w@.wf(),
    {
        let mut pending: Vec<(String, usize)> = Vec::new();
        let mut i: usize = 0;
        while i < roots.len()
            invariant
                i <= roots.len(),
                pending@.map_values(|e: (String, usize)| (e.0@, e.1)) == roots@.take(
                    i as int,
                ).map_values(|r: String| (r@, 0usize)),
            decreases roots.len() - i,
        {
            let ghost before = pending@;
            pending.push((roots[i].clone(), 0));
            assert(pending@.map_values(|e: (String, usize)| (e.0@, e.1)) =~= before.map_values(
                |e: (String, usize)| (e.0@, e.1),
            ).push((roots@[i as int]@, 0usize)));
            assert(roots@.take(i + 1).map_values(|r: String| (r@, 0usize)) =~= roots@.take(
                i as int,
            ).map_values(|r: String| (r@, 0usize)).push((roots@[i as int]@, 0usize)));
            i = i + 1;
        }
        assert(roots@.take(roots.len() as int) =~= roots@);
        let ghost start = pending@.map_values(|e: (String, usize)| (e.0@, e.1));
        proof {
            broadcast use vstd::multiset::group_multiset_axioms;

            broadcast use vstd::seq_lib::group_to_multiset_ensures;
            broadcast use vstd::multiset::lemma_multiset_empty_len;

            assert(Seq::<(Seq<char>, usize)>::empty().to_multiset().len() == 0);
            assert(start.to_multiset() =~= Multiset::empty().add(start.to_multiset()));
        }
        DirWalk {
            pending,
            max_depth,
            added: Ghost(start),
            visited: Ghost(Seq::empty()),
        }
    }

    /// The next directory to visit (the most recently added one), its depth, and whether
    /// its subdirectories are visited too (only above the depth limit); `None` when the
    /// walk is over, and then every directory added has been handed out exactly once.
    pub fn next_dir(&mut self) -> (r: Option<(String, usize, bool)>)
        requires
            old(self)@.wf(),
        ensures
            final(self)@.wf(),
            final(self)@.max_depth == old(self)@.max_depth,
            final(self)@.added == old(self)@.added,
            old(self)@.pending.len() == 0 ==> r is None && final(self)@ == old(self)@
                && final(self)@.visited.to_multiset() == final(self)@.added.to_multiset(),
            old(self)@.pending.len() > 0 ==> (r matches Some(t) && (t.0@, t.1) == old(
                self,
            )@.pending.last() && t.1 <= old(self)@.max_depth && t.2 == (t.1 < old(
                self,
            )@.max_depth) && final(self)@.pending == old(self)@.pending.drop_last()
                && final(self)@.visited == old(self)@.visited.push((t.0@, t.1))),
    {
        if self.pending.len() == 0 {
            proof {
                broadcast use vstd::multiset::group_multiset_axioms;

                broadcast use vstd::seq_lib::group_to_multiset_ensures;
                broadcast use vstd::multiset::lemma_multiset_empty_len;

                assert(self@.pending.to_multiset().len() == 0);
                assert(self@.visited.to_multiset().add(Multiset::empty())
                    =~= self@.visited.to_multiset());
            }
            return None;
        }
        let ghost p0 = self@.pending;
        let (dir, depth) = self.pending.pop().unwrap();
        assert(self@.pending =~= old(self)@.pending.drop_last());
        assert(old(self)@.pending.last() == (dir@, depth));
        let ghost e = (dir@, depth);
        proof {
            broadcast use vstd::multiset::group_multiset_axioms;
            broadcast use vstd::seq_lib::to_multiset_build;

            assert(p0 =~= p0.drop_last().push(e));
            let v0 = self.visited@;
            self.visited@ = v0.push(e);
            assert(v0.push(e).to_multiset().add(p0.drop_last().to_multiset()) =~= v0.to_multiset().add(
                p0.drop_last().push(e).to_multiset(),
            ));
        }
        Some((dir, depth, depth < self.max_depth))
    }

    /// Adds the subdirectories of a visited directory at `depth`, which lies above the
    /// depth limit; the last one given is visited first.
    pub fn push_subdirs(&mut self, subdirs: Vec<String>, depth: usize)
        requires
            old(self)@.wf(),
            depth < old(self)@.max_depth,
        ensures
            final(self)@.wf(),
            final(self)@.max_depth == old(self)@.max_depth,
            final(self)@.visited == old(self)@.visited,
            final(self)@.pending == old(self)@.pending + subdir_entries(
                subdirs@.map_values(|s: String| s@),
                (depth + 1) as usize,
            ),
            final(self)@.added == old(self)@.added + subdir_entries(
                subdirs@.map_values(|s: String| s@),
                (depth + 1) as usize,
            ),
    {
        let ghost start = self@.pending;
        let ghost names = subdirs@.map_values(|s: String| s@);
        let mut i: usize = 0;
        while i < subdirs.len()
            invariant
                i <= subdirs.len(),
                depth < self.max_depth,
                self.max_depth == old(self)@.max_depth,
                self.added@ == old(self)@.added,
                self.visited@ == old(self)@.visited,
                start == old(self)@.pending,
                names == subdirs@.map_values(|s: String| s@),
                self@.pending == start + subdir_entries(names.take(i as int), (depth + 1) as usize),
                forall|k: int| 0 <= k < self@.pending.len() ==> (#[trigger] self@.pending[k]).1 <= self.max_depth,
            decreases subdirs.len() - i,
        {
            let ghost before = self.pending@;
            self.pending.push((subdirs[i].clone(), depth + 1));
            assert(self@.pending =~= before.map_values(|e: (String, usize)| (e.0@, e.1)).push(
                (subdirs@[i as int]@, (depth + 1) as usize),
            ));
            assert(names.take(i + 1) =~= names.take(i as int).push(names[i as int]));
            assert(subdir_entries(names.take(i + 1), (depth + 1) as usize) =~= subdir_entries(
                names.take(i as int),
                (depth + 1) as usize,
            ).push((names[i as int], (depth + 1) as usize)));
            i = i + 1;
        }
        assert(names.take(subdirs.len() as int) =~= names);
        let ghost new = subdir_entries(names, (depth + 1) as usize);
        proof {
            broadcast use vstd::multiset::group_multiset_axioms;
            broadcast use vstd::seq_lib::lemma_multiset_commutative;

            let a0 = self.added@;
            self.added@ = a0 + new;
            assert((a0 + new).to_multiset() =~= a0.to_multiset().add(new.to_multiset()));
            assert((start + new).to_multiset() =~= start.to_multiset().add(new.to_multiset()));
            assert(self@.visited.to_multiset().add((start + new).to_multiset())
                =~= a0.to_multiset().add(new.to_multiset()));
        }
    }
}

/// The entries of the directories `names`, each at `depth`.
pub open spec fn subdir_entries(names: Seq<Seq<char>>, depth: usize) -> Seq<(Seq<char>, usize)> {
    names.map_values(|n: Seq<char>| (n, depth))
}

/// Law: once the walk is over, every directory that was added to it has been handed out by
/// `next_dir` exactly once (as often as it was added).
pub proof fn law_walk_visits_each_once(w: DirWalkView)
    requires
        w.wf(),
        w.pending.len() == 0,
    ensures
        w.visited.to_multiset() == w.added.to_multiset(),
{
    broadcast use vstd::multiset::group_multiset_axioms;

    broadcast use vstd::seq_lib::group_to_multiset_ensures;
    broadcast use vstd::multiset::lemma_multiset_empty_len;

    assert(w.pending.to_multiset().len() == 0);
    assert(w.visited.to_multiset().add(Multiset::empty()) =~= w.visited.to_multiset());
}

/// How many directories a walk down to `max_depth` visits in the tree below `dir` at
/// `depth`, where `children` gives each directory's subdirectories: the directory itself,
/// and, above the limit, the trees of its subdirectories.
pub open spec fn tree_size(
    children: spec_fn(Seq<char>) -> Seq<Seq<char>>,
    dir: Seq<char>,
    depth: int,
    max_depth: int,
) -> nat
    decreases (if max_depth >= depth { max_depth - depth } else { 0 }), 0nat,
{
    if depth >= max_depth {
        1
    } else {
        1 + forest_size(children, children(dir), depth + 1, max_depth)
    }
}

/// How many directories a walk visits in the trees below `names`, all at `depth`.
pub open spec fn forest_size(
    children: spec_fn(Seq<char>) -> Seq<Seq<char>>,
    names: Seq<Seq<char>>,
    depth: int,
    max_depth: int,
) -> nat
    decreases (if max_depth >= depth { max_depth - depth } else { 0 }), names.len(),
{
    if names.len() == 0 {
        0
    } else {
        forest_size(children, names.drop_last(), depth, max_depth) + tree_size(
            children,
            names.last(),
            depth,
            max_depth,
        )
    }
}

/// How many directories a walk over `children` still visits: the trees below each pending
/// directory.
pub open spec fn walk_size(
    children: spec_fn(Seq<char>) -> Seq<Seq<char>>,
    pending: Seq<(Seq<char>, usize)>,
    max_depth: int,
) -> nat
    decreases pending.len(),
{
    if pending.len() == 0 {
        0
    } else {
        walk_size(children, pending.drop_last(), max_depth) + tree_size(
            children,
            pending.last().0,
            pending.last().1 as int,
            max_depth,
        )
    }
}

proof fn lemma_walk_size_append(
    children: spec_fn(Seq<char>) -> Seq<Seq<char>>,
    rest: Seq<(Seq<char>, usize)>,
    names: Seq<Seq<char>>,
    depth: usize,
    max_depth: int,
)
    ensures
        walk_size(children, rest + subdir_entries(names, depth), max_depth) == walk_size(
            children,
            rest,
            max_depth,
        ) + forest_size(children, names, depth as int, max_depth),
    decreases names.len(),
{
    if names.len() == 0 {
        assert(rest + subdir_entries(names, depth) =~= rest);
    } else {
        let init = names.drop_last();
        lemma_walk_size_append(children, rest, init, depth, max_depth);
        let s = rest + subdir_entries(names, depth);
        assert(s.drop_last() =~= rest + subdir_entries(init, depth));
        assert(s.last() == (names.last(), depth));
    }
}

/// Law: the walk ends over every finite directory tree. Where, after each directory that
/// `next_dir` hands out above the depth limit, the subdirectories that `children` gives are
/// added with `push_subdirs`, each such step shrinks the number of directories still to be
/// visited (`walk_size`) by exactly one; so the walk ends after `walk_size` of the roots
/// steps, having visited every directory of the trees down to the limit.
pub proof fn law_walk_ends(
    children: spec_fn(Seq<char>) -> Seq<Seq<char>>,
    before: DirWalkView,
    after: DirWalkView,
)
    requires
        before.pending.len() > 0,
        after.pending == if before.pending.last().1 < before.max_depth {
            before.pending.drop_last() + subdir_entries(
                children(before.pending.last().0),
                (before.pending.last().1 + 1) as usize,
            )
        } else {
            before.pending.drop_last()
        },
        after.max_depth == before.max_depth,
    ensures
        walk_size(children, after.pending, after.max_depth as int) + 1 == walk_size(
            children,
            before.pending,
            before.max_depth as int,
        ),
{
    let (d, depth) = before.pending.last();
    if depth < before.max_depth {
        lemma_walk_size_append(
            children,
            before.pending.drop_last(),
            children(d),
            (depth + 1) as usize,
            before.max_depth as int,
        );
    }
}

/// The lines of `s`, split at line feeds (the last, unfinished line included).
pub open spec fn line_segments(s: Seq<char>) -> Seq<Seq<char>>
    decreases s.len(),
{
    if s.len() == 0 {
        seq![Seq::<char>::empty()]
    } else {
        let p = line_segments(s.drop_last());
        if s.last() == '\n' {
            p.push(Seq::empty())
        } else {
            p.update(p.len() - 1, p.last().push(s.last()))
        }
    }
}

/// The trimmed lines that are not empty, in order.
pub open spec fn kept_lines(segs: Seq<Seq<char>>) -> Seq<Seq<char>>
    decreases segs.len(),
{
    if segs.len() == 0 {
        Seq::empty()
    } else {
        kept_lines(segs.drop_last()) + if trim(segs.last()).len() > 0 {
            seq![trim(segs.last())]
        } else {
            Seq::empty()
        }
    }
}

/// The paths that `where`/`which` printed: each line of its output, trimmed, where not
/// empty.
pub fn which_output_paths(stdout: &str) -> (paths: Vec<String>)
    ensures
        paths@.map_values(|p: String| p@) == kept_lines(line_segments(stdout@)),
{
    let x = chars_of(stdout);
    let mut out: Vec<String> = Vec::new();
    let mut cur: Vec<char> = Vec::new();
    let ghost mut done: Seq<Seq<char>> = Seq::empty();
    let mut i: usize = 0;
    assert(x@.take(0) =~= Seq::<char>::empty());
    while i < x.len()
        invariant
            i <= x.len(),
            x@ == stdout@,
            line_segments(x@.take(i as int)) == done.push(cur@),
            out@.map_values(|p: String| p@) == kept_lines(done),
        decreases x.len() - i,
    {
        let c = x[i];
        assert(x@.take(i + 1).drop_last() =~= x@.take(i as int));
        if c == '\n' {
            let t = trim_chars(&cur);
            let ghost before = out@;
            if t.len() > 0 {
                out.push(string_of(&t));
                assert(out@.map_values(|p: String| p@) =~= before.map_values(|p: String| p@).push(
                    t@,
                ));
            }
            proof {
                assert(kept_lines(done.push(cur@)).len() >= 0);
                assert(done.push(cur@).drop_last() =~= done);
                done = done.push(cur@);
                assert(out@.map_values(|p: String| p@) =~= kept_lines(done));
            }
            cur = Vec::new();
        } else {
            cur.push(c);
            proof {
                assert(done.push(cur@.drop_last()).update(done.len() as int, cur@) =~= done.push(
                    cur@,
                ));
            }
        }
        i = i + 1;
    }
    assert(x@.take(x.len() as int) =~= x@);
    let t = trim_chars(&cur);
    let ghost before = out@;
    if t.len() > 0 {
        out.push(string_of(&t));
    }
    assert(done.push(cur@).drop_last() =~= done);
    assert(out@.map_values(|p: String| p@) =~= kept_lines(done.push(cur@)));
    out
}

/// How the app server is launched: the program and its arguments.
pub struct LaunchSpec {
    pub program: String,
    pub args: Vec<String>,
}

/// The arguments that start the app server on standard input and output.
pub open spec fn server_args() -> Seq<Seq<char>> {
    seq!["app-server"@, "--listen"@, "stdio://"@]
}

/// How the Codex binary at `path` (whose file extension is `extension`, where it has one)
/// is launched as an app server: on Windows, `.cmd` and `.bat` wrappers through
/// `cmd.exe /d /s /c` and `.ps1` scripts through PowerShell; otherwise directly.
pub open spec fn launch_spec(path: Seq<char>, extension: Option<Seq<char>>, platform: Platform) -> (
    Seq<char>,
    Seq<Seq<char>>,
) {
    let ext = match extension {
        Some(e) => ascii_lowercase(e),
        None => Seq::empty(),
    };
    if platform == Platform::Windows && (ext == "cmd"@ || ext == "bat"@) {
        (
            "cmd.exe"@,
            seq![
                "/d"@,
                "/s"@,
                "/c"@,
                seq!['"'] + path + seq!['"'] + " app-server --listen stdio://"@,
            ],
        )
    } else if platform == Platform::Windows && ext == "ps1"@ {
        (
            "powershell.exe"@,
            seq![
                "-NoLogo"@,
                "-NoProfile"@,
                "-NonInteractive"@,
                "-ExecutionPolicy"@,
                "Bypass"@,
                "-File"@,
                path,
            ] + server_args(),
        )
    } else {
        (path, server_args())
    }
}

/// Law: on Windows, a `.cmd` or `.bat` wrapper (in any letter case) runs through
/// `cmd.exe /d /s /c` with the quoted path and the app-server arguments as one command
/// line, a `.ps1` script through PowerShell with the path after `-File`; every other binary,
/// and every binary elsewhere, runs directly with `app-server --listen stdio://`.
pub proof fn law_launch_by_extension(path: Seq<char>, extension: Option<Seq<char>>, platform: Platform)
    ensures
        ({
            let ext = if extension is Some { ascii_lowercase(extension->0) } else { Seq::empty() };
            let (program, args) = launch_spec(path, extension, platform);
            &&& platform == Platform::Windows && (ext == "cmd"@ || ext == "bat"@) ==> program
                == "cmd.exe"@ && args == seq![
                "/d"@,
                "/s"@,
                "/c"@,
                seq!['"'] + path + seq!['"'] + " app-server --listen stdio://"@,
            ]
            &&& platform == Platform::Windows && ext == "ps1"@ ==> program == "powershell.exe"@
                && args.len() == 10 && args[5] == "-File"@ && args[6] == path && args[7]
                == "app-server"@ && args[8] == "--listen"@ && args[9] == "stdio://"@
            &&& (platform != Platform::Windows || (ext != "cmd"@ && ext != "bat"@ && ext
                != "ps1"@)) ==> program == path && args == seq![
                "app-server"@,
                "--listen"@,
                "stdio://"@,
            ]
        }),
{
    reveal_strlit("cmd");
    reveal_strlit("bat");
    reveal_strlit("ps1");
    assert("ps1"@ != "cmd"@) by {
        assert("ps1"@[0] != "cmd"@[0]);
    }
    assert("ps1"@ != "bat"@) by {
        assert("ps1"@[0] != "bat"@[0]);
    }
    let ext = if extension is Some { ascii_lowercase(extension->0) } else { Seq::empty() };
    if platform == Platform::Windows && !(ext == "cmd"@ || ext == "bat"@) && ext == "ps1"@ {
        let head = seq![
            "-NoLogo"@,
            "-NoProfile"@,
            "-NonInteractive"@,
            "-ExecutionPolicy"@,
            "Bypass"@,
            "-File"@,
            path,
        ];
        let args = head + server_args();
        assert(args.len() == 10);
        assert(args[5] == "-File"@);
        assert(args[6] == path);
        assert(args[7] == "app-server"@);
        assert(args[8] == "--listen"@);
        assert(args[9] == "stdio://"@);
    }
}

/// Strings from string literals.
fn strings_of(items: Vec<&str>) -> (out: Vec<String>)
    ensures
        out@.map_values(|s: String| s@) == items@.map_values(|s: &str| s@),
{
    let mut out: Vec<String> = Vec::new();
    let mut i: usize = 0;
    while i < items.len()
        invariant
            i <= items.len(),
            out@.map_values(|s: String| s@) == items@.take(i as int).map_values(|s: &str| s@),
        decreases items.len() - i,
    {
        let ghost before = out@;
        out.push(items[i].to_owned());
        assert(out@.map_values(|s: String| s@) =~= before.map_values(|s: String| s@).push(
            items@[i as int]@,
        ));
        assert(items@.take(i + 1).map_values(|s: &str| s@) =~= items@.take(i as int).map_values(
            |s: &str| s@,
        ).push(items@[i as int]@));
        i = i + 1;
    }
    assert(items@.take(items.len() as int) =~= items@);
    out
}

/// How the Codex binary at `path` is launched as an app server (see [`launch_spec`]).
pub fn app_server_command(path: &str, extension: Option<&str>, platform: Platform) -> (r:
    LaunchSpec)
    ensures
        (r.program@, r.args@.map_values(|s: String| s@)) == launch_spec(
            path@,
            opt_str_view(extension),
            platform,
        ),
{
    let ext = match extension {
        Some(e) => to_ascii_lowercase(e),
        None => String::new(),
    };
    let ext_ref = ext.as_str();
    if platform == Platform::Windows && (str_eq(ext_ref, "cmd") || str_eq(ext_ref, "bat")) {
        let mut line: Vec<char> = vec!['"'];
        push_all(&mut line, &chars_of(path));
        line.push('"');
        push_all(&mut line, &chars_of(" app-server --listen stdio://"));
        assert(line@ =~= seq!['"'] + path@ + seq!['"'] + " app-server --listen stdio://"@);
        let flags = vec!["/d", "/s", "/c"];
        assert(flags@.map_values(|s: &str| s@) =~= seq!["/d"@, "/s"@, "/c"@]);
        let mut args = strings_of(flags);
        let ghost before = args@;
        args.push(string_of(&line));
        assert(args@.map_values(|s: String| s@) =~= before.map_values(|s: String| s@).push(
            line@,
        ));
        let r = LaunchSpec { program: "cmd.exe".to_owned(), args };
        assert(r.args@.map_values(|s: String| s@) =~= launch_spec(
            path@,
            opt_str_view(extension),
            platform,
        ).1);
        r
    } else if platform == Platform::Windows && str_eq(ext_ref, "ps1") {
        let head = vec![
            "-NoLogo",
            "-NoProfile",
            "-NonInteractive",
            "-ExecutionPolicy",
            "Bypass",
            "-File",
        ];
        assert(head@.map_values(|s: &str| s@) =~= seq![
            "-NoLogo"@,
            "-NoProfile"@,
            "-NonInteractive"@,
            "-ExecutionPolicy"@,
            "Bypass"@,
            "-File"@,
        ]);
        let mut args = strings_of(head);
        let ghost a0 = args@;
        args.push(path.to_owned());
        let ghost a1 = args@;
        let lits = vec!["app-server", "--listen", "stdio://"];
        assert(lits@.map_values(|s: &str| s@) =~= server_args());
        let tail = strings_of(lits);
        let mut k: usize = 0;
        while k < tail.len()
            invariant
                k <= tail.len(),
                args@ == a1 + tail@.take(k as int),
            decreases tail.len() - k,
        {
            args.push(tail[k].clone());
            assert(tail@.take(k + 1) =~= tail@.take(k as int).push(tail@[k as int]));
            k = k + 1;
        }
        assert(tail@.take(tail.len() as int) =~= tail@);
        assert(a1.map_values(|s: String| s@) =~= a0.map_values(|s: String| s@).push(path@));
        assert(a1.map_values(|s: String| s@) =~= seq![
            "-NoLogo"@,
            "-NoProfile"@,
            "-NonInteractive"@,
            "-ExecutionPolicy"@,
            "Bypass"@,
            "-File"@,
            path@,
        ]);
        assert(args@.map_values(|s: String| s@) =~= a1.map_values(|s: String| s@) + tail@.map_values(
            |s: String| s@,
        ));
        let r = LaunchSpec { program: "powershell.exe".to_owned(), args };
        assert(r.args@.map_values(|s: String| s@) =~= launch_spec(
            path@,
            opt_str_view(extension),
            platform,
        ).1);
        r
    } else {
        let args = strings_of(vec!["app-server", "--listen", "stdio://"]);
        let r = LaunchSpec { program: path.to_owned(), args };
        assert(r.args@.map_values(|s: String| s@) =~= launch_spec(
            path@,
            opt_str_view(extension),
            platform,
        ).1);
        r
    }
}

/// The configured Codex path, trimmed, where it is not empty after trimming.
pub fn configured_codex_path(override_path: Option<&str>) -> (r: Option<String>)
    ensures
        match override_path {
            Some(p) => if trim(p@).len() > 0 {
                r matches Some(s) && s@ == trim(p@)
            } else {
                r is None
            },
            None => r is None,
        },
{
    match override_path {
        None => None,
        Some(p) => {
            let t = trim_exec(p);
            if t.as_str().is_empty() {
                None
            } else {
                Some(t)
            }
        },
    }
}

/// The error when no Codex binary is found: credentials without a CLI are
/// `CODEX_CONFIG_FOUND_BUT_CLI_MISSING`; else a configured path that does not exist is
/// `CODEX_CONFIGURED_PATH_MISSING`; else `CODEX_NOT_FOUND`.
pub fn codex_missing_error(auth_file_exists: bool, configured_path_missing: bool) -> (e: String)
    ensures
        auth_file_exists ==> e@ == "CODEX_CONFIG_FOUND_BUT_CLI_MISSING"@,
        !auth_file_exists && configured_path_missing ==> e@ == "CODEX_CONFIGURED_PATH_MISSING"@,
        !auth_file_exists && !configured_path_missing ==> e@ == "CODEX_NOT_FOUND"@,
{
    if auth_file_exists {
        "CODEX_CONFIG_FOUND_BUT_CLI_MISSING".to_owned()
    } else if configured_path_missing {
        "CODEX_CONFIGURED_PATH_MISSING".to_owned()
    } else {
        "CODEX_NOT_FOUND".to_owned()
    }
}

/// The error returned for an app-server reply that carries an error: `APP_SERVER_RPC: `
/// and the error's text, redacted.
pub fn rpc_error_message(error_text: &str, home: Option<&str>) -> (r: String)
    ensures
        r@ == "APP_SERVER_RPC: "@ + redacted(error_text@, opt_str_view(home)),
{
    let body = redact(error_text, home);
    let mut v = chars_of("APP_SERVER_RPC: ");
    push_all(&mut v, &chars_of(body.as_str()));
    string_of(&v)
}

/// The places where the Codex CLI is looked for, in the order they are tried.
#[derive(Debug, Clone, Copy, PartialEq, Eq, Structural)]
pub enum LookupStage {
    /// The path configured in the settings, trimmed.
    ConfiguredPath,
    /// The path in `QUOTA_CRITTER_CODEX_PATH`.
    EnvironmentPath,
    /// Each directory of `PATH`, with each file name.
    SearchPath,
    /// The binaries bundled with editor extensions.
    EditorExtensions,
    /// Desktop installations (Windows only).
    DesktopInstalls,
    /// Common global install locations, with each file name.
    CommonLocations,
    /// `where` or `which` / `command -v`.
    ShellLookup,
    /// Nothing found: whether Codex credentials exist decides the error.
    Credentials,
}

/// What the probe of a stage came to.
#[derive(Debug, Clone, Copy, PartialEq, Eq, Structural)]
pub enum LookupEvent {
    /// A binary was found (at `Credentials`: the credentials file exists).
    Found,
    /// The stage had a place to look, and nothing was there.
    NotFound,
    /// The stage had no place to look (no configured path, variable unset, no home).
    Skipped,
}

/// What the lookup does next.
pub enum LookupOutcome {
    /// Probe the stage that the lookup now stands at.
    Continue,
    /// The binary just found is used.
    Resolved,
    /// No binary: the error to return.
    Failed(String),
}

/// The stage after `stage`; desktop installations are searched on Windows only.
pub open spec fn next_stage(stage: LookupStage, windows: bool) -> LookupStage {
    match stage {
        LookupStage::ConfiguredPath => LookupStage::EnvironmentPath,
        LookupStage::EnvironmentPath => LookupStage::SearchPath,
        LookupStage::SearchPath => LookupStage::EditorExtensions,
        LookupStage::EditorExtensions => if windows {
            LookupStage::DesktopInstalls
        } else {
            LookupStage::CommonLocations
        },
        LookupStage::DesktopInstalls => LookupStage::CommonLocations,
        LookupStage::CommonLocations => LookupStage::ShellLookup,
        LookupStage::ShellLookup => LookupStage::Credentials,
        LookupStage::Credentials => LookupStage::Credentials,
    }
}

/// How many stages are left to try after `stage`.
pub open spec fn stages_left(stage: LookupStage) -> nat {
    match stage {
        LookupStage::ConfiguredPath => 7,
        LookupStage::EnvironmentPath => 6,
        LookupStage::SearchPath => 5,
        LookupStage::EditorExtensions => 4,
        LookupStage::DesktopInstalls => 3,
        LookupStage::CommonLocations => 2,
        LookupStage::ShellLookup => 1,
        LookupStage::Credentials => 0,
    }
}

/// The search for the Codex CLI: the stage it stands at, and whether a configured path
/// (from the settings or the environment) was given but not found.
pub struct CodexLookup {
    pub stage: LookupStage,
    pub configured_path_missing: bool,
    pub windows: bool,
}

impl CodexLookup {
    /// A search that starts at the configured path.
    pub fn new(platform: Platform) -> (l: CodexLookup)
        ensures
            l.stage == LookupStage::ConfiguredPath,
            !l.configured_path_missing,
            l.windows == (platform == Platform::Windows),
    {
        CodexLookup {
            stage: LookupStage::ConfiguredPath,
            configured_path_missing: false,
            windows: platform == Platform::Windows,
        }
    }

    /// Takes in what the probe of the current stage came to. A find ends the search (at
    /// `Credentials` it picks the error). Else the search moves on; a configured path that
    /// was given and not found is remembered; after `Credentials` the error follows
    /// [`codex_missing_error`].
    pub fn advance(&mut self, event: LookupEvent) -> (r: LookupOutcome)
        ensures
            final(self).windows == old(self).windows,
            old(self).stage != LookupStage::Credentials && event == LookupEvent::Found ==> (r is Resolved
                && *final(self) == *old(self)),
            old(self).stage != LookupStage::Credentials && event != LookupEvent::Found ==> (r is Continue
                && final(self).stage == next_stage(old(self).stage, old(self).windows)
                && stages_left(final(self).stage) < stages_left(old(self).stage)
                && final(self).configured_path_missing == (old(self).configured_path_missing || (
            event == LookupEvent::NotFound && (old(self).stage == LookupStage::ConfiguredPath
                || old(self).stage == LookupStage::EnvironmentPath)))),
            old(self).stage == LookupStage::Credentials ==> (r matches LookupOutcome::Failed(e) && (
            event == LookupEvent::Found ==> e@ == "CODEX_CONFIG_FOUND_BUT_CLI_MISSING"@) && (event
                != LookupEvent::Found && old(self).configured_path_missing ==> e@
                == "CODEX_CONFIGURED_PATH_MISSING"@) && (event != LookupEvent::Found && !old(
                self,
            ).configured_path_missing ==> e@ == "CODEX_NOT_FOUND"@) && *final(self) == *old(self)),
    {
        if self.stage == LookupStage::Credentials {
            return LookupOutcome::Failed(
                codex_missing_error(event == LookupEvent::Found, self.configured_path_missing),
            );
        }
        if event == LookupEvent::Found {
            return LookupOutcome::Resolved;
        }
        if event == LookupEvent::NotFound && (self.stage == LookupStage::ConfiguredPath
            || self.stage == LookupStage::EnvironmentPath) {
            self.configured_path_missing = true;
        }
        self.stage = match self.stage {
            LookupStage::ConfiguredPath => LookupStage::EnvironmentPath,
            LookupStage::EnvironmentPath => LookupStage::SearchPath,
            LookupStage::SearchPath => LookupStage::EditorExtensions,
            LookupStage::EditorExtensions => if self.windows {
                LookupStage::DesktopInstalls
            } else {
                LookupStage::CommonLocations
            },
            LookupStage::DesktopInstalls => LookupStage::CommonLocations,
            LookupStage::CommonLocations => LookupStage::ShellLookup,
            LookupStage::ShellLookup => LookupStage::Credentials,
            LookupStage::Credentials => LookupStage::Credentials,
        };
        LookupOutcome::Continue
    }
}

/// The commands that list where `codex` is on the search path: `where` on Windows,
/// `which` and then `command -v` elsewhere.
pub fn shell_lookup_commands(platform: Platform) -> (cmds: Vec<&'static str>)
    ensures
        platform == Platform::Windows ==> cmds@.map_values(|c: &str| c@) == seq!["where"@],
        platform != Platform::Windows ==> cmds@.map_values(|c: &str| c@) == seq![
            "which"@,
            "command -v"@,
        ],
{
    let cmds: Vec<&'static str> = if platform == Platform::Windows {
        vec!["where"]
    } else {
        vec!["which", "command -v"]
    };
    assert(cmds@.map_values(|c: &str| c@) =~= if platform == Platform::Windows {
        seq!["where"@]
    } else {
        seq!["which"@, "command -v"@]
    });
    cmds
}

/// What happens to a message read from the app server while a reply to request `expected`
/// is awaited.
pub enum ReplyAction {
    /// Not the reply: keep waiting.
    Skip,
    /// The reply carries an error.
    Fail,
    /// The reply's result (an empty object where it has none) is returned.
    Succeed,
}

/// Sorts a message read while the reply to request `expected` is awaited: another id (or
/// none) is skipped; the reply fails where it carries an error and succeeds otherwise.
pub fn reply_action(expected: u64, reply_id: Option<u64>, has_error: bool) -> (a: ReplyAction)
    ensures
        reply_id != Some(expected) ==> a is Skip,
        reply_id == Some(expected) && has_error ==> a is Fail,
        reply_id == Some(expected) && !has_error ==> a is Succeed,
{
    match reply_id {
        Some(id) => if id != expected {
            ReplyAction::Skip
        } else if has_error {
            ReplyAction::Fail
        } else {
            ReplyAction::Succeed
        },
        None => ReplyAction::Skip,
    }
}

/// The first candidate that exists: the least index whose entry of `exists` is true, or
/// `None` where none is.
pub fn first_existing(exists: &Vec<bool>) -> (r: Option<usize>)
    ensures
        r matches Some(i) ==> i < exists.len() && exists[i as int] && forall|j: int|
            0 <= j < i ==> !#[trigger] exists[j],
        r is None <==> forall|j: int| 0 <= j < exists.len() ==> !#[trigger] exists[j],
{
    let mut i: usize = 0;
    while i < exists.len()
        invariant
            i <= exists.len(),
            forall|j: int| 0 <= j < i ==> !#[trigger] exists[j],
        decreases exists.len() - i,
    {
        if exists[i] {
            return Some(i);
        }
        i = i + 1;
    }
    None
}

/// Law: the search ends; from any stage, at most 7 moves lead to `Credentials`.
pub proof fn law_lookup_reaches_credentials(stage: LookupStage, windows: bool)
    ensures
        stage != LookupStage::Credentials ==> stages_left(next_stage(stage, windows)) < stages_left(
            stage,
        ),
        stages_left(stage) <= 7,
        stages_left(stage) == 0 <==> stage == LookupStage::Credentials,
{
}

} // verus!
