//! Where a game is installed: the executable inside an installation, the
//! compatibility prefixes where installers put games, the places searched for
//! an installation, and the manifest switches that steer launching.
use vstd::prelude::*;
use crate::text::{
    chars_eq_ignore_case, chars_of, eq_ignore_case, eq_text, opt_str, owned, str_eq, string_of,
};
use crate::paths::{
    all_names, comp_text, components, file_name, is_absolute, join, parent, path_components,
    plain_comps, render, valid_name,
    path_ends_with, path_ends_with_chars, path_eq, path_file_name, path_join, path_less,
    path_parent, parts_view, Comp, PathPart,
};
use crate::manifest::{opt_view, GameManifest, InstallMethod};
use crate::download::{sanitize_path_segment, sanitized_segment};

verus! {

// ---------------------------------------------------------------------------
// The executable inside an installation
// ---------------------------------------------------------------------------
/// The path of `executable` for an installation at `install_path`: the
/// executable itself when it is absolute, else joined to the installation.
pub fn command_path_for_install(install_path: &str, executable: &str) -> (r: String)
    ensures
        r@ == join(install_path@, executable@),
{
    string_of(&path_join(&chars_of(install_path), &chars_of(executable)))
}

/// `p` after taking its parent `n` times; none when a parent is missing.
pub open spec fn parent_n(p: Seq<char>, n: nat) -> Option<Seq<char>>
    decreases n,
{
    if n == 0 {
        Some(p)
    } else {
        match parent(p) {
            Some(q) => parent_n(q, (n - 1) as nat),
            None => None,
        }
    }
}

/// The installation that holds the executable found at `command_path`: the
/// executable's folder when the manifest names it by an absolute path, else
/// the folder as many levels up as the manifest's relative path has
/// components (at least one).
pub open spec fn executable_install_path(command_path: Seq<char>, executable: Seq<char>) -> Option<
    Seq<char>,
> {
    if is_absolute(executable) {
        parent(command_path)
    } else {
        let n = components(executable).len();
        parent_n(command_path, if n == 0 { 1 } else { n })
    }
}

/// The installation that holds the executable found at `command_path`.
pub fn relative_executable_install_path(command_path: &str, executable: &str) -> (r: Option<String>)
    ensures
        match r {
            Some(p) => executable_install_path(command_path@, executable@) == Some(p@),
            None => executable_install_path(command_path@, executable@) is None,
        },
{
    let cp = chars_of(command_path);
    let e = chars_of(executable);
    if e.len() > 0 && e[0] == '/' {
        return match path_parent(&cp) {
            Some(p) => Some(string_of(&p)),
            None => None,
        };
    }
    let count = path_components(&e).len();
    let levels: usize = if count == 0 {
        1
    } else {
        count
    };
    let mut cur = cp;
    let mut k: usize = 0;
    assert(executable_install_path(command_path@, executable@) == parent_n(
        command_path@,
        levels as nat,
    ));
    while k < levels
        invariant
            k <= levels,
            executable_install_path(command_path@, executable@) == parent_n(
                command_path@,
                levels as nat,
            ),
            parent_n(command_path@, levels as nat) == parent_n(cur@, (levels - k) as nat),
        decreases levels - k,
    {
        match path_parent(&cur) {
            Some(p) => {
                cur = p;
            },
            None => {
                return None;
            },
        }
        k = k + 1;
    }
    Some(string_of(&cur))
}

proof fn lemma_plain_prefix(cs: Seq<Comp>, ns: Seq<Comp>)
    requires
        plain_comps(cs),
        all_names(ns),
    ensures
        plain_comps(cs + ns),
{
    assert forall|i: int| 0 <= i < (cs + ns).len() implies (#[trigger] (cs + ns)[i] is Normal
        && valid_name((cs + ns)[i]->Normal_0)) || (i == 0 && (cs + ns)[i] is Root) by {
        if i >= cs.len() {
            assert((cs + ns)[i] == ns[i - cs.len()]);
        } else {
            assert((cs + ns)[i] == cs[i]);
        }
    }
}

proof fn lemma_parent_n_names(x: Seq<char>, cs: Seq<Comp>, ns: Seq<Comp>, k: nat)
    requires
        components(x) == cs + ns,
        plain_comps(cs),
        all_names(ns),
        k <= ns.len(),
    ensures
        parent_n(x, k) is Some,
        components(parent_n(x, k)->0) == cs + ns.take(ns.len() - k),
    decreases k,
{
    if k == 0 {
        assert(ns.take(ns.len() as int) =~= ns);
    } else {
        let all = cs + ns;
        assert(all.last() == ns[ns.len() - 1]);
        assert(all.drop_last() =~= cs + ns.drop_last());
        let init = ns.drop_last();
        assert(all_names(init)) by {
            assert forall|i: int| 0 <= i < init.len() implies (#[trigger] init[i] is Normal
                && valid_name(init[i]->Normal_0)) by {
                assert(init[i] == ns[i]);
            }
        }
        lemma_plain_prefix(cs, init);
        crate::paths::lemma_render_plain(cs + init);
        let y = render(cs + init);
        assert(parent(x) == Some(y));
        lemma_parent_n_names(y, cs, init, (k - 1) as nat);
        assert(init.take(init.len() - (k - 1)) =~= ns.take(ns.len() - k));
    }
}

/// Finding the installation from the executable found in it gives the
/// installation back: for an installation path `p` of names (after a
/// possible root) and an executable path `e` of one or more names, the
/// installation found from `p` joined with `e` has the components of `p`
/// (`Path` equality).
pub proof fn lemma_executable_install_round_trip(p: Seq<char>, e: Seq<char>)
    requires
        forall|i: int|
            0 <= i < components(p).len() ==> #[trigger] components(p)[i] is Normal
                || components(p)[i] is Root,
        components(e).len() > 0,
        forall|i: int| 0 <= i < components(e).len() ==> #[trigger] components(e)[i] is Normal,
    ensures
        executable_install_path(join(p, e), e) is Some,
        components(executable_install_path(join(p, e), e)->0) == components(p),
{
    crate::paths::lemma_components_shape(p);
    crate::paths::lemma_components_shape(e);
    let cp = components(p);
    let ce = components(e);
    assert(plain_comps(cp)) by {
        assert forall|i: int| 0 <= i < cp.len() implies (#[trigger] cp[i] is Normal && valid_name(
            cp[i]->Normal_0,
        )) || (i == 0 && cp[i] is Root) by {
            if cp[i] is Root && i != 0 {
                assert(i > 0);
            }
        }
    }
    assert(all_names(ce));
    assert(!is_absolute(e)) by {
        if is_absolute(e) {
            assert(ce[0] == Comp::Root);
        }
    }
    crate::paths::lemma_join_components(p, e);
    lemma_parent_n_names(join(p, e), cp, ce, ce.len());
    assert(ce.take(0) =~= Seq::<Comp>::empty());
    assert(cp + Seq::<Comp>::empty() =~= cp);
}

/// Whether `path` goes through a folder named `windows` in any case.
pub open spec fn windows_system_path(path: Seq<char>) -> bool {
    exists|i: int|
        0 <= i < components(path).len() && eq_ignore_case(
            comp_text(#[trigger] components(path)[i]),
            "windows"@,
        )
}

/// Whether `path` goes through a Windows system folder.
pub fn is_windows_system_path(path: &str) -> (r: bool)
    ensures
        r == windows_system_path(path@),
{
    let p = chars_of(path);
    let parts = path_components(&p);
    let ghost cs = parts_view(parts@);
    let w = chars_of("windows");
    let mut i: usize = 0;
    while i < parts.len()
        invariant
            i <= parts.len(),
            cs == parts_view(parts@),
            cs == components(p@),
            p@ == path@,
            w@ == "windows"@,
            forall|k: int| 0 <= k < i ==> !eq_ignore_case(comp_text(#[trigger] cs[k]), "windows"@),
        decreases parts.len() - i,
    {
        assert(cs[i as int] == parts@[i as int]@);
        let text = crate::paths::part_text(&parts[i]);
        if chars_eq_ignore_case(&text, &w) {
            return true;
        }
        i = i + 1;
    }
    false
}

/// Whether a found file is the executable the manifest names: the same path
/// when the manifest's path is absolute, else a path ending with it.
pub open spec fn matches_manifest_executable(command_path: Seq<char>, executable: Seq<char>) -> bool {
    if is_absolute(executable) {
        components(command_path) == components(executable)
    } else {
        path_ends_with(command_path, executable)
    }
}

/// Whether the file at `command_path` is the executable the manifest names.
pub fn path_matches_manifest_executable(command_path: &str, executable: &str) -> (r: bool)
    ensures
        r == matches_manifest_executable(command_path@, executable@),
{
    let cp = chars_of(command_path);
    let e = chars_of(executable);
    if e.len() > 0 && e[0] == '/' {
        path_eq(&cp, &e)
    } else {
        path_ends_with_chars(&cp, &e)
    }
}

// ---------------------------------------------------------------------------
// Looking for an installation
// ---------------------------------------------------------------------------
/// Where an installation is taken from.
#[derive(Debug, Clone, Copy, PartialEq, Eq, Structural)]
pub enum InstallLookup {
    /// The registered folder, whose executable exists.
    Registered,
    /// The candidate folder at this position, whose executable exists.
    Candidate(usize),
    /// None of those: the candidate prefixes are searched.
    Search,
}

/// The first position whose flag is set.
pub open spec fn first_set(flags: Seq<bool>) -> Option<int>
    decreases flags.len(),
{
    if flags.len() == 0 {
        None
    } else {
        match first_set(flags.drop_last()) {
            Some(i) => Some(i),
            None => if flags.last() {
                Some(flags.len() - 1)
            } else {
                None
            },
        }
    }
}

/// The order in which an installation is looked for: the registered
/// folder when its executable exists, else the first candidate folder whose
/// executable exists, else a search. `registered` says whether the
/// registered folder's executable exists (none: nothing is registered);
/// `candidates[i]` whether that of the i-th candidate folder does.
pub open spec fn install_lookup_choice(registered: Option<bool>, candidates: Seq<bool>) -> InstallLookup {
    if registered == Some(true) {
        InstallLookup::Registered
    } else {
        match first_set(candidates) {
            Some(i) => InstallLookup::Candidate(i as usize),
            None => InstallLookup::Search,
        }
    }
}

proof fn lemma_first_set_step(flags: Seq<bool>, i: int)
    requires
        0 <= i < flags.len(),
        first_set(flags.take(i)) is None,
    ensures
        first_set(flags.take(i + 1)) == if flags[i] {
            Some(i)
        } else {
            None::<int>
        },
{
    assert(flags.take(i + 1).drop_last() =~= flags.take(i));
    assert(flags.take(i + 1).last() == flags[i]);
}

/// Where an installation is taken from, given what exists.
pub fn install_lookup(registered: Option<bool>, candidates: &Vec<bool>) -> (r: InstallLookup)
    ensures
        r == install_lookup_choice(registered, candidates@),
        r matches InstallLookup::Candidate(i) ==> i < candidates.len(),
{
    if registered == Some(true) {
        return InstallLookup::Registered;
    }
    let mut i: usize = 0;
    assert(candidates@.take(0) =~= Seq::<bool>::empty());
    while i < candidates.len()
        invariant
            i <= candidates.len(),
            registered != Some(true),
            first_set(candidates@.take(i as int)) is None,
        decreases candidates.len() - i,
    {
        proof {
            lemma_first_set_step(candidates@, i as int);
        }
        if candidates[i] {
            assert(candidates@.take(candidates.len() as int) =~= candidates@);
            proof {
                lemma_first_set_prefix(candidates@, i as int);
            }
            return InstallLookup::Candidate(i);
        }
        i = i + 1;
    }
    assert(candidates@.take(candidates.len() as int) =~= candidates@);
    InstallLookup::Search
}

proof fn lemma_first_set_prefix(flags: Seq<bool>, i: int)
    requires
        0 <= i < flags.len(),
        first_set(flags.take(i + 1)) == Some(i),
    ensures
        first_set(flags) == Some(i),
    decreases flags.len(),
{
    if flags.len() == i + 1 {
        assert(flags.take(i + 1) =~= flags);
    } else {
        assert(flags.drop_last().take(i + 1) =~= flags.take(i + 1));
        lemma_first_set_prefix(flags.drop_last(), i);
    }
}

// ---------------------------------------------------------------------------
// Searching for the executable
// ---------------------------------------------------------------------------
/// Whether a found file may be the manifest's executable: its name is the
/// executable's name in any ASCII case and, when the executable's path has
/// several components, the file's path matches it.
pub open spec fn executable_candidate(path: Seq<char>, executable: Seq<char>) -> bool {
    match (file_name(path), file_name(executable)) {
        (Some(n), Some(e)) => eq_ignore_case(n, e) && (components(executable).len() > 1
            ==> matches_manifest_executable(path, executable)),
        _ => false,
    }
}

/// Whether the file at `path` may be the manifest's executable.
pub fn is_executable_candidate(path: &str, executable: &str) -> (r: bool)
    ensures
        r == executable_candidate(path@, executable@),
{
    let exe = chars_of(executable);
    let exe_name = match path_file_name(&exe) {
        Some(n) => n,
        None => return false,
    };
    let name = match path_file_name(&chars_of(path)) {
        Some(n) => n,
        None => return false,
    };
    if !chars_eq_ignore_case(&name, &exe_name) {
        return false;
    }
    if path_components(&exe).len() > 1 {
        path_matches_manifest_executable(path, executable)
    } else {
        true
    }
}

/// The file a search settles on among `files`: a candidate for the
/// executable that comes before every earlier candidate and after no later
/// one in `Path`'s order (the least path, the first of equals).
pub open spec fn chosen_executable(files: Seq<Seq<char>>, executable: Seq<char>, i: int) -> bool {
    &&& 0 <= i < files.len()
    &&& executable_candidate(files[i], executable)
    &&& forall|j: int|
        0 <= j < files.len() && #[trigger] executable_candidate(files[j], executable) ==> (j < i
            ==> path_less(files[i], files[j])) && (i < j ==> !path_less(files[j], files[i]))
}

/// The position of the file that the search for `executable` settles on
/// among the files found, if any is a candidate.
pub fn choose_found_executable(files: &Vec<String>, executable: &str) -> (r: Option<usize>)
    ensures
        r is None <==> forall|j: int|
            0 <= j < files.len() ==> !executable_candidate(#[trigger] files@[j]@, executable@),
        r is Some ==> chosen_executable(files.deep_view(), executable@, r->0 as int),
{
    let ghost fs = files.deep_view();
    let mut best: Option<usize> = None;
    let mut i: usize = 0;
    while i < files.len()
        invariant
            i <= files.len(),
            fs == files.deep_view(),
            fs.len() == files.len(),
            match best {
                None => forall|k: int|
                    0 <= k < i ==> !executable_candidate(#[trigger] fs[k], executable@),
                Some(b) => b < i && executable_candidate(fs[b as int], executable@) && forall|k: int|
                    0 <= k < i && #[trigger] executable_candidate(fs[k], executable@) ==> (k
                        < b ==> path_less(fs[b as int], fs[k])) && (b < k ==> !path_less(
                        fs[k],
                        fs[b as int],
                    )),
            },
        decreases files.len() - i,
    {
        assert(fs[i as int] == files@[i as int]@);
        if is_executable_candidate(files[i].as_str(), executable) {
            match best {
                None => {
                    best = Some(i);
                },
                Some(b) => {
                    assert(fs[b as int] == files@[b as int]@);
                    if crate::paths::path_before(files[i].as_str(), files[b].as_str()) {
                        proof {
                            assert forall|k: int|
                                0 <= k < i + 1 && #[trigger] executable_candidate(
                                    fs[k],
                                    executable@,
                                ) implies (k < i ==> path_less(fs[i as int], fs[k])) && (i < k
                                ==> !path_less(fs[k], fs[i as int])) by {
                                if k < i && k != b {
                                    crate::paths::lemma_comps_less_order(
                                        components(fs[i as int]),
                                        components(fs[b as int]),
                                        components(fs[k]),
                                    );
                                    crate::paths::lemma_comps_less_order(
                                        components(fs[b as int]),
                                        components(fs[k]),
                                        components(fs[i as int]),
                                    );
                                }
                            }
                        }
                        best = Some(i);
                    }
                },
            }
        }
        i = i + 1;
    }
    proof {
        assert forall|j: int| 0 <= j < files.len() implies #[trigger] files@[j]@ == fs[j] by {}
    }
    best
}

// ---------------------------------------------------------------------------
// Compatibility prefixes and configured paths
// ---------------------------------------------------------------------------
/// The compatibility prefix of a game for a runner kind, under the app's
/// data folder: `compat-data/<game>/<kind>`, each segment made safe.
pub open spec fn prefix_dir(app_data_dir: Seq<char>, game_id: Seq<char>, runner_kind: Seq<char>) -> Seq<
    char,
> {
    join(
        join(join(app_data_dir, "compat-data"@), sanitized_segment(game_id)),
        sanitized_segment(runner_kind),
    )
}

/// The compatibility prefix of `game_id` for `runner_kind`.
pub fn managed_windows_prefix_dir(app_data_dir: &str, game_id: &str, runner_kind: &str) -> (r:
    String)
    ensures
        r@ == prefix_dir(app_data_dir@, game_id@, runner_kind@),
{
    let a = path_join(&chars_of(app_data_dir), &chars_of("compat-data"));
    let g = sanitize_path_segment(game_id);
    let b = path_join(&a, &chars_of(g.as_str()));
    let k = sanitize_path_segment(runner_kind);
    string_of(&path_join(&b, &chars_of(k.as_str())))
}

/// The folder a configured path is relative to: the installation
/// (`installPath`, the default), the prefix of the default runner
/// (`compatPrefix`), or the prefix of the runner kind named.
pub open spec fn base_path(
    app_data_dir: Seq<char>,
    game_id: Seq<char>,
    install_path: Seq<char>,
    base: Option<Seq<char>>,
    default_runner: Seq<char>,
) -> Seq<char> {
    let b = match base {
        Some(b) => b,
        None => "installPath"@,
    };
    if b == "installPath"@ {
        install_path
    } else if b == "compatPrefix"@ {
        prefix_dir(app_data_dir, game_id, default_runner)
    } else {
        prefix_dir(app_data_dir, game_id, b)
    }
}

/// The folder a configured path is relative to.
pub fn configured_base_path(
    app_data_dir: &str,
    game_id: &str,
    install_path: &str,
    base: Option<&str>,
    default_runner: &str,
) -> (r: String)
    ensures
        r@ == base_path(app_data_dir@, game_id@, install_path@, opt_str(base), default_runner@),
{
    let b = match base {
        Some(b) => b,
        None => "installPath",
    };
    if str_eq(b, "installPath") {
        owned(install_path)
    } else if str_eq(b, "compatPrefix") {
        managed_windows_prefix_dir(app_data_dir, game_id, default_runner)
    } else {
        managed_windows_prefix_dir(app_data_dir, game_id, b)
    }
}

/// A configured path: itself when absolute, else under its base folder.
pub open spec fn configured_path(
    app_data_dir: Seq<char>,
    game_id: Seq<char>,
    install_path: Seq<char>,
    path: Seq<char>,
    base: Option<Seq<char>>,
    default_runner: Seq<char>,
) -> Seq<char> {
    if is_absolute(path) {
        path
    } else {
        join(base_path(app_data_dir, game_id, install_path, base, default_runner), path)
    }
}

/// Where a path that the manifest configures lies for an installation.
pub fn configured_path_for_install(
    app_data_dir: &str,
    game_id: &str,
    install_path: &str,
    path: &str,
    base: Option<&str>,
    default_runner: &str,
) -> (r: String)
    ensures
        r@ == configured_path(
            app_data_dir@,
            game_id@,
            install_path@,
            path@,
            opt_str(base),
            default_runner@,
        ),
{
    let p = chars_of(path);
    if p.len() > 0 && p[0] == '/' {
        return owned(path);
    }
    let b = configured_base_path(app_data_dir, game_id, install_path, base, default_runner);
    string_of(&path_join(&chars_of(b.as_str()), &p))
}

// ---------------------------------------------------------------------------
// Where an installation may be
// ---------------------------------------------------------------------------
pub open spec fn opt_seq(o: Option<Seq<char>>) -> Seq<Seq<char>> {
    match o {
        Some(x) => seq![x],
        None => Seq::empty(),
    }
}

/// The runner kinds whose prefixes may hold what a method installed: its
/// prefix kind, its runner, the game's runner, and Proton and Wine for a
/// Windows installer.
pub open spec fn prefix_kinds(m: InstallMethod, launch_runner: Seq<char>) -> Seq<Seq<char>> {
    opt_seq(opt_view(m.compat_prefix)) + opt_seq(opt_view(m.runner)) + seq![launch_runner] + if m.kind@
        == "windowsInstaller"@ {
        seq!["proton"@, "wine"@]
    } else {
        Seq::empty()
    }
}

pub open spec fn method_roots(
    app_data_dir: Seq<char>,
    game_id: Seq<char>,
    m: InstallMethod,
    launch_runner: Seq<char>,
) -> Seq<Seq<char>> {
    prefix_kinds(m, launch_runner).map_values(
        |k: Seq<char>| prefix_dir(app_data_dir, game_id, k),
    )
}

pub open spec fn method_installs(
    app_data_dir: Seq<char>,
    game_id: Seq<char>,
    m: InstallMethod,
    launch_runner: Seq<char>,
) -> Seq<Seq<char>> {
    match opt_view(m.install_path) {
        Some(ip) => method_roots(app_data_dir, game_id, m, launch_runner).map_values(
            |r: Seq<char>| join(r, ip),
        ),
        None => Seq::empty(),
    }
}

pub open spec fn all_roots(
    app_data_dir: Seq<char>,
    game_id: Seq<char>,
    ms: Seq<InstallMethod>,
    launch_runner: Seq<char>,
) -> Seq<Seq<char>>
    decreases ms.len(),
{
    if ms.len() == 0 {
        Seq::empty()
    } else {
        all_roots(app_data_dir, game_id, ms.drop_last(), launch_runner) + method_roots(
            app_data_dir,
            game_id,
            ms.last(),
            launch_runner,
        )
    }
}

pub open spec fn all_installs(
    app_data_dir: Seq<char>,
    game_id: Seq<char>,
    ms: Seq<InstallMethod>,
    launch_runner: Seq<char>,
) -> Seq<Seq<char>>
    decreases ms.len(),
{
    if ms.len() == 0 {
        Seq::empty()
    } else {
        all_installs(app_data_dir, game_id, ms.drop_last(), launch_runner) + method_installs(
            app_data_dir,
            game_id,
            ms.last(),
            launch_runner,
        )
    }
}

/// The list with each text kept at its first place only.
pub open spec fn first_occurrences(s: Seq<Seq<char>>) -> Seq<Seq<char>>
    decreases s.len(),
{
    if s.len() == 0 {
        s
    } else {
        let r = first_occurrences(s.drop_last());
        if r.contains(s.last()) {
            r
        } else {
            r.push(s.last())
        }
    }
}

/// Keeping first occurrences lists each text of `s` exactly once: nothing
/// twice, nothing lost, nothing added.
pub proof fn lemma_first_occurrences(s: Seq<Seq<char>>)
    ensures
        forall|i: int, j: int|
            0 <= i < j < first_occurrences(s).len() ==> #[trigger] first_occurrences(s)[i]
                != #[trigger] first_occurrences(s)[j],
        forall|x: Seq<char>| #[trigger] first_occurrences(s).contains(x) <==> s.contains(x),
    decreases s.len(),
{
    if s.len() > 0 {
        let init = s.drop_last();
        let last = s.last();
        lemma_first_occurrences(init);
        let r = first_occurrences(init);
        assert(s =~= init.push(last));
        assert forall|x: Seq<char>| #[trigger] first_occurrences(s).contains(x) <==> s.contains(x) by {
            crate::text::lemma_push_contains(init, last, x);
            crate::text::lemma_push_contains(r, last, x);
        }
        if !r.contains(last) {
            let w = r.push(last);
            assert forall|i: int, j: int| 0 <= i < j < w.len() implies #[trigger] w[i] != #[trigger] w[j] by {
                if j == r.len() {
                    assert(r.contains(r[i]));
                } else {
                    assert(w[i] == r[i] && w[j] == r[j]);
                }
            }
        }
    }
}

fn contains_string(v: &Vec<String>, s: &String) -> (r: bool)
    ensures
        r == v.deep_view().contains(s@),
{
    let mut i: usize = 0;
    while i < v.len()
        invariant
            i <= v.len(),
            forall|j: int| 0 <= j < i ==> v.deep_view()[j] != s@,
        decreases v.len() - i,
    {
        assert(v.deep_view()[i as int] == v@[i as int]@);
        if str_eq(v[i].as_str(), s.as_str()) {
            assert(v.deep_view()[i as int] == s@);
            return true;
        }
        i = i + 1;
    }
    false
}

/// Adds `path` to `paths` unless it was seen, and records it as seen.
pub fn push_unique_path(paths: &mut Vec<String>, seen: &mut Vec<String>, path: String)
    ensures
        old(seen).deep_view().contains(path@) ==> final(paths).deep_view() == old(
            paths,
        ).deep_view() && final(seen).deep_view() == old(seen).deep_view(),
        !old(seen).deep_view().contains(path@) ==> final(paths).deep_view() == old(
            paths,
        ).deep_view().push(path@) && final(seen).deep_view() == old(seen).deep_view().push(path@),
{
    if !contains_string(seen, &path) {
        let ghost p0 = paths.deep_view();
        let ghost s0 = seen.deep_view();
        seen.push(path.clone());
        paths.push(path);
        assert(paths.deep_view() =~= p0.push(path@));
        assert(seen.deep_view() =~= s0.push(path@));
    }
}

fn unique_paths(v: &Vec<String>) -> (r: Vec<String>)
    ensures
        r.deep_view() == first_occurrences(v.deep_view()),
{
    let ghost src = v.deep_view();
    let mut out: Vec<String> = Vec::new();
    let mut seen: Vec<String> = Vec::new();
    let mut i: usize = 0;
    assert(src.take(0) =~= Seq::<Seq<char>>::empty());
    while i < v.len()
        invariant
            i <= v.len(),
            src == v.deep_view(),
            out.deep_view() == first_occurrences(src.take(i as int)),
            seen.deep_view() == out.deep_view(),
        decreases v.len() - i,
    {
        assert(src.take(i + 1).drop_last() =~= src.take(i as int));
        assert(src.take(i + 1).last() == v@[i as int]@);
        push_unique_path(&mut out, &mut seen, v[i].clone());
        i = i + 1;
    }
    assert(src.take(v.len() as int) =~= src);
    out
}

fn append_strings(out: &mut Vec<String>, v: &Vec<String>)
    ensures
        final(out).deep_view() == old(out).deep_view() + v.deep_view(),
{
    let ghost start = out.deep_view();
    let mut i: usize = 0;
    while i < v.len()
        invariant
            i <= v.len(),
            out.deep_view() == start + v.deep_view().take(i as int),
        decreases v.len() - i,
    {
        let ghost before = out.deep_view();
        out.push(v[i].clone());
        assert(out.deep_view() =~= before.push(v@[i as int]@));
        assert(v.deep_view().take(i + 1) =~= v.deep_view().take(i as int).push(v@[i as int]@));
        i = i + 1;
    }
    assert(v.deep_view().take(v.len() as int) =~= v.deep_view());
}

fn method_prefix_kinds(m: &InstallMethod, launch_runner: &String) -> (r: Vec<String>)
    ensures
        r.deep_view() == prefix_kinds(*m, launch_runner@),
{
    let mut r: Vec<String> = Vec::new();
    match &m.compat_prefix {
        Some(p) => r.push(p.clone()),
        None => {},
    }
    match &m.runner {
        Some(p) => r.push(p.clone()),
        None => {},
    }
    r.push(launch_runner.clone());
    if str_eq(m.kind.as_str(), "windowsInstaller") {
        r.push(owned("proton"));
        r.push(owned("wine"));
    }
    assert(r.deep_view() =~= prefix_kinds(*m, launch_runner@));
    r
}

fn method_candidates(app_data_dir: &str, game_id: &str, m: &InstallMethod, launch_runner: &String) -> (r: (
    Vec<String>,
    Vec<String>,
))
    ensures
        r.0.deep_view() == method_installs(app_data_dir@, game_id@, *m, launch_runner@),
        r.1.deep_view() == method_roots(app_data_dir@, game_id@, *m, launch_runner@),
{
    let kinds = method_prefix_kinds(m, launch_runner);
    let ghost kv = kinds.deep_view();
    let mut roots: Vec<String> = Vec::new();
    let mut i: usize = 0;
    while i < kinds.len()
        invariant
            i <= kinds.len(),
            kv == kinds.deep_view(),
            kv == prefix_kinds(*m, launch_runner@),
            roots.deep_view() == kv.take(i as int).map_values(
                |k: Seq<char>| prefix_dir(app_data_dir@, game_id@, k),
            ),
        decreases kinds.len() - i,
    {
        let root = managed_windows_prefix_dir(app_data_dir, game_id, kinds[i].as_str());
        let ghost before = roots.deep_view();
        roots.push(root);
        assert(roots.deep_view() =~= before.push(prefix_dir(app_data_dir@, game_id@, kv[i as int])));
        assert(kv.take(i + 1).map_values(|k: Seq<char>| prefix_dir(app_data_dir@, game_id@, k))
            =~= kv.take(i as int).map_values(|k: Seq<char>| prefix_dir(app_data_dir@, game_id@, k)).push(
            prefix_dir(app_data_dir@, game_id@, kv[i as int]),
        ));
        i = i + 1;
    }
    assert(kv.take(kinds.len() as int) =~= kv);
    let mut installs: Vec<String> = Vec::new();
    match &m.install_path {
        Some(ip) => {
            let ghost rv = roots.deep_view();
            let ipc = chars_of(ip.as_str());
            let mut j: usize = 0;
            while j < roots.len()
                invariant
                    j <= roots.len(),
                    rv == roots.deep_view(),
                    ipc@ == ip@,
                    installs.deep_view() == rv.take(j as int).map_values(
                        |r: Seq<char>| join(r, ip@),
                    ),
                decreases roots.len() - j,
            {
                let candidate = string_of(&path_join(&chars_of(roots[j].as_str()), &ipc));
                let ghost before = installs.deep_view();
                installs.push(candidate);
                assert(installs.deep_view() =~= before.push(join(rv[j as int], ip@)));
                assert(rv.take(j + 1).map_values(|r: Seq<char>| join(r, ip@)) =~= rv.take(
                    j as int,
                ).map_values(|r: Seq<char>| join(r, ip@)).push(join(rv[j as int], ip@)));
                j = j + 1;
            }
            assert(rv.take(roots.len() as int) =~= rv);
        },
        None => {
            assert(installs.deep_view() =~= Seq::<Seq<char>>::empty());
        },
    }
    (installs, roots)
}

/// The installation folders to try for a game and the folders to search for
/// its executable: for each install method, the prefixes of its runner kinds
/// (each folder listed once, in the order first met) and, when the method
/// names an install path, that path inside each of them.
pub fn install_candidate_paths(app_data_dir: &str, game_id: &str, manifest: &GameManifest) -> (r: (
    Vec<String>,
    Vec<String>,
))
    ensures
        r.0.deep_view() == first_occurrences(
            all_installs(
                app_data_dir@,
                game_id@,
                manifest.installation.methods@,
                manifest.launch.runner@,
            ),
        ),
        r.1.deep_view() == first_occurrences(
            all_roots(
                app_data_dir@,
                game_id@,
                manifest.installation.methods@,
                manifest.launch.runner@,
            ),
        ),
{
    let ms = &manifest.installation.methods;
    let lr = &manifest.launch.runner;
    let mut installs: Vec<String> = Vec::new();
    let mut roots: Vec<String> = Vec::new();
    let mut i: usize = 0;
    assert(ms@.take(0) =~= Seq::<InstallMethod>::empty());
    while i < ms.len()
        invariant
            i <= ms.len(),
            installs.deep_view() == all_installs(app_data_dir@, game_id@, ms@.take(i as int), lr@),
            roots.deep_view() == all_roots(app_data_dir@, game_id@, ms@.take(i as int), lr@),
        decreases ms.len() - i,
    {
        assert(ms@.take(i + 1).drop_last() =~= ms@.take(i as int));
        assert(ms@.take(i + 1).last() == ms@[i as int]);
        let (mi, mr) = method_candidates(app_data_dir, game_id, &ms[i], lr);
        append_strings(&mut installs, &mi);
        append_strings(&mut roots, &mr);
        i = i + 1;
    }
    assert(ms@.take(ms.len() as int) =~= ms@);
    (unique_paths(&installs), unique_paths(&roots))
}

// ---------------------------------------------------------------------------
// Manifest switches
// ---------------------------------------------------------------------------
/// Whether a Windows installer method asks to launch the game once installed.
pub open spec fn launches_after_install(manifest: GameManifest) -> bool {
    exists|i: int|
        0 <= i < manifest.installation.methods.len()
            && #[trigger] manifest.installation.methods@[i].kind@ == "windowsInstaller"@
            && manifest.installation.methods@[i].launch_after_install == Some(true)
}

/// Whether the game is launched once its Windows installer finishes.
pub fn should_launch_after_install(manifest: &GameManifest) -> (r: bool)
    ensures
        r == launches_after_install(*manifest),
{
    let ms = &manifest.installation.methods;
    let mut i: usize = 0;
    while i < ms.len()
        invariant
            i <= ms.len(),
            ms@ == manifest.installation.methods@,
            forall|j: int|
                0 <= j < i ==> !(#[trigger] ms@[j].kind@ == "windowsInstaller"@
                    && ms@[j].launch_after_install == Some(true)),
        decreases ms.len() - i,
    {
        let wanted = match ms[i].launch_after_install {
            Some(b) => b,
            None => false,
        };
        if str_eq(ms[i].kind.as_str(), "windowsInstaller") && wanted {
            return true;
        }
        i = i + 1;
    }
    false
}

/// Whether the BattlEye launcher is enabled and started in place of the
/// game's own process (`launchMode` `main` or a spelling of `replaceMain`).
pub open spec fn battl_eye_replaces(manifest: GameManifest) -> bool {
    match manifest.launch.battl_eye {
        Some(b) => b.enabled && match opt_view(b.launch_mode) {
            Some(m) => m == "main"@ || m == "replaceMain"@ || m == "replace-main"@ || m
                == "replace_main"@,
            None => false,
        },
        None => false,
    }
}

/// Whether BattlEye replaces the game's main process.
pub fn battl_eye_replaces_main_process(manifest: &GameManifest) -> (r: bool)
    ensures
        r == battl_eye_replaces(*manifest),
{
    match &manifest.launch.battl_eye {
        Some(b) => {
            if !b.enabled {
                return false;
            }
            match &b.launch_mode {
                Some(m) => {
                    let m = m.as_str();
                    str_eq(m, "main") || str_eq(m, "replaceMain") || str_eq(m, "replace-main")
                        || str_eq(m, "replace_main")
                },
                None => false,
            }
        },
        None => false,
    }
}

pub open spec fn has_method_kind(manifest: GameManifest, kind: Seq<char>) -> bool {
    exists|i: int|
        0 <= i < manifest.installation.methods.len()
            && #[trigger] manifest.installation.methods@[i].kind@ == kind
}

/// How a broken installation is repaired: by the remote manifest when the
/// game updates that way, else by the first of `archive`,
/// `windowsInstaller` and `existing` that the game can be installed by.
pub open spec fn repair_strategy(manifest: GameManifest) -> Option<Seq<char>> {
    if manifest.update.strategy@ == "remoteManifest"@ {
        Some("remoteManifest"@)
    } else if has_method_kind(manifest, "archive"@) {
        Some("archive"@)
    } else if has_method_kind(manifest, "windowsInstaller"@) {
        Some("windowsInstaller"@)
    } else if has_method_kind(manifest, "existing"@) {
        Some("existing"@)
    } else {
        None
    }
}

fn has_kind(manifest: &GameManifest, kind: &str) -> (r: bool)
    ensures
        r == has_method_kind(*manifest, kind@),
{
    let ms = &manifest.installation.methods;
    let mut i: usize = 0;
    while i < ms.len()
        invariant
            i <= ms.len(),
            ms@ == manifest.installation.methods@,
            forall|j: int| 0 <= j < i ==> #[trigger] ms@[j].kind@ != kind@,
        decreases ms.len() - i,
    {
        if str_eq(ms[i].kind.as_str(), kind) {
            return true;
        }
        i = i + 1;
    }
    false
}

/// How a broken installation of the game is repaired, if it can be.
pub fn repair_strategy_for_manifest(manifest: &GameManifest) -> (r: Option<String>)
    ensures
        opt_view(r) == repair_strategy(*manifest),
{
    if str_eq(manifest.update.strategy.as_str(), "remoteManifest") {
        return Some(owned("remoteManifest"));
    }
    if has_kind(manifest, "archive") {
        return Some(owned("archive"));
    }
    if has_kind(manifest, "windowsInstaller") {
        return Some(owned("windowsInstaller"));
    }
    if has_kind(manifest, "existing") {
        return Some(owned("existing"));
    }
    None
}

// ---------------------------------------------------------------------------
// Finding a game's manifest
// ---------------------------------------------------------------------------
pub open spec fn manifest_not_found_text(game_id: Seq<char>) -> Seq<char> {
    "Manifesto não encontrado para o jogo "@ + game_id + "."@
}

/// The manifest of `game_id` among `games` (the first with that id).
pub fn get_manifest(games: Vec<GameManifest>, game_id: &str) -> (r: Result<GameManifest, String>)
    ensures
        match r {
            Ok(m) => exists|i: int|
                0 <= i < games.len() && #[trigger] games@[i] == m && m.id@ == game_id@ && forall|
                    j: int,
                | 0 <= j < i ==> #[trigger] games@[j].id@ != game_id@,
            Err(e) => e@ == manifest_not_found_text(game_id@) && forall|j: int|
                0 <= j < games.len() ==> #[trigger] games@[j].id@ != game_id@,
        },
{
    let ghost all = games@;
    let mut i: usize = 0;
    while i < games.len()
        invariant
            i <= games.len(),
            all == games@,
            forall|j: int| 0 <= j < i ==> #[trigger] games@[j].id@ != game_id@,
        decreases games.len() - i,
    {
        if str_eq(games[i].id.as_str(), game_id) {
            let mut games = games;
            let m = games.remove(i);
            assert(all[i as int] == m);
            return Ok(m);
        }
        i = i + 1;
    }
    let mut e = owned("Manifesto não encontrado para o jogo ");
    e.append(game_id);
    e.append(".");
    Err(e)
}

} // verus!
