//! Runners: what can run a game, which one a request selects, and the
//! command a runner builds for an executable.
//!
//! Looking at the machine (the `PATH`, Steam folders, the launcher's own
//! runner folder) is left to the caller, which hands the findings in.
use vstd::prelude::*;
use crate::text::{
    append_text, chars_contain, chars_of, contains_text, copy_strings, opt_str, owned, string_of,
    to_lowercase_text, trim, trim_chars, unicode_lowercase,
};
use crate::manifest::opt_view;
use crate::paths::{join, path_join};

verus! {

/// A runner the launcher knows of.
#[derive(Clone, Debug)]
pub struct RunnerInfo {
    pub id: String,
    pub kind: String,
    pub label: String,
    pub status: String,
    pub source: String,
    pub path: Option<String>,
    pub installable: bool,
    pub install_hint: Option<String>,
}

/// A runner as values.
pub struct RunnerView {
    pub id: Seq<char>,
    pub kind: Seq<char>,
    pub label: Seq<char>,
    pub status: Seq<char>,
    pub source: Seq<char>,
    pub path: Option<Seq<char>>,
    pub installable: bool,
    pub install_hint: Option<Seq<char>>,
}

impl View for RunnerInfo {
    type V = RunnerView;

    open spec fn view(&self) -> RunnerView {
        RunnerView {
            id: self.id@,
            kind: self.kind@,
            label: self.label@,
            status: self.status@,
            source: self.source@,
            path: opt_view(self.path),
            installable: self.installable,
            install_hint: opt_view(self.install_hint),
        }
    }
}

pub open spec fn runner_views(rs: Seq<RunnerInfo>) -> Seq<RunnerView> {
    rs.map_values(|r: RunnerInfo| r@)
}

/// The runner chosen for a game.
#[derive(Clone, Debug)]
pub struct ResolvedRunner {
    pub id: String,
    pub kind: String,
    pub label: String,
    pub source: String,
    pub path: Option<String>,
}

/// A chosen runner as values.
pub struct ResolvedView {
    pub id: Seq<char>,
    pub kind: Seq<char>,
    pub label: Seq<char>,
    pub source: Seq<char>,
    pub path: Option<Seq<char>>,
}

impl View for ResolvedRunner {
    type V = ResolvedView;

    open spec fn view(&self) -> ResolvedView {
        ResolvedView {
            id: self.id@,
            kind: self.kind@,
            label: self.label@,
            source: self.source@,
            path: opt_view(self.path),
        }
    }
}

/// A process to start: program, arguments, directory and environment.
#[derive(Clone, Debug)]
pub struct RunnerCommand {
    pub runner_kind: String,
    pub program: String,
    pub args: Vec<String>,
    pub working_dir: String,
    pub envs: Vec<(String, String)>,
    pub unset_envs: Vec<String>,
}

/// A command as values.
pub struct CommandView {
    pub runner_kind: Seq<char>,
    pub program: Seq<char>,
    pub args: Seq<Seq<char>>,
    pub working_dir: Seq<char>,
    pub envs: Seq<(Seq<char>, Seq<char>)>,
    pub unset_envs: Seq<Seq<char>>,
}

impl View for RunnerCommand {
    type V = CommandView;

    open spec fn view(&self) -> CommandView {
        CommandView {
            runner_kind: self.runner_kind@,
            program: self.program@,
            args: self.args.deep_view(),
            working_dir: self.working_dir@,
            envs: self.envs.deep_view(),
            unset_envs: self.unset_envs.deep_view(),
        }
    }
}

/// A path written as text.
pub fn path_to_string(path: &str) -> (r: String)
    ensures
        r@ == path@,
{
    owned(path)
}

fn opt_owned(o: Option<&str>) -> (r: Option<String>)
    ensures
        opt_view(r) == opt_str(o),
{
    match o {
        Some(s) => Some(owned(s)),
        None => None,
    }
}

/// A runner record.
pub fn runner_info(
    id: &str,
    kind: &str,
    label: &str,
    status: &str,
    source: &str,
    path: Option<&str>,
    installable: bool,
    install_hint: Option<&str>,
) -> (r: RunnerInfo)
    ensures
        r@ == (RunnerView {
            id: id@,
            kind: kind@,
            label: label@,
            status: status@,
            source: source@,
            path: opt_str(path),
            installable: installable,
            install_hint: opt_str(install_hint),
        }),
{
    RunnerInfo {
        id: owned(id),
        kind: owned(kind),
        label: owned(label),
        status: owned(status),
        source: owned(source),
        path: opt_owned(path),
        installable,
        install_hint: opt_owned(install_hint),
    }
}

/// The Steam folders under a home directory where Proton builds live.
pub fn steam_library_dirs(home: Option<&str>) -> (r: Vec<String>)
    ensures
        match home {
            None => r@.len() == 0,
            Some(h) => r.deep_view() == seq![
                join(h@, ".steam/steam"@),
                join(h@, ".steam/root"@),
                join(h@, ".local/share/Steam"@),
            ],
        },
{
    match home {
        None => Vec::new(),
        Some(h) => {
            let hc = chars_of(h);
            let a = string_of(&path_join(&hc, &chars_of(".steam/steam")));
            let b = string_of(&path_join(&hc, &chars_of(".steam/root")));
            let c = string_of(&path_join(&hc, &chars_of(".local/share/Steam")));
            let mut r: Vec<String> = Vec::new();
            r.push(a);
            r.push(b);
            r.push(c);
            assert(r.deep_view() =~= seq![
                join(h@, ".steam/steam"@),
                join(h@, ".steam/root"@),
                join(h@, ".local/share/Steam"@),
            ]);
            r
        },
    }
}

// ---------------------------------------------------------------------------
// Building commands
// ---------------------------------------------------------------------------
/// The command that a runner of `kind` builds for an executable, or why it
/// cannot.
pub open spec fn built_command(
    kind: Seq<char>,
    label: Seq<char>,
    path: Option<Seq<char>>,
    executable: Seq<char>,
    install: Seq<char>,
    args: Seq<Seq<char>>,
) -> Result<CommandView, Seq<char>> {
    if kind == "native"@ {
        Ok(
            CommandView {
                runner_kind: kind,
                program: executable,
                args: args,
                working_dir: install,
                envs: Seq::empty(),
                unset_envs: Seq::empty(),
            },
        )
    } else if kind == "wine"@ {
        match path {
            None => Err("Runner Wine '"@ + label + "' foi resolvido sem caminho executável."@),
            Some(p) => Ok(
                CommandView {
                    runner_kind: kind,
                    program: p,
                    args: seq![executable] + args,
                    working_dir: install,
                    envs: Seq::empty(),
                    unset_envs: Seq::empty(),
                },
            ),
        }
    } else if kind == "proton"@ {
        Err(
            "Runner Proton '"@ + label + "' foi resolvido em '"@ + match path {
                Some(p) => p,
                None => "caminho não resolvido"@,
            }
                + "', mas a execução Proton ainda precisa de prefixo/STEAM_COMPAT_DATA_PATH gerenciado pelo launcher."@,
        )
    } else {
        Err(
            "Runner '"@ + kind
                + "' foi resolvido, mas ainda não possui montagem de comando implementada."@,
        )
    }
}

fn copy_args(v: &Vec<String>) -> (r: Vec<String>)
    ensures
        r.deep_view() == v.deep_view(),
{
    let r = copy_strings(v);
    assert(r.deep_view() =~= v.deep_view());
    r
}

/// The command that `runner` builds to run `executable_path` from
/// `install_path` with `launch_args`.
pub fn build_runner_command(
    runner: &ResolvedRunner,
    executable_path: &str,
    install_path: &str,
    launch_args: &Vec<String>,
) -> (r: Result<RunnerCommand, String>)
    ensures
        match (
            r,
            built_command(
                runner.kind@,
                runner.label@,
                opt_view(runner.path),
                executable_path@,
                install_path@,
                launch_args.deep_view(),
            ),
        ) {
            (Ok(c), Ok(v)) => c@ == v,
            (Err(e), Err(m)) => e@ == m,
            _ => false,
        },
{
    let kind = chars_of(runner.kind.as_str());
    if crate::text::eq_text(&kind, "native") {
        let c = RunnerCommand {
            runner_kind: runner.kind.clone(),
            program: owned(executable_path),
            args: copy_args(launch_args),
            working_dir: owned(install_path),
            envs: Vec::new(),
            unset_envs: Vec::new(),
        };
        assert(c.envs.deep_view() =~= Seq::<(Seq<char>, Seq<char>)>::empty());
        assert(c.unset_envs.deep_view() =~= Seq::<Seq<char>>::empty());
        Ok(c)
    } else if crate::text::eq_text(&kind, "wine") {
        match &runner.path {
            None => {
                let mut e = owned("Runner Wine '");
                e.append(runner.label.as_str());
                e.append("' foi resolvido sem caminho executável.");
                Err(e)
            },
            Some(p) => {
                let mut args: Vec<String> = Vec::new();
                args.push(owned(executable_path));
                let rest = copy_args(launch_args);
                let mut i: usize = 0;
                while i < rest.len()
                    invariant
                        i <= rest.len(),
                        rest.deep_view() == launch_args.deep_view(),
                        args.deep_view() == seq![executable_path@] + rest.deep_view().take(
                            i as int,
                        ),
                    decreases rest.len() - i,
                {
                    let ghost before = args.deep_view();
                    args.push(rest[i].clone());
                    assert(args.deep_view() =~= before.push(rest@[i as int]@));
                    assert(rest.deep_view().take(i + 1) =~= rest.deep_view().take(i as int).push(
                        rest@[i as int]@,
                    ));
                    i = i + 1;
                }
                assert(rest.deep_view().take(rest.len() as int) =~= rest.deep_view());
                let c = RunnerCommand {
                    runner_kind: runner.kind.clone(),
                    program: p.clone(),
                    args,
                    working_dir: owned(install_path),
                    envs: Vec::new(),
                    unset_envs: Vec::new(),
                };
                assert(c.envs.deep_view() =~= Seq::<(Seq<char>, Seq<char>)>::empty());
                assert(c.unset_envs.deep_view() =~= Seq::<Seq<char>>::empty());
                Ok(c)
            },
        }
    } else if crate::text::eq_text(&kind, "proton") {
        let mut e = owned("Runner Proton '");
        e.append(runner.label.as_str());
        e.append("' foi resolvido em '");
        match &runner.path {
            Some(p) => e.append(p.as_str()),
            None => e.append("caminho não resolvido"),
        }
        e.append(
            "', mas a execução Proton ainda precisa de prefixo/STEAM_COMPAT_DATA_PATH gerenciado pelo launcher.",
        );
        Err(e)
    } else {
        let mut e = owned("Runner '");
        e.append(runner.kind.as_str());
        e.append("' foi resolvido, mas ainda não possui montagem de comando implementada.");
        Err(e)
    }
}

// ---------------------------------------------------------------------------
// Logging a command
// ---------------------------------------------------------------------------
/// What `format!("{:?}", v)` writes for a list of texts (quotes, escapes
/// and separators as `Debug` writes them).
pub uninterp spec fn debug_list_text(items: Seq<Seq<char>>) -> Seq<char>;

/// `Debug` of a list of strings.
#[verifier::external_body]
fn debug_list(items: &Vec<String>) -> (r: String)
    ensures
        r@ == debug_list_text(items.deep_view()),
{
    format!("{:?}", items)
}

/// The log lines that describe a command.
pub open spec fn command_log_lines(c: CommandView) -> Seq<Seq<char>> {
    seq![
        "runner_kind="@ + c.runner_kind,
        "program="@ + c.program,
        "working_dir="@ + c.working_dir,
        "args="@ + debug_list_text(c.args),
    ] + c.envs.map_values(|p: (Seq<char>, Seq<char>)| "env."@ + p.0 + "="@ + p.1)
        + c.unset_envs.map_values(|k: Seq<char>| "unset_env."@ + k + "=true"@)
}

/// The lines that record `command` in the runner log.
pub fn format_runner_command_for_log(command: &RunnerCommand) -> (r: Vec<String>)
    ensures
        r.deep_view() == command_log_lines(command@),
{
    let mut lines: Vec<String> = Vec::new();
    let mut a = owned("runner_kind=");
    a.append(command.runner_kind.as_str());
    lines.push(a);
    let mut b = owned("program=");
    b.append(command.program.as_str());
    lines.push(b);
    let mut c = owned("working_dir=");
    c.append(command.working_dir.as_str());
    lines.push(c);
    let mut d = owned("args=");
    let dl = debug_list(&command.args);
    d.append(dl.as_str());
    lines.push(d);
    let ghost head = lines.deep_view();
    let ghost cv = command@;
    let mut i: usize = 0;
    while i < command.envs.len()
        invariant
            i <= command.envs.len(),
            cv == command@,
            lines.deep_view() == head + cv.envs.take(i as int).map_values(
                |p: (Seq<char>, Seq<char>)| "env."@ + p.0 + "="@ + p.1,
            ),
        decreases command.envs.len() - i,
    {
        let (k, v) = &command.envs[i];
        let mut line = owned("env.");
        line.append(k.as_str());
        line.append("=");
        line.append(v.as_str());
        let ghost before = lines.deep_view();
        lines.push(line);
        assert(cv.envs[i as int] == (k@, v@));
        assert(cv.envs.take(i + 1) =~= cv.envs.take(i as int).push(cv.envs[i as int]));
        assert(lines.deep_view() =~= before.push("env."@ + k@ + "="@ + v@));
        i = i + 1;
    }
    assert(cv.envs.take(command.envs.len() as int) =~= cv.envs);
    let ghost mid = lines.deep_view();
    let mut j: usize = 0;
    while j < command.unset_envs.len()
        invariant
            j <= command.unset_envs.len(),
            cv == command@,
            lines.deep_view() == mid + cv.unset_envs.take(j as int).map_values(
                |k: Seq<char>| "unset_env."@ + k + "=true"@,
            ),
        decreases command.unset_envs.len() - j,
    {
        let k = &command.unset_envs[j];
        let mut line = owned("unset_env.");
        line.append(k.as_str());
        line.append("=true");
        let ghost before = lines.deep_view();
        lines.push(line);
        assert(cv.unset_envs[j as int] == k@);
        assert(cv.unset_envs.take(j + 1) =~= cv.unset_envs.take(j as int).push(
            cv.unset_envs[j as int],
        ));
        assert(lines.deep_view() =~= before.push("unset_env."@ + k@ + "=true"@));
        j = j + 1;
    }
    assert(cv.unset_envs.take(command.unset_envs.len() as int) =~= cv.unset_envs);
    assert(head =~= seq![
        "runner_kind="@ + cv.runner_kind,
        "program="@ + cv.program,
        "working_dir="@ + cv.working_dir,
        "args="@ + debug_list_text(cv.args),
    ]);
    assert(lines.deep_view() =~= command_log_lines(command@));
    lines
}

// ---------------------------------------------------------------------------
// Discovery
// ---------------------------------------------------------------------------
pub open spec fn available_runner(
    id: Seq<char>,
    kind: Seq<char>,
    label: Seq<char>,
    source: Seq<char>,
    path: Option<Seq<char>>,
) -> RunnerView {
    RunnerView {
        id: id,
        kind: kind,
        label: label,
        status: "available"@,
        source: source,
        path: path,
        installable: false,
        install_hint: None,
    }
}

/// A runner found on the `PATH`, if it was.
pub open spec fn path_runner(
    found: Option<Seq<char>>,
    id: Seq<char>,
    kind: Seq<char>,
    label: Seq<char>,
) -> Seq<RunnerView> {
    match found {
        Some(p) => seq![available_runner(id, kind, label, "PATH"@, Some(p))],
        None => Seq::empty(),
    }
}

/// The runners of the system: native Linux, then the Wine, Wine64, Proton and
/// umu-run binaries found on the `PATH`.
pub open spec fn system_runner_list(
    wine: Option<Seq<char>>,
    wine64: Option<Seq<char>>,
    proton: Option<Seq<char>>,
    umu_run: Option<Seq<char>>,
) -> Seq<RunnerView> {
    seq![available_runner("native-system"@, "native"@, "Linux nativo"@, "Sistema"@, None)]
        + path_runner(wine, "system-wine"@, "wine"@, "Wine do sistema"@) + path_runner(
        wine64,
        "system-wine64"@,
        "wine"@,
        "Wine64 do sistema"@,
    ) + path_runner(proton, "system-proton"@, "proton"@, "Proton do sistema"@) + path_runner(
        umu_run,
        "system-umu-run"@,
        "proton"@,
        "UMU Launcher / umu-run"@,
    )
}

/// When a binary was found on the `PATH`, the list holds it as an
/// available runner of `kind` from the `PATH`, at the path where it was
/// found.
pub open spec fn lists_found(rs: Seq<RunnerView>, found: Option<Seq<char>>, kind: Seq<char>) -> bool {
    found matches Some(p) ==> exists|i: int|
        0 <= i < rs.len() && #[trigger] rs[i].kind == kind && rs[i].status == "available"@
            && rs[i].source == "PATH"@ && rs[i].path == Some(p)
}

proof fn lemma_installables_keep_prefix(base: Seq<RunnerView>)
    ensures
        with_installables(base).len() >= base.len(),
        forall|i: int| 0 <= i < base.len() ==> #[trigger] with_installables(base)[i] == base[i],
{
}

proof fn lemma_path_runner_at(
    before: Seq<RunnerView>,
    found: Option<Seq<char>>,
    id: Seq<char>,
    kind: Seq<char>,
    label: Seq<char>,
    after: Seq<RunnerView>,
    rs: Seq<RunnerView>,
)
    requires
        rs == before + path_runner(found, id, kind, label) + after,
    ensures
        lists_found(rs, found, kind),
{
    if let Some(p) = found {
        let i = before.len() as int;
        let x = path_runner(found, id, kind, label);
        assert(x == seq![available_runner(id, kind, label, "PATH"@, Some(p))]);
        assert((before + x)[i] == x[0]);
        assert(rs[i] == (before + x)[i]);
        assert(rs[i].kind == kind && rs[i].status == "available"@ && rs[i].source == "PATH"@
            && rs[i].path == Some(p));
    }
}

/// Every binary found on the `PATH` is discovered: `wine` and `wine64` as
/// available Wine runners, `proton` and `umu-run` as available Proton
/// runners, each from the `PATH` with the path where it was found, whatever
/// else was found in Steam's or the launcher's folders.
pub proof fn lemma_found_binaries_are_listed(
    wine: Option<Seq<char>>,
    wine64: Option<Seq<char>>,
    proton: Option<Seq<char>>,
    umu_run: Option<Seq<char>>,
    steam: Seq<RunnerView>,
    managed: Seq<RunnerView>,
)
    ensures
        lists_found(
            with_installables(system_runner_list(wine, wine64, proton, umu_run) + steam + managed),
            wine,
            "wine"@,
        ),
        lists_found(
            with_installables(system_runner_list(wine, wine64, proton, umu_run) + steam + managed),
            wine64,
            "wine"@,
        ),
        lists_found(
            with_installables(system_runner_list(wine, wine64, proton, umu_run) + steam + managed),
            proton,
            "proton"@,
        ),
        lists_found(
            with_installables(system_runner_list(wine, wine64, proton, umu_run) + steam + managed),
            umu_run,
            "proton"@,
        ),
{
    let native = seq![available_runner("native-system"@, "native"@, "Linux nativo"@, "Sistema"@, None)];
    let w = path_runner(wine, "system-wine"@, "wine"@, "Wine do sistema"@);
    let w64 = path_runner(wine64, "system-wine64"@, "wine"@, "Wine64 do sistema"@);
    let pr = path_runner(proton, "system-proton"@, "proton"@, "Proton do sistema"@);
    let u = path_runner(umu_run, "system-umu-run"@, "proton"@, "UMU Launcher / umu-run"@);
    let rest = steam + managed;
    let base = system_runner_list(wine, wine64, proton, umu_run) + steam + managed;
    assert(base =~= native + w + (w64 + pr + u + rest));
    assert(base =~= (native + w) + w64 + (pr + u + rest));
    assert(base =~= (native + w + w64) + pr + (u + rest));
    assert(base =~= (native + w + w64 + pr) + u + rest);
    lemma_path_runner_at(native, wine, "system-wine"@, "wine"@, "Wine do sistema"@, w64 + pr + u + rest, base);
    lemma_path_runner_at(native + w, wine64, "system-wine64"@, "wine"@, "Wine64 do sistema"@, pr + u + rest, base);
    lemma_path_runner_at(native + w + w64, proton, "system-proton"@, "proton"@, "Proton do sistema"@, u + rest, base);
    lemma_path_runner_at(native + w + w64 + pr, umu_run, "system-umu-run"@, "proton"@, "UMU Launcher / umu-run"@, rest, base);
    lemma_installables_keep_prefix(base);
    let rs = with_installables(base);
    assert forall|found: Option<Seq<char>>, kind: Seq<char>| lists_found(base, found, kind) implies lists_found(rs, found, kind) by {
        if let Some(p) = found {
            let i = choose|i: int| 0 <= i < base.len() && #[trigger] base[i].kind == kind && base[i].status == "available"@
                && base[i].source == "PATH"@ && base[i].path == Some(p);
            assert(rs[i] == base[i]);
        }
    }
}

pub open spec fn has_available(rs: Seq<RunnerView>, kind: Seq<char>) -> bool {
    exists|i: int| 0 <= i < rs.len() && #[trigger] rs[i].kind == kind && rs[i].status == "available"@
}

pub open spec fn wine_installable() -> RunnerView {
    RunnerView {
        id: "managed-wine-installable"@,
        kind: "wine"@,
        label: "Wine gerenciado pelo launcher"@,
        status: "installable"@,
        source: "Launcher"@,
        path: None,
        installable: true,
        install_hint: Some(
            "Opção planejada para baixar/registrar um Wine isolado quando o sistema não tiver Wine disponível."@,
        ),
    }
}

pub open spec fn proton_installable() -> RunnerView {
    RunnerView {
        id: "managed-proton-ge-installable"@,
        kind: "proton"@,
        label: "Proton-GE gerenciado pelo launcher"@,
        status: "installable"@,
        source: "Launcher"@,
        path: None,
        installable: true,
        install_hint: Some(
            "Opção planejada para baixar/registrar Proton-GE em uma pasta controlada pelo launcher."@,
        ),
    }
}

/// The list completed with an installable Wine and Proton-GE where no
/// runner of that kind is available.
pub open spec fn with_installables(rs: Seq<RunnerView>) -> Seq<RunnerView> {
    let a = if has_available(rs, "wine"@) {
        rs
    } else {
        rs.push(wine_installable())
    };
    if has_available(rs, "proton"@) {
        a
    } else {
        a.push(proton_installable())
    }
}

fn copy_runner(r: &RunnerInfo) -> (c: RunnerInfo)
    ensures
        c@ == r@,
{
    RunnerInfo {
        id: r.id.clone(),
        kind: r.kind.clone(),
        label: r.label.clone(),
        status: r.status.clone(),
        source: r.source.clone(),
        path: match &r.path {
            Some(p) => Some(p.clone()),
            None => None,
        },
        installable: r.installable,
        install_hint: match &r.install_hint {
            Some(p) => Some(p.clone()),
            None => None,
        },
    }
}

fn push_runners(out: &mut Vec<RunnerInfo>, rs: &Vec<RunnerInfo>)
    ensures
        runner_views(final(out)@) == runner_views(old(out)@) + runner_views(rs@),
{
    let ghost start = runner_views(out@);
    let mut i: usize = 0;
    while i < rs.len()
        invariant
            i <= rs.len(),
            runner_views(out@) == start + runner_views(rs@).take(i as int),
        decreases rs.len() - i,
    {
        let ghost before = runner_views(out@);
        out.push(copy_runner(&rs[i]));
        assert(runner_views(out@) =~= before.push(rs@[i as int]@));
        assert(runner_views(rs@).take(i + 1) =~= runner_views(rs@).take(i as int).push(
            rs@[i as int]@,
        ));
        i = i + 1;
    }
    assert(runner_views(rs@).take(rs.len() as int) =~= runner_views(rs@));
}

fn push_path_runner(
    out: &mut Vec<RunnerInfo>,
    found: Option<&str>,
    id: &str,
    kind: &str,
    label: &str,
)
    ensures
        runner_views(final(out)@) == runner_views(old(out)@) + path_runner(
            opt_str(found),
            id@,
            kind@,
            label@,
        ),
{
    let ghost before = runner_views(out@);
    match found {
        Some(p) => {
            out.push(runner_info(id, kind, label, "available", "PATH", Some(p), false, None));
            assert(runner_views(out@) =~= before + path_runner(opt_str(found), id@, kind@, label@));
        },
        None => {
            assert(runner_views(out@) =~= before + path_runner(opt_str(found), id@, kind@, label@));
        },
    }
}

fn has_available_kind(rs: &Vec<RunnerInfo>, kind: &str) -> (r: bool)
    ensures
        r == has_available(runner_views(rs@), kind@),
{
    let mut i: usize = 0;
    while i < rs.len()
        invariant
            i <= rs.len(),
            forall|j: int|
                0 <= j < i ==> !(#[trigger] runner_views(rs@)[j].kind == kind@ && runner_views(
                    rs@,
                )[j].status == "available"@),
        decreases rs.len() - i,
    {
        assert(runner_views(rs@)[i as int] == rs@[i as int]@);
        if crate::text::str_eq(rs[i].kind.as_str(), kind) && crate::text::str_eq(
            rs[i].status.as_str(),
            "available",
        ) {
            assert(runner_views(rs@)[i as int].kind == kind@ && runner_views(rs@)[i as int].status
                == "available"@);
            return true;
        }
        i = i + 1;
    }
    false
}

/// The runners of this machine: those of the system, then the Proton builds
/// found in Steam folders, then the runners the launcher installed; with an
/// installable Wine and Proton-GE offered where no runner of that kind is
/// available.
pub fn discover_runners(
    wine: Option<&str>,
    wine64: Option<&str>,
    proton: Option<&str>,
    umu_run: Option<&str>,
    steam: &Vec<RunnerInfo>,
    managed: &Vec<RunnerInfo>,
) -> (r: Vec<RunnerInfo>)
    ensures
        runner_views(r@) == with_installables(
            system_runner_list(opt_str(wine), opt_str(wine64), opt_str(proton), opt_str(umu_run))
                + runner_views(steam@) + runner_views(managed@),
        ),
        lists_found(runner_views(r@), opt_str(wine), "wine"@),
        lists_found(runner_views(r@), opt_str(wine64), "wine"@),
        lists_found(runner_views(r@), opt_str(proton), "proton"@),
        lists_found(runner_views(r@), opt_str(umu_run), "proton"@),
{
    proof {
        lemma_found_binaries_are_listed(
            opt_str(wine),
            opt_str(wine64),
            opt_str(proton),
            opt_str(umu_run),
            runner_views(steam@),
            runner_views(managed@),
        );
    }
    let mut rs: Vec<RunnerInfo> = Vec::new();
    rs.push(
        runner_info("native-system", "native", "Linux nativo", "available", "Sistema", None, false, None),
    );
    assert(runner_views(rs@) =~= seq![
        available_runner("native-system"@, "native"@, "Linux nativo"@, "Sistema"@, None),
    ]);
    push_path_runner(&mut rs, wine, "system-wine", "wine", "Wine do sistema");
    push_path_runner(&mut rs, wine64, "system-wine64", "wine", "Wine64 do sistema");
    push_path_runner(&mut rs, proton, "system-proton", "proton", "Proton do sistema");
    push_path_runner(&mut rs, umu_run, "system-umu-run", "proton", "UMU Launcher / umu-run");
    push_runners(&mut rs, steam);
    push_runners(&mut rs, managed);
    let ghost all = runner_views(rs@);
    assert(all =~= system_runner_list(opt_str(wine), opt_str(wine64), opt_str(proton), opt_str(umu_run))
        + runner_views(steam@) + runner_views(managed@));
    let has_wine = has_available_kind(&rs, "wine");
    let has_proton = has_available_kind(&rs, "proton");
    if !has_wine {
        let ghost before = runner_views(rs@);
        rs.push(
            runner_info(
                "managed-wine-installable",
                "wine",
                "Wine gerenciado pelo launcher",
                "installable",
                "Launcher",
                None,
                true,
                Some(
                    "Opção planejada para baixar/registrar um Wine isolado quando o sistema não tiver Wine disponível.",
                ),
            ),
        );
        assert(runner_views(rs@) =~= before.push(wine_installable()));
    }
    if !has_proton {
        let ghost before = runner_views(rs@);
        rs.push(
            runner_info(
                "managed-proton-ge-installable",
                "proton",
                "Proton-GE gerenciado pelo launcher",
                "installable",
                "Launcher",
                None,
                true,
                Some(
                    "Opção planejada para baixar/registrar Proton-GE em uma pasta controlada pelo launcher.",
                ),
            ),
        );
        assert(runner_views(rs@) =~= before.push(proton_installable()));
    }
    rs
}

/// The Proton build in a Steam folder named `name`, when its name (in
/// lowercase) mentions Proton; `proton_binary` is its `proton` executable.
pub fn steam_proton_runner(name: &str, proton_binary: &str) -> (r: Option<RunnerInfo>)
    ensures
        match r {
            Some(x) => contains_text(unicode_lowercase(name@), "proton"@) && x@
                == available_runner("steam-proton-"@ + name@, "proton"@, name@, "Steam"@, Some(proton_binary@)),
            None => !contains_text(unicode_lowercase(name@), "proton"@),
        },
{
    let lower = to_lowercase_text(name);
    if !chars_contain(&chars_of(lower.as_str()), &chars_of("proton")) {
        return None;
    }
    let mut id = owned("steam-proton-");
    id.append(name);
    Some(runner_info(id.as_str(), "proton", name, "available", "Steam", Some(proton_binary), false, None))
}

/// The runner the launcher installed in its folder `name`: Proton when
/// `proton_binary` (the folder's executable `proton`) is given, else Wine when
/// `wine_binary` (its executable `bin/wine`) is.
pub fn managed_runner_entry(name: &str, proton_binary: Option<&str>, wine_binary: Option<&str>) -> (r:
    Option<RunnerInfo>)
    ensures
        match (proton_binary, wine_binary) {
            (Some(p), _) => r is Some && r->0@ == available_runner(
                "managed-proton-"@ + name@,
                "proton"@,
                name@,
                "Launcher"@,
                Some(p@),
            ),
            (None, Some(w)) => r is Some && r->0@ == available_runner(
                "managed-wine-"@ + name@,
                "wine"@,
                name@,
                "Launcher"@,
                Some(w@),
            ),
            (None, None) => r is None,
        },
{
    match (proton_binary, wine_binary) {
        (Some(p), _) => {
            let mut id = owned("managed-proton-");
            id.append(name);
            Some(runner_info(id.as_str(), "proton", name, "available", "Launcher", Some(p), false, None))
        },
        (None, Some(w)) => {
            let mut id = owned("managed-wine-");
            id.append(name);
            Some(runner_info(id.as_str(), "wine", name, "available", "Launcher", Some(w), false, None))
        },
        (None, None) => None,
    }
}

// ---------------------------------------------------------------------------
// Selection
// ---------------------------------------------------------------------------
/// A runner request as it is matched: trimmed and in lowercase.
pub open spec fn normalized_request(requested: Seq<char>) -> Seq<char> {
    unicode_lowercase(trim(requested))
}

/// The index of the first runner of `kind` that is available (`installable`
/// false) or that can be installed (`installable` true).
pub open spec fn first_runner(rs: Seq<RunnerView>, kind: Seq<char>, installable: bool) -> Option<int>
    decreases rs.len(),
{
    if rs.len() == 0 {
        None
    } else {
        match first_runner(rs.drop_last(), kind, installable) {
            Some(i) => Some(i),
            None => {
                let r = rs.last();
                if r.kind == kind && (if installable {
                    r.installable
                } else {
                    r.status == "available"@
                }) {
                    Some(rs.len() - 1)
                } else {
                    None
                }
            },
        }
    }
}

/// The index of the first available runner whose id is `id`.
pub open spec fn runner_with_id(rs: Seq<RunnerView>, id: Seq<char>) -> Option<int>
    decreases rs.len(),
{
    if rs.len() == 0 {
        None
    } else {
        match runner_with_id(rs.drop_last(), id) {
            Some(i) => Some(i),
            None => if rs.last().id == id && rs.last().status == "available"@ {
                Some(rs.len() - 1)
            } else {
                None
            },
        }
    }
}

pub open spec fn resolved_of(r: RunnerView) -> ResolvedView {
    ResolvedView { id: r.id, kind: r.kind, label: r.label, source: r.source, path: r.path }
}

/// Which runner a request selects among `rs`, or why none does.
pub open spec fn runner_choice(rs: Seq<RunnerView>, requested: Seq<char>) -> Result<
    ResolvedView,
    Seq<char>,
> {
    let n = normalized_request(requested);
    if n.len() == 0 {
        Err("Runner solicitado não pode ser vazio."@)
    } else if runner_with_id(rs, trim(requested)) is Some {
        Ok(resolved_of(rs[runner_with_id(rs, trim(requested))->0]))
    } else {
        match first_runner(rs, n, false) {
            Some(i) => Ok(resolved_of(rs[i])),
            None => match first_runner(rs, n, true) {
                Some(i) => Err(
                    "Runner '"@ + n + "' não está disponível no sistema. Opção preparada: "@
                        + rs[i].label + ". "@ + match rs[i].install_hint {
                        Some(h) => h,
                        None => "Instalação de runner gerenciado ainda será implementada."@,
                    },
                ),
                None => Err(
                    "Nenhum runner compatível com '"@ + n
                        + "' foi encontrado. Verifique o manifesto ou configure um runner suportado."@,
                ),
            },
        }
    }
}

proof fn lemma_first_runner_none(rs: Seq<RunnerView>, kind: Seq<char>, installable: bool)
    requires
        forall|j: int|
            0 <= j < rs.len() ==> !(#[trigger] rs[j].kind == kind && (if installable {
                rs[j].installable
            } else {
                rs[j].status == "available"@
            })),
    ensures
        first_runner(rs, kind, installable) is None,
    decreases rs.len(),
{
    if rs.len() > 0 {
        lemma_first_runner_none(rs.drop_last(), kind, installable);
        assert(rs.last() == rs[rs.len() - 1]);
    }
}

proof fn lemma_first_runner_at(rs: Seq<RunnerView>, kind: Seq<char>, installable: bool, i: int)
    requires
        0 <= i < rs.len(),
        rs[i].kind == kind && (if installable {
            rs[i].installable
        } else {
            rs[i].status == "available"@
        }),
        forall|j: int|
            0 <= j < i ==> !(#[trigger] rs[j].kind == kind && (if installable {
                rs[j].installable
            } else {
                rs[j].status == "available"@
            })),
    ensures
        first_runner(rs, kind, installable) == Some(i),
    decreases rs.len(),
{
    if i < rs.len() - 1 {
        lemma_first_runner_at(rs.drop_last(), kind, installable, i);
    } else {
        lemma_first_runner_none(rs.drop_last(), kind, installable);
    }
}

proof fn lemma_runner_with_id_none(rs: Seq<RunnerView>, id: Seq<char>)
    requires
        forall|j: int|
            0 <= j < rs.len() ==> !(#[trigger] rs[j].id == id && rs[j].status == "available"@),
    ensures
        runner_with_id(rs, id) is None,
    decreases rs.len(),
{
    if rs.len() > 0 {
        lemma_runner_with_id_none(rs.drop_last(), id);
        assert(rs.last() == rs[rs.len() - 1]);
    }
}

proof fn lemma_runner_with_id_at(rs: Seq<RunnerView>, id: Seq<char>, i: int)
    requires
        0 <= i < rs.len(),
        rs[i].id == id && rs[i].status == "available"@,
        forall|j: int|
            0 <= j < i ==> !(#[trigger] rs[j].id == id && rs[j].status == "available"@),
    ensures
        runner_with_id(rs, id) == Some(i),
    decreases rs.len(),
{
    if i < rs.len() - 1 {
        lemma_runner_with_id_at(rs.drop_last(), id, i);
    } else {
        lemma_runner_with_id_none(rs.drop_last(), id);
    }
}

fn find_runner_by_id(rs: &Vec<RunnerInfo>, id: &Vec<char>) -> (r: Option<usize>)
    ensures
        match r {
            Some(i) => i < rs.len() && runner_with_id(runner_views(rs@), id@) == Some(i as int),
            None => runner_with_id(runner_views(rs@), id@) is None,
        },
{
    let ghost vs = runner_views(rs@);
    let mut i: usize = 0;
    while i < rs.len()
        invariant
            i <= rs.len(),
            vs == runner_views(rs@),
            forall|j: int|
                0 <= j < i ==> !(#[trigger] vs[j].id == id@ && vs[j].status == "available"@),
        decreases rs.len() - i,
    {
        assert(vs[i as int] == rs@[i as int]@);
        if crate::text::eq_text(id, rs[i].id.as_str()) && crate::text::str_eq(
            rs[i].status.as_str(),
            "available",
        ) {
            proof {
                lemma_runner_with_id_at(vs, id@, i as int);
            }
            return Some(i);
        }
        i = i + 1;
    }
    proof {
        lemma_runner_with_id_none(vs, id@);
    }
    None
}

fn resolved_at(runners: &Vec<RunnerInfo>, i: usize) -> (r: ResolvedRunner)
    requires
        i < runners.len(),
    ensures
        r@ == resolved_of(runners@[i as int]@),
{
    let x = &runners[i];
    ResolvedRunner {
        id: x.id.clone(),
        kind: x.kind.clone(),
        label: x.label.clone(),
        source: x.source.clone(),
        path: match &x.path {
            Some(p) => Some(p.clone()),
            None => None,
        },
    }
}

fn find_runner(rs: &Vec<RunnerInfo>, kind: &Vec<char>, installable: bool) -> (r: Option<usize>)
    ensures
        match r {
            Some(i) => i < rs.len() && first_runner(runner_views(rs@), kind@, installable) == Some(
                i as int,
            ),
            None => first_runner(runner_views(rs@), kind@, installable) is None,
        },
{
    let ghost vs = runner_views(rs@);
    let mut i: usize = 0;
    while i < rs.len()
        invariant
            i <= rs.len(),
            vs == runner_views(rs@),
            forall|j: int|
                0 <= j < i ==> !(#[trigger] vs[j].kind == kind@ && (if installable {
                    vs[j].installable
                } else {
                    vs[j].status == "available"@
                })),
        decreases rs.len() - i,
    {
        assert(vs[i as int] == rs@[i as int]@);
        let kind_ok = crate::text::eq_text(kind, rs[i].kind.as_str());
        let second = if installable {
            rs[i].installable
        } else {
            crate::text::str_eq(rs[i].status.as_str(), "available")
        };
        if kind_ok && second {
            proof {
                lemma_first_runner_at(vs, kind@, installable, i as int);
            }
            return Some(i);
        }
        i = i + 1;
    }
    proof {
        lemma_first_runner_none(vs, kind@, installable);
    }
    None
}

/// The runner that `requested_runner` selects among `runners`: the
/// available runner whose id is the (trimmed) request; else the first
/// available one of that kind (the request in lowercase); otherwise an error
/// that names an installable one of that kind, or says that none fits.
pub fn resolve_runner(runners: &Vec<RunnerInfo>, requested_runner: &str) -> (r: Result<
    ResolvedRunner,
    String,
>)
    ensures
        match (r, runner_choice(runner_views(runners@), requested_runner@)) {
            (Ok(x), Ok(v)) => x@ == v,
            (Err(e), Err(m)) => e@ == m,
            _ => false,
        },
{
    let trimmed_chars = trim_chars(&chars_of(requested_runner));
    let trimmed = string_of(&trimmed_chars);
    let lowered = to_lowercase_text(trimmed.as_str());
    let n = chars_of(lowered.as_str());
    if n.len() == 0 {
        return Err(owned("Runner solicitado não pode ser vazio."));
    }
    let ghost vs = runner_views(runners@);
    match find_runner_by_id(runners, &trimmed_chars) {
        Some(i) => {
            assert(vs[i as int] == runners@[i as int]@);
            return Ok(resolved_at(runners, i));
        },
        None => {},
    }
    match find_runner(runners, &n, false) {
        Some(i) => {
            assert(vs[i as int] == runners@[i as int]@);
            return Ok(resolved_at(runners, i));
        },
        None => {},
    }
    match find_runner(runners, &n, true) {
        Some(i) => {
            let x = &runners[i];
            assert(vs[i as int] == runners@[i as int]@);
            let mut e = owned("Runner '");
            e.append(lowered.as_str());
            e.append("' não está disponível no sistema. Opção preparada: ");
            e.append(x.label.as_str());
            e.append(". ");
            match &x.install_hint {
                Some(h) => e.append(h.as_str()),
                None => e.append("Instalação de runner gerenciado ainda será implementada."),
            }
            Err(e)
        },
        None => {
            let mut e = owned("Nenhum runner compatível com '");
            e.append(lowered.as_str());
            e.append("' foi encontrado. Verifique o manifesto ou configure um runner suportado.");
            Err(e)
        },
    }
}

} // verus!
