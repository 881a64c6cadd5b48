//! The decisions of launching, installing and updating a game: which method
//! and files are used, which checks stop the attempt, and the commands
//! that are started. Starting processes and looking at the disk are left
//! to the caller, which hands in what it found.
use vstd::prelude::*;
use crate::text::{chars_of, copy_string, opt_str, owned, str_eq, string_of, trim, trim_chars};
use crate::paths::{join, parent, path_join, path_parent};
use crate::manifest::{opt_view, BattlEyeConfig, GameManifest, InstallMethod};
use crate::download::{filename_from_url, sanitize_path_segment, sanitized_segment, url_file_name};
use crate::install::{
    battl_eye_replaces, battl_eye_replaces_main_process, configured_path,
    configured_path_for_install, managed_windows_prefix_dir, prefix_dir,
};
use crate::runners::{
    build_runner_command, built_command, command_log_lines, format_runner_command_for_log,
    CommandView, ResolvedRunner, RunnerCommand,
};
use crate::environment::{apply_launch_environment, apply_update_environment, overridden};
use crate::archive::{resolved_format, ArchiveFormat};

verus! {

// ---------------------------------------------------------------------------
// Requests
// ---------------------------------------------------------------------------
pub open spec fn empty_game_id_text() -> Seq<char> {
    "ID do jogo não pode ser vazio."@
}

/// The game id of a request: trimmed, and refused when nothing is left.
pub fn game_id_argument(game_id: &str) -> (r: Result<String, String>)
    ensures
        trim(game_id@).len() > 0 ==> r is Ok && r->Ok_0@ == trim(game_id@),
        trim(game_id@).len() == 0 ==> r is Err && r->Err_0@ == empty_game_id_text(),
{
    let t = trim_chars(&chars_of(game_id));
    if t.len() == 0 {
        return Err(owned("ID do jogo não pode ser vazio."));
    }
    Ok(string_of(&t))
}

/// The runner an external update asks for: the update's own runner, else
/// the installation's override, else the game's runner.
pub open spec fn update_runner_request(manifest: GameManifest, install_override: Option<Seq<char>>) -> Seq<
    char,
> {
    match opt_view(manifest.update.runner) {
        Some(r) => r,
        None => match install_override {
            Some(r) => r,
            None => manifest.launch.runner@,
        },
    }
}

/// The runner an external update asks for.
pub fn update_requested_runner(manifest: &GameManifest, install_override: Option<&str>) -> (r:
    String)
    ensures
        r@ == update_runner_request(*manifest, opt_str(install_override)),
{
    match &manifest.update.runner {
        Some(r) => copy_string(r),
        None => match install_override {
            Some(r) => owned(r),
            None => copy_string(&manifest.launch.runner),
        },
    }
}

// ---------------------------------------------------------------------------
// Installing
// ---------------------------------------------------------------------------
/// The index of the first install method of `kind`.
pub open spec fn first_method(ms: Seq<InstallMethod>, kind: Seq<char>) -> Option<int>
    decreases ms.len(),
{
    if ms.len() == 0 {
        None
    } else {
        match first_method(ms.drop_last(), kind) {
            Some(i) => Some(i),
            None => if ms.last().kind@ == kind {
                Some(ms.len() - 1)
            } else {
                None
            },
        }
    }
}

proof fn lemma_first_method_none(ms: Seq<InstallMethod>, kind: Seq<char>)
    requires
        forall|j: int| 0 <= j < ms.len() ==> #[trigger] ms[j].kind@ != kind,
    ensures
        first_method(ms, kind) is None,
    decreases ms.len(),
{
    if ms.len() > 0 {
        lemma_first_method_none(ms.drop_last(), kind);
        assert(ms.last() == ms[ms.len() - 1]);
    }
}

proof fn lemma_first_method_found(ms: Seq<InstallMethod>, kind: Seq<char>)
    ensures
        first_method(ms, kind) matches Some(i) ==> 0 <= i < ms.len() && ms[i].kind@ == kind,
    decreases ms.len(),
{
    if ms.len() > 0 {
        lemma_first_method_found(ms.drop_last(), kind);
        assert(ms.last() == ms[ms.len() - 1]);
    }
}

proof fn lemma_first_method_at(ms: Seq<InstallMethod>, kind: Seq<char>, i: int)
    requires
        0 <= i < ms.len(),
        ms[i].kind@ == kind,
        forall|j: int| 0 <= j < i ==> #[trigger] ms[j].kind@ != kind,
    ensures
        first_method(ms, kind) == Some(i),
    decreases ms.len(),
{
    if i < ms.len() - 1 {
        lemma_first_method_at(ms.drop_last(), kind, i);
    } else {
        lemma_first_method_none(ms.drop_last(), kind);
    }
}

fn find_method(manifest: &GameManifest, kind: &str) -> (r: Option<usize>)
    ensures
        match r {
            Some(i) => i < manifest.installation.methods.len() && first_method(
                manifest.installation.methods@,
                kind@,
            ) == Some(i as int),
            None => first_method(manifest.installation.methods@, kind@) is None,
        },
{
    let ms = &manifest.installation.methods;
    let mut i: usize = 0;
    while i < ms.len()
        invariant
            i <= ms.len(),
            ms@ == manifest.installation.methods@,
            forall|j: int| 0 <= j < i ==> #[trigger] ms@[j].kind@ != kind@,
        decreases ms.len() - i,
    {
        if str_eq(ms[i].kind.as_str(), kind) {
            proof {
                lemma_first_method_at(ms@, kind@, i as int);
            }
            return Some(i);
        }
        i = i + 1;
    }
    proof {
        lemma_first_method_none(ms@, kind@);
    }
    None
}

/// How a Windows installer is fetched and run.
#[derive(Clone, Debug)]
pub struct InstallerPlan {
    /// The installer method among the manifest's methods.
    pub method_index: usize,
    pub url: String,
    pub downloads_dir: String,
    pub installer_path: String,
    /// The runner the installer is run with.
    pub runner: String,
    /// Where the game is registered as installed once the installer runs,
    /// when the method names its install path.
    pub registered_install_path: Option<String>,
}

/// The plan of a Windows installer, or why the manifest has none.
pub open spec fn installer_plan(app_data_dir: Seq<char>, game_id: Seq<char>, manifest: GameManifest) -> Result<
    (int, Seq<char>, Seq<char>, Seq<char>, Seq<char>, Option<Seq<char>>),
    Seq<char>,
> {
    match first_method(manifest.installation.methods@, "windowsInstaller"@) {
        None => Err(manifest.name@ + " não possui método windowsInstaller no manifesto."@),
        Some(i) => {
            let m = manifest.installation.methods@[i];
            match opt_view(m.url) {
                None => Err(
                    "O método windowsInstaller de "@ + manifest.name@
                        + " não define uma URL de download."@,
                ),
                Some(url) => {
                    let downloads = join(join(app_data_dir, "downloads"@), sanitized_segment(game_id));
                    let runner = match opt_view(m.runner) {
                        Some(r) => r,
                        None => manifest.launch.runner@,
                    };
                    let registered = match opt_view(m.install_path) {
                        Some(p) => Some(
                            join(
                                prefix_dir(
                                    app_data_dir,
                                    game_id,
                                    match opt_view(m.compat_prefix) {
                                        Some(c) => c,
                                        None => runner,
                                    },
                                ),
                                p,
                            ),
                        ),
                        None => None,
                    };
                    Ok((i, url, downloads, join(downloads, url_file_name(url)), runner, registered))
                },
            }
        },
    }
}

/// Where an installer registers the game: nowhere without an install path;
/// else that path inside the compatibility prefix that the method names,
/// or, when it names none, the prefix of the runner the installer uses.
pub open spec fn registered_in_prefix(
    app_data_dir: Seq<char>,
    game_id: Seq<char>,
    m: InstallMethod,
    runner: Seq<char>,
    registered: Option<Seq<char>>,
) -> bool {
    match (opt_view(m.install_path), opt_view(m.compat_prefix)) {
        (None, _) => registered is None,
        (Some(p), Some(c)) => registered == Some(join(prefix_dir(app_data_dir, game_id, c), p)),
        (Some(p), None) => registered == Some(join(prefix_dir(app_data_dir, game_id, runner), p)),
    }
}

/// The installer plan registers the game inside the prefix the method's
/// `compatPrefix` names; only without one does the installer's runner (the
/// method's, else the game's) choose it. The plan uses a method of kind
/// `windowsInstaller`.
pub proof fn lemma_installer_registers_in_its_prefix(
    app_data_dir: Seq<char>,
    game_id: Seq<char>,
    manifest: GameManifest,
)
    ensures
        installer_plan(app_data_dir, game_id, manifest) matches Ok(t) ==> 0 <= t.0
            < manifest.installation.methods@.len() && manifest.installation.methods@[t.0].kind@
            == "windowsInstaller"@ && t.4 == match opt_view(
            manifest.installation.methods@[t.0].runner,
        ) {
            Some(r) => r,
            None => manifest.launch.runner@,
        } && registered_in_prefix(
            app_data_dir,
            game_id,
            manifest.installation.methods@[t.0],
            t.4,
            t.5,
        ),
{
    match first_method(manifest.installation.methods@, "windowsInstaller"@) {
        Some(_) => {
            lemma_first_method_found(manifest.installation.methods@, "windowsInstaller"@);
        },
        None => {},
    }
}

/// How the Windows installer of `manifest` is fetched and run.
pub fn windows_installer_plan(app_data_dir: &str, game_id: &str, manifest: &GameManifest) -> (r:
    Result<InstallerPlan, String>)
    ensures
        match (r, installer_plan(app_data_dir@, game_id@, *manifest)) {
            (Ok(p), Ok(t)) => p.method_index == t.0 && p.url@ == t.1 && p.downloads_dir@ == t.2
                && p.installer_path@ == t.3 && p.runner@ == t.4 && opt_view(
                p.registered_install_path,
            ) == t.5,
            (Err(a), Err(b)) => a@ == b,
            _ => false,
        },
        r matches Ok(p) ==> p.method_index < manifest.installation.methods.len()
            && registered_in_prefix(
            app_data_dir@,
            game_id@,
            manifest.installation.methods@[p.method_index as int],
            p.runner@,
            opt_view(p.registered_install_path),
        ),
{
    proof {
        lemma_installer_registers_in_its_prefix(app_data_dir@, game_id@, *manifest);
    }
    let i = match find_method(manifest, "windowsInstaller") {
        None => {
            let mut e = copy_string(&manifest.name);
            e.append(" não possui método windowsInstaller no manifesto.");
            return Err(e);
        },
        Some(i) => i,
    };
    let m = &manifest.installation.methods[i];
    let url = match &m.url {
        None => {
            let mut e = owned("O método windowsInstaller de ");
            e.append(manifest.name.as_str());
            e.append(" não define uma URL de download.");
            return Err(e);
        },
        Some(u) => u,
    };
    let a = path_join(&chars_of(app_data_dir), &chars_of("downloads"));
    let g = sanitize_path_segment(game_id);
    let downloads = path_join(&a, &chars_of(g.as_str()));
    let name = filename_from_url(url.as_str());
    let installer_path = string_of(&path_join(&downloads, &chars_of(name.as_str())));
    let runner = match &m.runner {
        Some(r) => copy_string(r),
        None => copy_string(&manifest.launch.runner),
    };
    let registered = match &m.install_path {
        Some(p) => {
            let prefix_kind = match &m.compat_prefix {
                Some(c) => c.as_str(),
                None => runner.as_str(),
            };
            let root = managed_windows_prefix_dir(app_data_dir, game_id, prefix_kind);
            Some(string_of(&path_join(&chars_of(root.as_str()), &chars_of(p.as_str()))))
        },
        None => None,
    };
    Ok(
        InstallerPlan {
            method_index: i,
            url: copy_string(url),
            downloads_dir: string_of(&downloads),
            installer_path,
            runner,
            registered_install_path: registered,
        },
    )
}

/// How a game is installed from an archive.
#[derive(Clone, Debug)]
pub struct ArchivePlan {
    /// The archive method among the manifest's methods.
    pub method_index: usize,
    pub url: String,
    /// The archive's format: the method's, else the one its URL names.
    pub format: ArchiveFormat,
    pub archive_path: String,
    pub staging_dir: String,
    pub target_dir: String,
}

/// The plan of an archive install, or why the manifest has none: the
/// archive method needs a URL, and its format (`format`, else the URL's
/// extension) must be one the installer extracts.
pub open spec fn archive_plan(app_data_dir: Seq<char>, game_id: Seq<char>, manifest: GameManifest) -> Result<
    (int, Seq<char>, ArchiveFormat, Seq<char>, Seq<char>, Seq<char>),
    Seq<char>,
> {
    match first_method(manifest.installation.methods@, "archive"@) {
        None => Err(manifest.name@ + " não possui método archive no manifesto."@),
        Some(i) => {
            let m = manifest.installation.methods@[i];
            match opt_view(m.url) {
                None => Err("O método archive de "@ + manifest.name@ + " não define uma URL."@),
                Some(url) => match resolved_format(opt_view(m.format), url) {
                    Err(e) => Err(e),
                    Ok(format) => {
                        let safe = sanitized_segment(game_id);
                        Ok(
                            (
                                i,
                                url,
                                format,
                                join(
                                    join(join(app_data_dir, "downloads"@), safe),
                                    url_file_name(url),
                                ),
                                join(join(app_data_dir, "install-staging"@), safe),
                                join(join(app_data_dir, "games"@), safe),
                            ),
                        )
                    },
                },
            }
        },
    }
}

fn data_subdir(app_data_dir: &str, sub: &str, safe: &str) -> (r: Vec<char>)
    ensures
        r@ == join(join(app_data_dir@, sub@), safe@),
{
    let a = path_join(&chars_of(app_data_dir), &chars_of(sub));
    path_join(&a, &chars_of(safe))
}

/// How the archive of `manifest` is downloaded and installed.
pub fn archive_install_plan(app_data_dir: &str, game_id: &str, manifest: &GameManifest) -> (r:
    Result<ArchivePlan, String>)
    ensures
        match (r, archive_plan(app_data_dir@, game_id@, *manifest)) {
            (Ok(p), Ok(t)) => p.method_index == t.0 && p.url@ == t.1 && p.format == t.2
                && p.archive_path@ == t.3 && p.staging_dir@ == t.4 && p.target_dir@ == t.5,
            (Err(a), Err(b)) => a@ == b,
            _ => false,
        },
{
    let i = match find_method(manifest, "archive") {
        None => {
            let mut e = copy_string(&manifest.name);
            e.append(" não possui método archive no manifesto.");
            return Err(e);
        },
        Some(i) => i,
    };
    let m = &manifest.installation.methods[i];
    let url = match &m.url {
        None => {
            let mut e = owned("O método archive de ");
            e.append(manifest.name.as_str());
            e.append(" não define uma URL.");
            return Err(e);
        },
        Some(u) => u,
    };
    let explicit: Option<&str> = match &m.format {
        Some(f) => Some(f.as_str()),
        None => None,
    };
    let format = match ArchiveFormat::resolve(explicit, url.as_str()) {
        Ok(f) => f,
        Err(e) => return Err(e),
    };
    let safe = sanitize_path_segment(game_id);
    let downloads = data_subdir(app_data_dir, "downloads", safe.as_str());
    let name = filename_from_url(url.as_str());
    Ok(
        ArchivePlan {
            method_index: i,
            url: copy_string(url),
            format,
            archive_path: string_of(&path_join(&downloads, &chars_of(name.as_str()))),
            staging_dir: string_of(&data_subdir(app_data_dir, "install-staging", safe.as_str())),
            target_dir: string_of(&data_subdir(app_data_dir, "games", safe.as_str())),
        },
    )
}

/// What follows once a Windows installer exits and the installation was
/// looked for.
pub enum AfterInstall {
    /// The game is not launched afterwards.
    Nothing,
    /// The game should launch but no installation was found.
    InstallNotFound,
    /// The game is launched.
    Launch,
    /// The game's files are updated from its remote manifest, then it is
    /// launched.
    UpdateThenLaunch,
}

/// What follows once a Windows installer exits: nothing unless the game
/// asks to be launched; then an error without an installation, else an
/// update first when the game updates from a remote manifest, then the launch.
pub fn after_installer_exit(manifest: &GameManifest, install_found: bool) -> (r: AfterInstall)
    ensures
        !crate::install::launches_after_install(*manifest) ==> r is Nothing,
        crate::install::launches_after_install(*manifest) && !install_found ==> r is InstallNotFound,
        crate::install::launches_after_install(*manifest) && install_found ==> (if manifest.update.strategy@
            == "remoteManifest"@ {
            r is UpdateThenLaunch
        } else {
            r is Launch
        }),
{
    if !crate::install::should_launch_after_install(manifest) {
        return AfterInstall::Nothing;
    }
    if !install_found {
        return AfterInstall::InstallNotFound;
    }
    if str_eq(manifest.update.strategy.as_str(), "remoteManifest") {
        AfterInstall::UpdateThenLaunch
    } else {
        AfterInstall::Launch
    }
}

// ---------------------------------------------------------------------------
// Launching
// ---------------------------------------------------------------------------
/// The executable a launch needs, or why the manifest cannot be launched.
pub fn launch_executable(manifest: &GameManifest) -> (r: Result<String, String>)
    ensures
        match opt_view(manifest.launch.executable) {
            Some(e) => r is Ok && r->Ok_0@ == e,
            None => r is Err && r->Err_0@ == "O manifesto de "@ + manifest.name@
                + " ainda não define launch.executable. Configure o executável antes de jogar."@,
        },
{
    match &manifest.launch.executable {
        Some(e) => Ok(copy_string(e)),
        None => {
            let mut m = owned("O manifesto de ");
            m.append(manifest.name.as_str());
            m.append(" ainda não define launch.executable. Configure o executável antes de jogar.");
            Err(m)
        },
    }
}

pub open spec fn launch_paths_error(
    manifest: GameManifest,
    install_path: Seq<char>,
    install_exists: bool,
    command_path: Seq<char>,
    command_exists: bool,
) -> Option<Seq<char>> {
    if !install_exists {
        Some(
            "A pasta registrada para "@ + manifest.name@ + " não existe mais: "@ + install_path,
        )
    } else if !command_exists && !battl_eye_replaces(manifest) {
        Some("Executável não encontrado para "@ + manifest.name@ + ": "@ + command_path)
    } else {
        None
    }
}

/// Checks the paths of a launch: the installation folder must exist, and
/// so must the executable unless BattlEye replaces the game's process.
pub fn check_launch_paths(
    manifest: &GameManifest,
    install_path: &str,
    install_exists: bool,
    command_path: &str,
    command_exists: bool,
) -> (r: Result<(), String>)
    ensures
        match launch_paths_error(*manifest, install_path@, install_exists, command_path@, command_exists) {
            Some(e) => r is Err && r->Err_0@ == e,
            None => r is Ok,
        },
{
    if !install_exists {
        let mut m = owned("A pasta registrada para ");
        m.append(manifest.name.as_str());
        m.append(" não existe mais: ");
        m.append(install_path);
        return Err(m);
    }
    if !command_exists && !battl_eye_replaces_main_process(manifest) {
        let mut m = owned("Executável não encontrado para ");
        m.append(manifest.name.as_str());
        m.append(": ");
        m.append(command_path);
        return Err(m);
    }
    Ok(())
}

/// A command with the launch environment of `manifest` applied.
pub open spec fn with_launch_env(manifest: GameManifest, c: CommandView, home: Option<Seq<char>>) -> CommandView {
    overridden(c, manifest.launch.env.deep_view(), manifest.launch.unset_env.deep_view(), home)
}

/// The command that starts the game: the BattlEye command when BattlEye
/// replaces the game's process and one was built; otherwise the runner's
/// command for the executable with the launch arguments and environment.
pub fn game_runner_command(
    manifest: &GameManifest,
    runner: &ResolvedRunner,
    command_path: &str,
    install_path: &str,
    battl_eye_command: Option<RunnerCommand>,
    home: Option<&str>,
) -> (r: Result<RunnerCommand, String>)
    ensures
        battl_eye_replaces(*manifest) && battl_eye_command is Some ==> r is Ok && r->Ok_0@
            == battl_eye_command->0@,
        !(battl_eye_replaces(*manifest) && battl_eye_command is Some) ==> match (
            r,
            built_command(
                runner.kind@,
                runner.label@,
                opt_view(runner.path),
                command_path@,
                install_path@,
                manifest.launch.args.deep_view(),
            ),
        ) {
            (Ok(c), Ok(v)) => c@ == with_launch_env(*manifest, v, opt_str(home)),
            (Err(a), Err(b)) => a@ == b,
            _ => false,
        },
{
    if battl_eye_replaces_main_process(manifest) {
        match battl_eye_command {
            Some(c) => return Ok(c),
            None => {},
        }
    }
    let mut c = build_runner_command(runner, command_path, install_path, &manifest.launch.args)?;
    apply_launch_environment(manifest, &mut c, home);
    Ok(c)
}

// ---------------------------------------------------------------------------
// BattlEye
// ---------------------------------------------------------------------------
/// The executable and working folder of the BattlEye launcher: configured
/// paths (relative to the given bases), the working folder defaulting to
/// the executable's folder, else the installation.
pub open spec fn battl_eye_paths(
    app_data_dir: Seq<char>,
    game_id: Seq<char>,
    b: BattlEyeConfig,
    runner_kind: Seq<char>,
    install_path: Seq<char>,
) -> (Seq<char>, Seq<char>) {
    let exe = configured_path(
        app_data_dir,
        game_id,
        install_path,
        b.executable@,
        opt_view(b.path_base),
        runner_kind,
    );
    let wd = match opt_view(b.working_dir) {
        Some(w) => configured_path(
            app_data_dir,
            game_id,
            install_path,
            w,
            opt_view(b.working_dir_base),
            runner_kind,
        ),
        None => match parent(exe) {
            Some(p) => p,
            None => install_path,
        },
    };
    (exe, wd)
}

fn opt_as_str(o: &Option<String>) -> (r: Option<&str>)
    ensures
        opt_str(r) == opt_view(*o),
{
    match o {
        Some(s) => Some(s.as_str()),
        None => None,
    }
}

fn working_dir_for(
    app_data_dir: &str,
    game_id: &str,
    install_path: &str,
    working_dir: &Option<String>,
    working_dir_base: &Option<String>,
    runner_kind: &str,
    executable_path: &String,
) -> (r: String)
    ensures
        r@ == match opt_view(*working_dir) {
            Some(w) => configured_path(
                app_data_dir@,
                game_id@,
                install_path@,
                w,
                opt_view(*working_dir_base),
                runner_kind@,
            ),
            None => match parent(executable_path@) {
                Some(p) => p,
                None => install_path@,
            },
        },
{
    match working_dir {
        Some(w) => configured_path_for_install(
            app_data_dir,
            game_id,
            install_path,
            w.as_str(),
            opt_as_str(working_dir_base),
            runner_kind,
        ),
        None => match path_parent(&chars_of(executable_path.as_str())) {
            Some(p) => string_of(&p),
            None => owned(install_path),
        },
    }
}

/// The executable and working folder of the BattlEye launcher, when the
/// manifest configures one.
pub fn battl_eye_launch_paths(
    app_data_dir: &str,
    game_id: &str,
    manifest: &GameManifest,
    runner_kind: &str,
    install_path: &str,
) -> (r: Option<(String, String)>)
    ensures
        match manifest.launch.battl_eye {
            None => r is None,
            Some(b) => r is Some && (r->0).0@ == battl_eye_paths(
                app_data_dir@,
                game_id@,
                b,
                runner_kind@,
                install_path@,
            ).0 && (r->0).1@ == battl_eye_paths(
                app_data_dir@,
                game_id@,
                b,
                runner_kind@,
                install_path@,
            ).1,
        },
{
    match &manifest.launch.battl_eye {
        None => None,
        Some(b) => {
            let exe = configured_path_for_install(
                app_data_dir,
                game_id,
                install_path,
                b.executable.as_str(),
                opt_as_str(&b.path_base),
                runner_kind,
            );
            let wd = working_dir_for(
                app_data_dir,
                game_id,
                install_path,
                &b.working_dir,
                &b.working_dir_base,
                runner_kind,
                &exe,
            );
            Some((exe, wd))
        },
    }
}

pub open spec fn battl_eye_missing_text(manifest: GameManifest, executable: Seq<char>) -> Seq<char> {
    "BattlEye configurado para "@ + manifest.name@ + ", mas o executável não foi encontrado: "@
        + executable
}

/// The BattlEye command: none when BattlEye is absent or disabled; when its
/// executable is missing, an error if BattlEye is required and none
/// otherwise; else the runner's command for it with `args` and the launch
/// environment.
pub fn battl_eye_runner_command(
    manifest: &GameManifest,
    runner: &ResolvedRunner,
    executable_path: &str,
    working_dir: &str,
    executable_exists: bool,
    args: &Vec<String>,
    home: Option<&str>,
) -> (r: Result<Option<RunnerCommand>, String>)
    ensures
        match manifest.launch.battl_eye {
            None => r == Ok::<Option<RunnerCommand>, String>(None),
            Some(b) => if !b.enabled {
                r == Ok::<Option<RunnerCommand>, String>(None)
            } else if !executable_exists {
                if b.required {
                    r is Err && r->Err_0@ == battl_eye_missing_text(*manifest, executable_path@)
                } else {
                    r == Ok::<Option<RunnerCommand>, String>(None)
                }
            } else {
                match (
                    r,
                    built_command(
                        runner.kind@,
                        runner.label@,
                        opt_view(runner.path),
                        executable_path@,
                        working_dir@,
                        args.deep_view(),
                    ),
                ) {
                    (Ok(Some(c)), Ok(v)) => c@ == with_launch_env(*manifest, v, opt_str(home)),
                    (Err(a), Err(m)) => a@ == m,
                    _ => false,
                }
            },
        },
{
    let b = match &manifest.launch.battl_eye {
        None => return Ok(None),
        Some(b) => b,
    };
    if !b.enabled {
        return Ok(None);
    }
    if !executable_exists {
        if b.required {
            let mut m = owned("BattlEye configurado para ");
            m.append(manifest.name.as_str());
            m.append(", mas o executável não foi encontrado: ");
            m.append(executable_path);
            return Err(m);
        }
        return Ok(None);
    }
    let mut c = build_runner_command(runner, executable_path, working_dir, args)?;
    apply_launch_environment(manifest, &mut c, home);
    Ok(Some(c))
}

/// The log lines of a BattlEye start: a start mark and its launch mode
/// (`beforeMain` when unset), under `prefix` (`battl_eye` by default), then
/// each line of the command under that prefix.
pub open spec fn battl_eye_log_lines(
    prefix: Option<Seq<char>>,
    launch_mode: Option<Seq<char>>,
    c: CommandView,
) -> Seq<Seq<char>> {
    let p = match prefix {
        Some(p) => p,
        None => "battl_eye"@,
    };
    let mode = match launch_mode {
        Some(m) => m,
        None => "beforeMain"@,
    };
    seq![p + "_start=true"@, p + "_launch_mode="@ + mode] + command_log_lines(c).map_values(
        |l: Seq<char>| p + "."@ + l,
    )
}

/// The log lines of a BattlEye start.
pub fn battl_eye_command_log(
    prefix: Option<&str>,
    launch_mode: Option<&str>,
    command: &RunnerCommand,
) -> (r: Vec<String>)
    ensures
        r.deep_view() == battl_eye_log_lines(opt_str(prefix), opt_str(launch_mode), command@),
{
    let p = match prefix {
        Some(p) => p,
        None => "battl_eye",
    };
    let mode = match launch_mode {
        Some(m) => m,
        None => "beforeMain",
    };
    let mut out: Vec<String> = Vec::new();
    let mut a = owned(p);
    a.append("_start=true");
    out.push(a);
    let mut b = owned(p);
    b.append("_launch_mode=");
    b.append(mode);
    out.push(b);
    let ghost head = out.deep_view();
    let lines = format_runner_command_for_log(command);
    let ghost lv = lines.deep_view();
    let mut i: usize = 0;
    while i < lines.len()
        invariant
            i <= lines.len(),
            lv == lines.deep_view(),
            out.deep_view() == head + lv.take(i as int).map_values(|l: Seq<char>| p@ + "."@ + l),
        decreases lines.len() - i,
    {
        let mut line = owned(p);
        line.append(".");
        line.append(lines[i].as_str());
        let ghost before = out.deep_view();
        out.push(line);
        assert(out.deep_view() =~= before.push(p@ + "."@ + lv[i as int]));
        assert(lv.take(i + 1).map_values(|l: Seq<char>| p@ + "."@ + l) =~= lv.take(
            i as int,
        ).map_values(|l: Seq<char>| p@ + "."@ + l).push(p@ + "."@ + lv[i as int]));
        i = i + 1;
    }
    assert(lv.take(lines.len() as int) =~= lv);
    out
}

/// What preparing BattlEye before a launch does.
pub enum BattlEyeInstall {
    /// Nothing: BattlEye is absent, disabled or not prepared before launch.
    Skip,
    /// Nothing, because no install arguments are configured.
    SkipNoArgs,
    /// The BattlEye executable is run with its install arguments.
    Run,
}

/// What preparing BattlEye before a launch does.
pub fn battl_eye_install_step(manifest: &GameManifest) -> (r: BattlEyeInstall)
    ensures
        match manifest.launch.battl_eye {
            None => r is Skip,
            Some(b) => if !b.enabled || !b.install_before_launch {
                r is Skip
            } else if b.install_args.len() == 0 {
                r is SkipNoArgs
            } else {
                r is Run
            },
        },
{
    match &manifest.launch.battl_eye {
        None => BattlEyeInstall::Skip,
        Some(b) => if !b.enabled || !b.install_before_launch {
            BattlEyeInstall::Skip
        } else if b.install_args.len() == 0 {
            BattlEyeInstall::SkipNoArgs
        } else {
            BattlEyeInstall::Run
        },
    }
}

// ---------------------------------------------------------------------------
// External updates
// ---------------------------------------------------------------------------
/// The executable and working folder of an external updater, or why the
/// manifest has none.
pub open spec fn updater_paths(
    app_data_dir: Seq<char>,
    game_id: Seq<char>,
    manifest: GameManifest,
    runner_kind: Seq<char>,
    install_path: Seq<char>,
) -> Result<(Seq<char>, Seq<char>), Seq<char>> {
    if manifest.update.strategy@ != "externalLauncher"@ {
        Err(manifest.name@ + " não possui atualização por launcher externo configurada."@)
    } else {
        let exe = match opt_view(manifest.update.executable) {
            Some(e) => Some(e),
            None => opt_view(manifest.launch.executable),
        };
        match exe {
            None => Err(
                "O update de "@ + manifest.name@
                    + " não define executable, e launch.executable também está vazio."@,
            ),
            Some(e) => {
                let path = configured_path(
                    app_data_dir,
                    game_id,
                    install_path,
                    e,
                    opt_view(manifest.update.path_base),
                    runner_kind,
                );
                let wd = match opt_view(manifest.update.working_dir) {
                    Some(w) => configured_path(
                        app_data_dir,
                        game_id,
                        install_path,
                        w,
                        opt_view(manifest.update.working_dir_base),
                        runner_kind,
                    ),
                    None => match parent(path) {
                        Some(p) => p,
                        None => install_path,
                    },
                };
                Ok((path, wd))
            },
        }
    }
}

/// The executable and working folder of the external updater of `manifest`.
pub fn update_launch_paths(
    app_data_dir: &str,
    game_id: &str,
    manifest: &GameManifest,
    runner_kind: &str,
    install_path: &str,
) -> (r: Result<(String, String), String>)
    ensures
        match (r, updater_paths(app_data_dir@, game_id@, *manifest, runner_kind@, install_path@)) {
            (Ok((a, b)), Ok((x, y))) => a@ == x && b@ == y,
            (Err(a), Err(b)) => a@ == b,
            _ => false,
        },
{
    if !str_eq(manifest.update.strategy.as_str(), "externalLauncher") {
        let mut e = copy_string(&manifest.name);
        e.append(" não possui atualização por launcher externo configurada.");
        return Err(e);
    }
    let exe = match &manifest.update.executable {
        Some(e) => e,
        None => match &manifest.launch.executable {
            Some(e) => e,
            None => {
                let mut m = owned("O update de ");
                m.append(manifest.name.as_str());
                m.append(" não define executable, e launch.executable também está vazio.");
                return Err(m);
            },
        },
    };
    let path = configured_path_for_install(
        app_data_dir,
        game_id,
        install_path,
        exe.as_str(),
        opt_as_str(&manifest.update.path_base),
        runner_kind,
    );
    let wd = working_dir_for(
        app_data_dir,
        game_id,
        install_path,
        &manifest.update.working_dir,
        &manifest.update.working_dir_base,
        runner_kind,
        &path,
    );
    Ok((path, wd))
}

/// The command that runs the external updater: refused when its executable
/// is missing; else the runner's command with the update arguments and the
/// launch, then update, environment.
pub fn update_runner_command(
    manifest: &GameManifest,
    runner: &ResolvedRunner,
    executable_path: &str,
    working_dir: &str,
    executable_exists: bool,
    home: Option<&str>,
) -> (r: Result<RunnerCommand, String>)
    ensures
        !executable_exists ==> r is Err && r->Err_0@ == "Updater externo não encontrado para "@
            + manifest.name@ + ": "@ + executable_path@,
        executable_exists ==> match (
            r,
            built_command(
                runner.kind@,
                runner.label@,
                opt_view(runner.path),
                executable_path@,
                working_dir@,
                manifest.update.args.deep_view(),
            ),
        ) {
            (Ok(c), Ok(v)) => c@ == overridden(
                with_launch_env(*manifest, v, opt_str(home)),
                manifest.update.env.deep_view(),
                manifest.update.unset_env.deep_view(),
                opt_str(home),
            ),
            (Err(a), Err(m)) => a@ == m,
            _ => false,
        },
{
    if !executable_exists {
        let mut m = owned("Updater externo não encontrado para ");
        m.append(manifest.name.as_str());
        m.append(": ");
        m.append(executable_path);
        return Err(m);
    }
    let mut c = build_runner_command(runner, executable_path, working_dir, &manifest.update.args)?;
    apply_update_environment(manifest, &mut c, home);
    Ok(c)
}

// ---------------------------------------------------------------------------
// Archive installs
// ---------------------------------------------------------------------------
/// Where the game's executable lies in the extracted archive, or why the
/// manifest names none.
pub fn archive_staged_executable(manifest: &GameManifest, staging_dir: &str) -> (r: Result<
    String,
    String,
>)
    ensures
        match opt_view(manifest.launch.executable) {
            Some(e) => r is Ok && r->Ok_0@ == join(staging_dir@, e),
            None => r is Err && r->Err_0@ == "O manifesto de "@ + manifest.name@
                + " não define launch.executable."@,
        },
{
    match &manifest.launch.executable {
        Some(e) => Ok(crate::install::command_path_for_install(staging_dir, e.as_str())),
        None => {
            let mut m = owned("O manifesto de ");
            m.append(manifest.name.as_str());
            m.append(" não define launch.executable.");
            Err(m)
        },
    }
}

/// What an archive of `format` is called in messages.
pub open spec fn archive_noun(format: ArchiveFormat) -> Seq<char> {
    if format == ArchiveFormat::Zip {
        "O ZIP de "@
    } else {
        "O arquivo de "@
    }
}

/// Checks that the extracted archive holds the game's executable.
pub fn check_staged_executable(
    manifest: &GameManifest,
    format: ArchiveFormat,
    staged_executable: &str,
    is_file: bool,
) -> (r: Result<(), String>)
    ensures
        is_file ==> r is Ok,
        !is_file ==> r is Err && r->Err_0@ == archive_noun(format) + manifest.name@
            + " foi extraído, mas o executável esperado não foi encontrado: "@ + staged_executable@,
{
    if is_file {
        return Ok(());
    }
    let mut m = match format {
        ArchiveFormat::Zip => owned("O ZIP de "),
        _ => owned("O arquivo de "),
    };
    m.append(manifest.name.as_str());
    m.append(" foi extraído, mas o executável esperado não foi encontrado: ");
    m.append(staged_executable);
    Err(m)
}

} // verus!
