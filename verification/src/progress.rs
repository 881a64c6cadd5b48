//! Progress of a remote update as the runner log records it.
//!
//! The update writes `key=value` lines to the game's runner log. Reading the
//! latest lines back gives the progress shown to the user: each line moves a
//! small state along, and the state after the last line is the report.
use vstd::prelude::*;
use crate::text::{
    append_chars, append_text, chars_of, copy_chars, decimal, decimal_string, eq_text,
    parse_usize, parsed_usize, split_char, split_chars, split_once, split_once_chars, string_of,
    texts, lemma_split_char_nonempty,
};

verus! {

// ---------------------------------------------------------------------------
// Stages
// ---------------------------------------------------------------------------
/// The label shown for an update stage; an unknown stage is shown as is.
pub open spec fn stage_label(stage: Seq<char>) -> Seq<char> {
    if stage == "start"@ {
        "Preparar update"@
    } else if stage == "openDatabase"@ {
        "Abrir banco local"@
    } else if stage == "loadInstall"@ {
        "Carregar instalação"@
    } else if stage == "loadLocalManifest"@ {
        "Carregar manifesto local"@
    } else if stage == "reconcileInstall"@ {
        "Reconciliar instalação"@
    } else if stage == "validateInstallPath"@ {
        "Validar pasta registrada"@
    } else if stage == "spawnBlockingTask"@ {
        "Enviar tarefa para background"@
    } else if stage == "resolveRemoteManifest"@ {
        "Resolver manifesto remoto"@
    } else if stage == "resolveTargetDir"@ {
        "Resolver pasta alvo"@
    } else if stage == "prepareTargetDir"@ {
        "Preparar pasta alvo"@
    } else if stage == "downloadRemoteManifest"@ {
        "Baixar manifesto remoto"@
    } else if stage == "decodeRemoteManifest"@ {
        "Decodificar manifesto remoto"@
    } else if stage == "buildFileList"@ {
        "Montar lista de arquivos"@
    } else if stage == "checkingFiles"@ {
        "Verificar arquivos locais"@
    } else if stage == "planUpdate"@ {
        "Planejar arquivos divergentes"@
    } else if stage == "prepareStagingDir"@ {
        "Preparar staging do update"@
    } else if stage == "downloadingFiles"@ {
        "Baixar arquivos divergentes"@
    } else if stage == "validateDownloadedFile"@ {
        "Validar arquivo baixado"@
    } else if stage == "validateStagedFiles"@ {
        "Validar staging completo"@
    } else if stage == "applyDownloadedFile"@ {
        "Aplicar arquivo baixado"@
    } else if stage == "applyStagedFiles"@ {
        "Aplicar arquivos no jogo"@
    } else if stage == "done"@ {
        "Concluído"@
    } else {
        stage
    }
}

/// The status an update is in while it is at `stage`.
pub open spec fn stage_status(stage: Seq<char>) -> Seq<char> {
    if stage == "downloadRemoteManifest"@ || stage == "decodeRemoteManifest"@ || stage
        == "buildFileList"@ {
        "manifest"@
    } else if stage == "checkingFiles"@ || stage == "planUpdate"@ {
        "checking"@
    } else if stage == "prepareStagingDir"@ || stage == "downloadingFiles"@ {
        "downloading"@
    } else if stage == "validateDownloadedFile"@ || stage == "validateStagedFiles"@ {
        "validating"@
    } else if stage == "applyDownloadedFile"@ || stage == "applyStagedFiles"@ {
        "applying"@
    } else if stage == "done"@ {
        "done"@
    } else {
        "preparing"@
    }
}

fn stage_label_chars(stage: &Vec<char>) -> (r: Vec<char>)
    ensures
        r@ == stage_label(stage@),
{
    if eq_text(stage, "start") {
        chars_of("Preparar update")
    } else if eq_text(stage, "openDatabase") {
        chars_of("Abrir banco local")
    } else if eq_text(stage, "loadInstall") {
        chars_of("Carregar instalação")
    } else if eq_text(stage, "loadLocalManifest") {
        chars_of("Carregar manifesto local")
    } else if eq_text(stage, "reconcileInstall") {
        chars_of("Reconciliar instalação")
    } else if eq_text(stage, "validateInstallPath") {
        chars_of("Validar pasta registrada")
    } else if eq_text(stage, "spawnBlockingTask") {
        chars_of("Enviar tarefa para background")
    } else if eq_text(stage, "resolveRemoteManifest") {
        chars_of("Resolver manifesto remoto")
    } else if eq_text(stage, "resolveTargetDir") {
        chars_of("Resolver pasta alvo")
    } else if eq_text(stage, "prepareTargetDir") {
        chars_of("Preparar pasta alvo")
    } else if eq_text(stage, "downloadRemoteManifest") {
        chars_of("Baixar manifesto remoto")
    } else if eq_text(stage, "decodeRemoteManifest") {
        chars_of("Decodificar manifesto remoto")
    } else if eq_text(stage, "buildFileList") {
        chars_of("Montar lista de arquivos")
    } else if eq_text(stage, "checkingFiles") {
        chars_of("Verificar arquivos locais")
    } else if eq_text(stage, "planUpdate") {
        chars_of("Planejar arquivos divergentes")
    } else if eq_text(stage, "prepareStagingDir") {
        chars_of("Preparar staging do update")
    } else if eq_text(stage, "downloadingFiles") {
        chars_of("Baixar arquivos divergentes")
    } else if eq_text(stage, "validateDownloadedFile") {
        chars_of("Validar arquivo baixado")
    } else if eq_text(stage, "validateStagedFiles") {
        chars_of("Validar staging completo")
    } else if eq_text(stage, "applyDownloadedFile") {
        chars_of("Aplicar arquivo baixado")
    } else if eq_text(stage, "applyStagedFiles") {
        chars_of("Aplicar arquivos no jogo")
    } else if eq_text(stage, "done") {
        chars_of("Concluído")
    } else {
        copy_chars(stage)
    }
}

fn stage_status_chars(stage: &Vec<char>) -> (r: Vec<char>)
    ensures
        r@ == stage_status(stage@),
{
    if eq_text(stage, "downloadRemoteManifest") || eq_text(stage, "decodeRemoteManifest")
        || eq_text(stage, "buildFileList") {
        chars_of("manifest")
    } else if eq_text(stage, "checkingFiles") || eq_text(stage, "planUpdate") {
        chars_of("checking")
    } else if eq_text(stage, "prepareStagingDir") || eq_text(stage, "downloadingFiles") {
        chars_of("downloading")
    } else if eq_text(stage, "validateDownloadedFile") || eq_text(stage, "validateStagedFiles") {
        chars_of("validating")
    } else if eq_text(stage, "applyDownloadedFile") || eq_text(stage, "applyStagedFiles") {
        chars_of("applying")
    } else if eq_text(stage, "done") {
        chars_of("done")
    } else {
        chars_of("preparing")
    }
}

/// The label shown for an update stage.
pub fn update_stage_label_from_stage(stage: &str) -> (r: String)
    ensures
        r@ == stage_label(stage@),
{
    let s = chars_of(stage);
    string_of(&stage_label_chars(&s))
}

/// The status an update is in at `stage`.
pub fn update_status_from_stage(stage: &str) -> (r: String)
    ensures
        r@ == stage_status(stage@),
{
    let s = chars_of(stage);
    string_of(&stage_status_chars(&s))
}

// ---------------------------------------------------------------------------
// Messages
// ---------------------------------------------------------------------------
/// The message shown for a progress read back from the log.
pub open spec fn progress_message(
    status: Seq<char>,
    stage_label: Seq<char>,
    checked: usize,
    total: usize,
    current_file: Option<Seq<char>>,
) -> Seq<char> {
    if status == "done"@ {
        "Update concluído."@
    } else if status == "downloading"@ {
        match current_file {
            Some(f) => "Baixando "@ + f,
            None => "Baixando arquivos divergentes..."@,
        }
    } else if status == "validating"@ {
        match current_file {
            Some(f) => "Validando "@ + f,
            None => "Validando staging do update..."@,
        }
    } else if status == "applying"@ {
        match current_file {
            Some(f) => "Aplicando "@ + f,
            None => "Aplicando arquivos no jogo..."@,
        }
    } else if status == "checking"@ && total > 0 {
        "Verificando "@ + decimal(checked as nat) + " de "@ + decimal(total as nat)
            + " arquivos..."@
    } else {
        stage_label + "..."@
    }
}

fn file_message(prefix: &str, current_file: &Option<Vec<char>>, otherwise: &str) -> (r: Vec<char>)
    ensures
        r@ == match current_file {
            Some(f) => prefix@ + f@,
            None => otherwise@,
        },
{
    match current_file {
        Some(f) => {
            let mut r = chars_of(prefix);
            append_chars(&mut r, f);
            r
        },
        None => chars_of(otherwise),
    }
}

fn progress_message_chars(
    status: &Vec<char>,
    stage_label: &Vec<char>,
    checked: usize,
    total: usize,
    current_file: &Option<Vec<char>>,
) -> (r: Vec<char>)
    ensures
        r@ == progress_message(
            status@,
            stage_label@,
            checked,
            total,
            match current_file {
                Some(f) => Some(f@),
                None => None,
            },
        ),
{
    if eq_text(status, "done") {
        chars_of("Update concluído.")
    } else if eq_text(status, "downloading") {
        file_message("Baixando ", current_file, "Baixando arquivos divergentes...")
    } else if eq_text(status, "validating") {
        file_message("Validando ", current_file, "Validando staging do update...")
    } else if eq_text(status, "applying") {
        file_message("Aplicando ", current_file, "Aplicando arquivos no jogo...")
    } else if eq_text(status, "checking") && total > 0 {
        let mut r = chars_of("Verificando ");
        let c = decimal_string(checked as u64);
        append_text(&mut r, c.as_str());
        append_text(&mut r, " de ");
        let t = decimal_string(total as u64);
        append_text(&mut r, t.as_str());
        append_text(&mut r, " arquivos...");
        r
    } else {
        let mut r = copy_chars(stage_label);
        append_text(&mut r, "...");
        r
    }
}

/// The message shown for a progress read back from the log.
pub fn progress_message_from_log(
    status: &str,
    stage_label: &str,
    checked: usize,
    total: usize,
    current_file: Option<&str>,
) -> (r: String)
    ensures
        r@ == progress_message(
            status@,
            stage_label@,
            checked,
            total,
            match current_file {
                Some(f) => Some(f@),
                None => None,
            },
        ),
{
    let s = chars_of(status);
    let l = chars_of(stage_label);
    let f = match current_file {
        Some(f) => Some(chars_of(f)),
        None => None,
    };
    string_of(&progress_message_chars(&s, &l, checked, total, &f))
}

// ---------------------------------------------------------------------------
// Reading the log
// ---------------------------------------------------------------------------
/// A line without its one trailing carriage return.
pub open spec fn strip_cr(s: Seq<char>) -> Seq<char> {
    if s.len() > 0 && s.last() == '\r' {
        s.drop_last()
    } else {
        s
    }
}

/// The lines of a text (`str::lines`): split at `\n`, a `\r` before the
/// `\n` dropped, and no empty line after a final `\n`.
pub open spec fn lines_of(text: Seq<char>) -> Seq<Seq<char>> {
    let ps = split_char(text, '\n');
    let init = ps.drop_last().map_values(|p: Seq<char>| strip_cr(p));
    if ps.last().len() == 0 {
        init
    } else {
        init.push(ps.last())
    }
}

/// What the log says so far of the latest remote update.
pub struct LogProgress {
    pub found: bool,
    pub status: Seq<char>,
    pub stage: Seq<char>,
    pub stage_label: Seq<char>,
    pub checked: usize,
    pub updated: usize,
    pub total: usize,
    pub current_file: Option<Seq<char>>,
    pub target_dir: Option<Seq<char>>,
    pub error: Option<Seq<char>>,
}

/// The state before any line.
pub open spec fn initial_progress() -> LogProgress {
    LogProgress {
        found: false,
        status: "preparing"@,
        stage: "start"@,
        stage_label: "Preparar update"@,
        checked: 0,
        updated: 0,
        total: 0,
        current_file: None,
        target_dir: None,
        error: None,
    }
}

/// A count read from a value: the number when it parses, else the old count.
pub open spec fn count_or(value: Seq<char>, old_count: usize) -> usize {
    match parsed_usize(value) {
        Some(n) => n,
        None => old_count,
    }
}

/// The state after a `key=value` line.
pub open spec fn keyed_step(st: LogProgress, key: Seq<char>, value: Seq<char>) -> LogProgress {
    if key == "action"@ && value == "run_game_remote_update"@ {
        LogProgress { found: true, ..initial_progress() }
    } else if key == "remote_update_stage"@ {
        LogProgress {
            found: true,
            stage: value,
            stage_label: stage_label(value),
            status: stage_status(value),
            ..st
        }
    } else if key == "remote_update_stage_label"@ {
        LogProgress { stage_label: value, ..st }
    } else if key == "remote_update_progress"@ {
        if value == "checking"@ {
            LogProgress {
                found: true,
                status: value,
                stage: "checkingFiles"@,
                stage_label: stage_label("checkingFiles"@),
                ..st
            }
        } else if value == "downloading"@ {
            LogProgress {
                found: true,
                status: value,
                stage: "downloadingFiles"@,
                stage_label: stage_label("downloadingFiles"@),
                ..st
            }
        } else if value == "validating"@ {
            LogProgress {
                found: true,
                status: value,
                stage: "validateStagedFiles"@,
                stage_label: stage_label("validateStagedFiles"@),
                ..st
            }
        } else if value == "applying"@ {
            LogProgress {
                found: true,
                status: value,
                stage: "applyStagedFiles"@,
                stage_label: stage_label("applyStagedFiles"@),
                ..st
            }
        } else {
            LogProgress { found: true, status: value, ..st }
        }
    } else if key == "remote_update_finished"@ && value == "true"@ {
        LogProgress {
            found: true,
            status: "done"@,
            stage: "done"@,
            stage_label: stage_label("done"@),
            ..st
        }
    } else if key == "checked_files"@ {
        LogProgress { checked: count_or(value, st.checked), ..st }
    } else if key == "updated_files"@ {
        LogProgress { updated: count_or(value, st.updated), ..st }
    } else if key == "total_files"@ || key == "remote_file_count"@ {
        LogProgress { total: count_or(value, st.total), ..st }
    } else if key == "current_file"@ {
        LogProgress { current_file: Some(value), ..st }
    } else if key == "update_target_dir"@ {
        LogProgress { target_dir: Some(value), ..st }
    } else if key == "error"@ {
        LogProgress { error: Some(value), status: "error"@, ..st }
    } else {
        st
    }
}

/// The state after one line; a line without `=` changes nothing.
pub open spec fn log_step(st: LogProgress, line: Seq<char>) -> LogProgress {
    match split_once(line, '=') {
        Some((key, value)) => keyed_step(st, key, value),
        None => st,
    }
}

/// The state after all of `lines`, in order.
pub open spec fn progress_after(lines: Seq<Seq<char>>) -> LogProgress
    decreases lines.len(),
{
    if lines.len() == 0 {
        initial_progress()
    } else {
        log_step(progress_after(lines.drop_last()), lines.last())
    }
}

/// The log line that opens a remote update.
pub open spec fn update_start_line() -> Seq<char> {
    "action=run_game_remote_update"@
}

proof fn lemma_update_start_step(st: LogProgress)
    ensures
        log_step(st, update_start_line()) == (LogProgress { found: true, ..initial_progress() }),
{
    let line = update_start_line();
    reveal_strlit("action=run_game_remote_update");
    reveal_strlit("action");
    reveal_strlit("run_game_remote_update");
    assert(line[6] == '=');
    assert forall|k: int| 0 <= k < 6 implies line[k] != '=' by {}
    crate::text::lemma_before_first(line, '=', 6);
    assert(line.take(6) =~= "action"@);
    assert(line.skip(7) =~= "run_game_remote_update"@);
}

proof fn lemma_label_checking()
    ensures
        stage_label("checkingFiles"@) == "Verificar arquivos locais"@,
{
    reveal_strlit("checkingFiles");
    reveal_strlit("Verificar arquivos locais");
    reveal_strlit("start");
    assert("checkingFiles"@.len() != "start"@.len());
    reveal_strlit("openDatabase");
    assert("checkingFiles"@.len() != "openDatabase"@.len());
    reveal_strlit("loadInstall");
    assert("checkingFiles"@.len() != "loadInstall"@.len());
    reveal_strlit("loadLocalManifest");
    assert("checkingFiles"@.len() != "loadLocalManifest"@.len());
    reveal_strlit("reconcileInstall");
    assert("checkingFiles"@.len() != "reconcileInstall"@.len());
    reveal_strlit("validateInstallPath");
    assert("checkingFiles"@.len() != "validateInstallPath"@.len());
    reveal_strlit("spawnBlockingTask");
    assert("checkingFiles"@.len() != "spawnBlockingTask"@.len());
    reveal_strlit("resolveRemoteManifest");
    assert("checkingFiles"@.len() != "resolveRemoteManifest"@.len());
    reveal_strlit("resolveTargetDir");
    assert("checkingFiles"@.len() != "resolveTargetDir"@.len());
    reveal_strlit("prepareTargetDir");
    assert("checkingFiles"@.len() != "prepareTargetDir"@.len());
    reveal_strlit("downloadRemoteManifest");
    assert("checkingFiles"@.len() != "downloadRemoteManifest"@.len());
    reveal_strlit("decodeRemoteManifest");
    assert("checkingFiles"@.len() != "decodeRemoteManifest"@.len());
    reveal_strlit("buildFileList");
    assert("checkingFiles"@[0] != "buildFileList"@[0]);
}

proof fn lemma_label_downloading()
    ensures
        stage_label("downloadingFiles"@) == "Baixar arquivos divergentes"@,
{
    reveal_strlit("downloadingFiles");
    reveal_strlit("Baixar arquivos divergentes");
    reveal_strlit("start");
    assert("downloadingFiles"@.len() != "start"@.len());
    reveal_strlit("openDatabase");
    assert("downloadingFiles"@.len() != "openDatabase"@.len());
    reveal_strlit("loadInstall");
    assert("downloadingFiles"@.len() != "loadInstall"@.len());
    reveal_strlit("loadLocalManifest");
    assert("downloadingFiles"@.len() != "loadLocalManifest"@.len());
    reveal_strlit("reconcileInstall");
    assert("downloadingFiles"@[0] != "reconcileInstall"@[0]);
    reveal_strlit("validateInstallPath");
    assert("downloadingFiles"@.len() != "validateInstallPath"@.len());
    reveal_strlit("spawnBlockingTask");
    assert("downloadingFiles"@.len() != "spawnBlockingTask"@.len());
    reveal_strlit("resolveRemoteManifest");
    assert("downloadingFiles"@.len() != "resolveRemoteManifest"@.len());
    reveal_strlit("resolveTargetDir");
    assert("downloadingFiles"@[0] != "resolveTargetDir"@[0]);
    reveal_strlit("prepareTargetDir");
    assert("downloadingFiles"@[0] != "prepareTargetDir"@[0]);
    reveal_strlit("downloadRemoteManifest");
    assert("downloadingFiles"@.len() != "downloadRemoteManifest"@.len());
    reveal_strlit("decodeRemoteManifest");
    assert("downloadingFiles"@.len() != "decodeRemoteManifest"@.len());
    reveal_strlit("buildFileList");
    assert("downloadingFiles"@.len() != "buildFileList"@.len());
    reveal_strlit("checkingFiles");
    assert("downloadingFiles"@.len() != "checkingFiles"@.len());
    reveal_strlit("planUpdate");
    assert("downloadingFiles"@.len() != "planUpdate"@.len());
    reveal_strlit("prepareStagingDir");
    assert("downloadingFiles"@.len() != "prepareStagingDir"@.len());
}

proof fn lemma_label_validating()
    ensures
        stage_label("validateStagedFiles"@) == "Validar staging completo"@,
{
    reveal_strlit("validateStagedFiles");
    reveal_strlit("Validar staging completo");
    reveal_strlit("start");
    assert("validateStagedFiles"@.len() != "start"@.len());
    reveal_strlit("openDatabase");
    assert("validateStagedFiles"@.len() != "openDatabase"@.len());
    reveal_strlit("loadInstall");
    assert("validateStagedFiles"@.len() != "loadInstall"@.len());
    reveal_strlit("loadLocalManifest");
    assert("validateStagedFiles"@.len() != "loadLocalManifest"@.len());
    reveal_strlit("reconcileInstall");
    assert("validateStagedFiles"@.len() != "reconcileInstall"@.len());
    reveal_strlit("validateInstallPath");
    assert("validateStagedFiles"@[8] != "validateInstallPath"@[8]);
    reveal_strlit("spawnBlockingTask");
    assert("validateStagedFiles"@.len() != "spawnBlockingTask"@.len());
    reveal_strlit("resolveRemoteManifest");
    assert("validateStagedFiles"@.len() != "resolveRemoteManifest"@.len());
    reveal_strlit("resolveTargetDir");
    assert("validateStagedFiles"@.len() != "resolveTargetDir"@.len());
    reveal_strlit("prepareTargetDir");
    assert("validateStagedFiles"@.len() != "prepareTargetDir"@.len());
    reveal_strlit("downloadRemoteManifest");
    assert("validateStagedFiles"@.len() != "downloadRemoteManifest"@.len());
    reveal_strlit("decodeRemoteManifest");
    assert("validateStagedFiles"@.len() != "decodeRemoteManifest"@.len());
    reveal_strlit("buildFileList");
    assert("validateStagedFiles"@.len() != "buildFileList"@.len());
    reveal_strlit("checkingFiles");
    assert("validateStagedFiles"@.len() != "checkingFiles"@.len());
    reveal_strlit("planUpdate");
    assert("validateStagedFiles"@.len() != "planUpdate"@.len());
    reveal_strlit("prepareStagingDir");
    assert("validateStagedFiles"@.len() != "prepareStagingDir"@.len());
    reveal_strlit("downloadingFiles");
    assert("validateStagedFiles"@.len() != "downloadingFiles"@.len());
    reveal_strlit("validateDownloadedFile");
    assert("validateStagedFiles"@.len() != "validateDownloadedFile"@.len());
}

proof fn lemma_label_applying()
    ensures
        stage_label("applyStagedFiles"@) == "Aplicar arquivos no jogo"@,
{
    reveal_strlit("applyStagedFiles");
    reveal_strlit("Aplicar arquivos no jogo");
    reveal_strlit("start");
    assert("applyStagedFiles"@.len() != "start"@.len());
    reveal_strlit("openDatabase");
    assert("applyStagedFiles"@.len() != "openDatabase"@.len());
    reveal_strlit("loadInstall");
    assert("applyStagedFiles"@.len() != "loadInstall"@.len());
    reveal_strlit("loadLocalManifest");
    assert("applyStagedFiles"@.len() != "loadLocalManifest"@.len());
    reveal_strlit("reconcileInstall");
    assert("applyStagedFiles"@[0] != "reconcileInstall"@[0]);
    reveal_strlit("validateInstallPath");
    assert("applyStagedFiles"@.len() != "validateInstallPath"@.len());
    reveal_strlit("spawnBlockingTask");
    assert("applyStagedFiles"@.len() != "spawnBlockingTask"@.len());
    reveal_strlit("resolveRemoteManifest");
    assert("applyStagedFiles"@.len() != "resolveRemoteManifest"@.len());
    reveal_strlit("resolveTargetDir");
    assert("applyStagedFiles"@[0] != "resolveTargetDir"@[0]);
    reveal_strlit("prepareTargetDir");
    assert("applyStagedFiles"@[0] != "prepareTargetDir"@[0]);
    reveal_strlit("downloadRemoteManifest");
    assert("applyStagedFiles"@.len() != "downloadRemoteManifest"@.len());
    reveal_strlit("decodeRemoteManifest");
    assert("applyStagedFiles"@.len() != "decodeRemoteManifest"@.len());
    reveal_strlit("buildFileList");
    assert("applyStagedFiles"@.len() != "buildFileList"@.len());
    reveal_strlit("checkingFiles");
    assert("applyStagedFiles"@.len() != "checkingFiles"@.len());
    reveal_strlit("planUpdate");
    assert("applyStagedFiles"@.len() != "planUpdate"@.len());
    reveal_strlit("prepareStagingDir");
    assert("applyStagedFiles"@.len() != "prepareStagingDir"@.len());
    reveal_strlit("downloadingFiles");
    assert("applyStagedFiles"@[0] != "downloadingFiles"@[0]);
    reveal_strlit("validateDownloadedFile");
    assert("applyStagedFiles"@.len() != "validateDownloadedFile"@.len());
    reveal_strlit("validateStagedFiles");
    assert("applyStagedFiles"@.len() != "validateStagedFiles"@.len());
    reveal_strlit("applyDownloadedFile");
    assert("applyStagedFiles"@.len() != "applyDownloadedFile"@.len());
}

proof fn lemma_working_stage_labels()
    ensures
        stage_label("checkingFiles"@) == "Verificar arquivos locais"@,
        stage_label("downloadingFiles"@) == "Baixar arquivos divergentes"@,
        stage_label("validateStagedFiles"@) == "Validar staging completo"@,
        stage_label("applyStagedFiles"@) == "Aplicar arquivos no jogo"@,
{
    lemma_label_checking();
    lemma_label_downloading();
    lemma_label_validating();
    lemma_label_applying();
}

/// After a `remote_update_progress` line for one of the working statuses of
/// an update, the progress read from the log is that status, the stage it
/// belongs to (`checking` → checking the files, `downloading` → downloading
/// them, `validating` → validating the staging, `applying` → applying the
/// staged files) and that stage's label, whatever the log said before.
pub proof fn lemma_progress_line_sets_stage(
    before: Seq<Seq<char>>,
    value: Seq<char>,
    stage: Seq<char>,
    label: Seq<char>,
)
    requires
        (value == "checking"@ && stage == "checkingFiles"@ && label == "Verificar arquivos locais"@)
            || (value == "downloading"@ && stage == "downloadingFiles"@ && label
            == "Baixar arquivos divergentes"@) || (value == "validating"@ && stage
            == "validateStagedFiles"@ && label == "Validar staging completo"@) || (value
            == "applying"@ && stage == "applyStagedFiles"@ && label == "Aplicar arquivos no jogo"@),
    ensures
        progress_after(before.push("remote_update_progress="@ + value)).found,
        progress_after(before.push("remote_update_progress="@ + value)).status == value,
        progress_after(before.push("remote_update_progress="@ + value)).stage == stage,
        progress_after(before.push("remote_update_progress="@ + value)).stage_label == label,
{
    reveal_strlit("remote_update_progress=");
    reveal_strlit("remote_update_progress");
    reveal_strlit("action");
    reveal_strlit("remote_update_stage");
    reveal_strlit("remote_update_stage_label");
    reveal_strlit("checking");
    reveal_strlit("downloading");
    reveal_strlit("validating");
    reveal_strlit("applying");
    let key = "remote_update_progress"@;
    let line = "remote_update_progress="@ + value;
    assert(line.len() == 23 + value.len());
    assert(line[22] == '=');
    assert forall|k: int| 0 <= k < 22 implies line[k] != '=' by {
        assert(line[k] == key[k]);
    }
    crate::text::lemma_before_first(line, '=', 22);
    assert(line.take(22) =~= key);
    assert(line.skip(23) =~= value);
    assert(split_once(line, '=') == Some((key, value)));
    assert(before.push(line).drop_last() =~= before);
    assert(progress_after(before.push(line)) == log_step(progress_after(before), line));
    lemma_working_stage_labels();
}

/// A new remote update starts afresh: what the log says after its opening
/// line does not depend on anything written before that line.
pub proof fn lemma_new_update_forgets_earlier_lines(before: Seq<Seq<char>>, after: Seq<Seq<char>>)
    ensures
        progress_after(before + seq![update_start_line()] + after) == progress_after(
            seq![update_start_line()] + after,
        ),
    decreases after.len(),
{
    if after.len() == 0 {
        assert(before + seq![update_start_line()] + after =~= before.push(update_start_line()));
        assert(seq![update_start_line()] + after =~= Seq::<Seq<char>>::empty().push(update_start_line()));
        assert(before.push(update_start_line()).drop_last() =~= before);
        assert(Seq::<Seq<char>>::empty().push(update_start_line()).drop_last() =~= Seq::<Seq<char>>::empty());
        lemma_update_start_step(progress_after(before));
        lemma_update_start_step(initial_progress());
        let l = update_start_line();
        assert(progress_after(before.push(l)) == log_step(progress_after(before), l));
        assert(progress_after(Seq::<Seq<char>>::empty()) == initial_progress());
        assert(progress_after(Seq::<Seq<char>>::empty().push(l)) == log_step(
            progress_after(Seq::<Seq<char>>::empty()),
            l,
        ));
    } else {
        let init = after.drop_last();
        lemma_new_update_forgets_earlier_lines(before, init);
        let x = before + seq![update_start_line()] + after;
        let y = seq![update_start_line()] + after;
        assert(x.drop_last() =~= before + seq![update_start_line()] + init);
        assert(y.drop_last() =~= seq![update_start_line()] + init);
        assert(x.last() == after.last());
        assert(y.last() == after.last());
        assert(progress_after(x) == log_step(progress_after(x.drop_last()), x.last()));
        assert(progress_after(y) == log_step(progress_after(y.drop_last()), y.last()));
    }
}

/// The progress of a game's remote update, as the user sees it.
#[derive(Clone, Debug)]
pub struct GameUpdateProgress {
    pub game_id: String,
    pub status: String,
    pub stage: Option<String>,
    pub stage_label: Option<String>,
    pub checked_files: usize,
    pub updated_files: usize,
    pub total_files: usize,
    pub current_file: Option<String>,
    pub message: String,
    pub target_dir: Option<String>,
    pub log_path: Option<String>,
    pub error: Option<String>,
}

/// A progress report as values.
pub struct ProgressReport {
    pub game_id: Seq<char>,
    pub status: Seq<char>,
    pub stage: Option<Seq<char>>,
    pub stage_label: Option<Seq<char>>,
    pub checked_files: usize,
    pub updated_files: usize,
    pub total_files: usize,
    pub current_file: Option<Seq<char>>,
    pub message: Seq<char>,
    pub target_dir: Option<Seq<char>>,
    pub log_path: Option<Seq<char>>,
    pub error: Option<Seq<char>>,
}

impl View for GameUpdateProgress {
    type V = ProgressReport;

    open spec fn view(&self) -> ProgressReport {
        ProgressReport {
            game_id: self.game_id@,
            status: self.status@,
            stage: crate::manifest::opt_view(self.stage),
            stage_label: crate::manifest::opt_view(self.stage_label),
            checked_files: self.checked_files,
            updated_files: self.updated_files,
            total_files: self.total_files,
            current_file: crate::manifest::opt_view(self.current_file),
            message: self.message@,
            target_dir: crate::manifest::opt_view(self.target_dir),
            log_path: crate::manifest::opt_view(self.log_path),
            error: crate::manifest::opt_view(self.error),
        }
    }
}

/// The report of a state read from the log at `log_path`.
pub open spec fn report_of(game_id: Seq<char>, log_path: Seq<char>, m: LogProgress) -> ProgressReport {
    ProgressReport {
        game_id: game_id,
        status: m.status,
        stage: Some(m.stage),
        stage_label: Some(m.stage_label),
        checked_files: m.checked,
        updated_files: m.updated,
        total_files: m.total,
        current_file: m.current_file,
        message: progress_message(m.status, m.stage_label, m.checked, m.total, m.current_file),
        target_dir: m.target_dir,
        log_path: Some(log_path),
        error: m.error,
    }
}

struct LogState {
    found: bool,
    status: Vec<char>,
    stage: Vec<char>,
    stage_label: Vec<char>,
    checked: usize,
    updated: usize,
    total: usize,
    current_file: Option<Vec<char>>,
    target_dir: Option<Vec<char>>,
    error: Option<Vec<char>>,
}

spec fn opt_chars(o: Option<Vec<char>>) -> Option<Seq<char>> {
    match o {
        Some(v) => Some(v@),
        None => None,
    }
}

impl View for LogState {
    type V = LogProgress;

    closed spec fn view(&self) -> LogProgress {
        LogProgress {
            found: self.found,
            status: self.status@,
            stage: self.stage@,
            stage_label: self.stage_label@,
            checked: self.checked,
            updated: self.updated,
            total: self.total,
            current_file: opt_chars(self.current_file),
            target_dir: opt_chars(self.target_dir),
            error: opt_chars(self.error),
        }
    }
}

fn initial_state() -> (r: LogState)
    ensures
        r@ == initial_progress(),
{
    LogState {
        found: false,
        status: chars_of("preparing"),
        stage: chars_of("start"),
        stage_label: chars_of("Preparar update"),
        checked: 0,
        updated: 0,
        total: 0,
        current_file: None,
        target_dir: None,
        error: None,
    }
}

fn count_from(value: &Vec<char>, old_count: usize) -> (r: usize)
    ensures
        r == count_or(value@, old_count),
{
    match parse_usize(value) {
        Some(n) => n,
        None => old_count,
    }
}

fn progress_stage(st: &mut LogState, stage: &str)
    ensures
        final(st)@ == (LogProgress {
            stage: stage@,
            stage_label: stage_label(stage@),
            ..old(st)@
        }),
{
    let s = chars_of(stage);
    st.stage_label = stage_label_chars(&s);
    st.stage = s;
}

fn apply_keyed(st: &mut LogState, key: &Vec<char>, value: &Vec<char>)
    ensures
        final(st)@ == keyed_step(old(st)@, key@, value@),
{
    if eq_text(key, "action") && eq_text(value, "run_game_remote_update") {
        *st = initial_state();
        st.found = true;
    } else if eq_text(key, "remote_update_stage") {
        st.found = true;
        st.stage = copy_chars(value);
        st.stage_label = stage_label_chars(value);
        st.status = stage_status_chars(value);
    } else if eq_text(key, "remote_update_stage_label") {
        st.stage_label = copy_chars(value);
    } else if eq_text(key, "remote_update_progress") {
        st.found = true;
        st.status = copy_chars(value);
        if eq_text(value, "checking") {
            progress_stage(st, "checkingFiles");
        } else if eq_text(value, "downloading") {
            progress_stage(st, "downloadingFiles");
        } else if eq_text(value, "validating") {
            progress_stage(st, "validateStagedFiles");
        } else if eq_text(value, "applying") {
            progress_stage(st, "applyStagedFiles");
        }
    } else if eq_text(key, "remote_update_finished") && eq_text(value, "true") {
        st.found = true;
        st.status = chars_of("done");
        progress_stage(st, "done");
    } else if eq_text(key, "checked_files") {
        st.checked = count_from(value, st.checked);
    } else if eq_text(key, "updated_files") {
        st.updated = count_from(value, st.updated);
    } else if eq_text(key, "total_files") || eq_text(key, "remote_file_count") {
        st.total = count_from(value, st.total);
    } else if eq_text(key, "current_file") {
        st.current_file = Some(copy_chars(value));
    } else if eq_text(key, "update_target_dir") {
        st.target_dir = Some(copy_chars(value));
    } else if eq_text(key, "error") {
        st.error = Some(copy_chars(value));
        st.status = chars_of("error");
    }
}

fn apply_line(st: &mut LogState, line: &Vec<char>)
    ensures
        final(st)@ == log_step(old(st)@, line@),
{
    match split_once_chars(line, '=') {
        Some((key, value)) => apply_keyed(st, &key, &value),
        None => {},
    }
}

fn strip_cr_chars(s: &Vec<char>) -> (r: Vec<char>)
    ensures
        r@ == strip_cr(s@),
{
    let mut r = copy_chars(s);
    if r.len() > 0 && r[r.len() - 1] == '\r' {
        r.pop();
    }
    r
}

/// The lines of `text`.
fn text_lines(text: &Vec<char>) -> (r: Vec<Vec<char>>)
    ensures
        texts(r@) == lines_of(text@),
{
    let ps = split_chars(text, '\n');
    proof {
        lemma_split_char_nonempty(text@, '\n');
    }
    let ghost pv = texts(ps@);
    let n = ps.len();
    let mut out: Vec<Vec<char>> = Vec::new();
    let mut i: usize = 0;
    while i + 1 < n
        invariant
            n == ps.len(),
            n >= 1,
            i + 1 <= n,
            pv == texts(ps@),
            pv == split_char(text@, '\n'),
            texts(out@) == pv.take(i as int).map_values(|p: Seq<char>| strip_cr(p)),
        decreases n - i,
    {
        let ghost before = texts(out@);
        out.push(strip_cr_chars(&ps[i]));
        assert(pv[i as int] == ps@[i as int]@);
        assert(texts(out@) =~= before.push(strip_cr(pv[i as int])));
        assert(pv.take(i + 1).map_values(|p: Seq<char>| strip_cr(p)) =~= pv.take(i as int).map_values(
            |p: Seq<char>| strip_cr(p),
        ).push(strip_cr(pv[i as int])));
        i = i + 1;
    }
    assert(pv.take(i as int) =~= pv.drop_last());
    assert(pv.last() == ps@[n - 1]@);
    if ps[n - 1].len() > 0 {
        let ghost before = texts(out@);
        out.push(copy_chars(&ps[n - 1]));
        assert(texts(out@) =~= before.push(pv.last()));
    }
    out
}

/// The progress of the latest remote update recorded in `log_text`, the
/// text of the log at `log_path`; none when the text records no remote update.
pub fn parse_latest_update_progress_from_log(game_id: &str, log_path: &str, log_text: &str) -> (r:
    Option<GameUpdateProgress>)
    ensures
        match r {
            None => !progress_after(lines_of(log_text@)).found,
            Some(p) => progress_after(lines_of(log_text@)).found && p@ == report_of(
                game_id@,
                log_path@,
                progress_after(lines_of(log_text@)),
            ),
        },
{
    let t = chars_of(log_text);
    let lines = text_lines(&t);
    let ghost lv = texts(lines@);
    let mut st = initial_state();
    let mut i: usize = 0;
    assert(lv.take(0) =~= Seq::<Seq<char>>::empty());
    while i < lines.len()
        invariant
            i <= lines.len(),
            lv == texts(lines@),
            st@ == progress_after(lv.take(i as int)),
        decreases lines.len() - i,
    {
        assert(lv.take(i + 1).drop_last() =~= lv.take(i as int));
        assert(lv.take(i + 1).last() == lines@[i as int]@);
        apply_line(&mut st, &lines[i]);
        i = i + 1;
    }
    assert(lv.take(lines.len() as int) =~= lv);
    if !st.found {
        return None;
    }
    let message = progress_message_chars(
        &st.status,
        &st.stage_label,
        st.checked,
        st.total,
        &st.current_file,
    );
    Some(
        GameUpdateProgress {
            game_id: game_id.to_string(),
            status: string_of(&st.status),
            stage: Some(string_of(&st.stage)),
            stage_label: Some(string_of(&st.stage_label)),
            checked_files: st.checked,
            updated_files: st.updated,
            total_files: st.total,
            current_file: match &st.current_file {
                Some(f) => Some(string_of(f)),
                None => None,
            },
            message: string_of(&message),
            target_dir: match &st.target_dir {
                Some(f) => Some(string_of(f)),
                None => None,
            },
            log_path: Some(log_path.to_string()),
            error: match &st.error {
                Some(f) => Some(string_of(f)),
                None => None,
            },
        },
    )
}

} // verus!
