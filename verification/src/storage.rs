//! The rules of the local database that do not need the database itself:
//! which migrations a schema needs, and what a play session records.
use vstd::prelude::*;
use crate::text::{chars_of, decimal, decimal_string, owned, string_of, trim, trim_chars};

verus! {

/// The schema version this launcher writes.
pub const CURRENT_SCHEMA_VERSION: i64 = 4;

/// The migrations that bring a database at `version` to the current schema,
/// in order; a database newer than the launcher is refused.
pub fn pending_migrations(version: i64) -> (r: Result<Vec<i64>, String>)
    ensures
        version > CURRENT_SCHEMA_VERSION ==> r is Err && r->Err_0@ == "O banco usa schema "@
            + decimal(version as nat) + ", mais novo que o suportado (4)."@,
        version <= CURRENT_SCHEMA_VERSION ==> r is Ok && forall|v: i64|
            #[trigger] r->Ok_0@.contains(v) <==> (version < v && 1 <= v <= CURRENT_SCHEMA_VERSION),
        version <= CURRENT_SCHEMA_VERSION ==> forall|i: int, j: int|
            0 <= i < j < r->Ok_0@.len() ==> #[trigger] r->Ok_0@[i] < #[trigger] r->Ok_0@[j],
{
    if version > CURRENT_SCHEMA_VERSION {
        let mut m = owned("O banco usa schema ");
        let n = decimal_string(version as u64);
        m.append(n.as_str());
        m.append(", mais novo que o suportado (4).");
        return Err(m);
    }
    let mut r: Vec<i64> = Vec::new();
    let mut v: i64 = 1;
    while v <= CURRENT_SCHEMA_VERSION
        invariant
            1 <= v <= CURRENT_SCHEMA_VERSION + 1,
            version <= CURRENT_SCHEMA_VERSION,
            forall|w: i64| #[trigger] r@.contains(w) <==> (version < w && 1 <= w < v),
            forall|i: int, j: int| 0 <= i < j < r@.len() ==> #[trigger] r@[i] < #[trigger] r@[j],
            forall|i: int| 0 <= i < r@.len() ==> #[trigger] r@[i] < v,
        decreases CURRENT_SCHEMA_VERSION + 1 - v,
    {
        if v > version {
            let ghost before = r@;
            r.push(v);
            assert forall|w: i64| #[trigger] r@.contains(w) <==> (version < w && 1 <= w < v + 1) by {
                crate::text::lemma_push_contains(before, v, w);
            }
        } else {
            assert forall|w: i64| #[trigger] r@.contains(w) <==> (version < w && 1 <= w < v + 1) by {
            }
        }
        v = v + 1;
    }
    Ok(r)
}

/// The game a new play session belongs to: the id trimmed, refused when
/// nothing is left.
pub fn session_game_id(game_id: &str) -> (r: Result<String, String>)
    ensures
        trim(game_id@).len() > 0 ==> r is Ok && r->Ok_0@ == trim(game_id@),
        trim(game_id@).len() == 0 ==> r is Err && r->Err_0@
            == "ID do jogo não pode ser vazio ao iniciar uma sessão."@,
{
    let t = trim_chars(&chars_of(game_id));
    if t.len() == 0 {
        return Err(owned("ID do jogo não pode ser vazio ao iniciar uma sessão."));
    }
    Ok(string_of(&t))
}

/// The duration stored for a session: never negative.
pub fn stored_duration(duration_seconds: i64) -> (r: i64)
    ensures
        r == if duration_seconds < 0 { 0 } else { duration_seconds },
{
    if duration_seconds < 0 {
        0
    } else {
        duration_seconds
    }
}

/// Why a session could not be finalized: it was finalized before, or it
/// does not exist.
pub fn finalize_session_error(session_id: i64, exists: bool) -> (r: String)
    ensures
        exists ==> r@ == "A sessão de tempo jogado "@ + (if session_id < 0 {
            "-"@ + decimal((-session_id) as nat)
        } else {
            decimal(session_id as nat)
        }) + " já foi finalizada."@,
        !exists ==> r@ == "Sessão de tempo jogado "@ + (if session_id < 0 {
            "-"@ + decimal((-session_id) as nat)
        } else {
            decimal(session_id as nat)
        }) + " não encontrada para finalização."@,
{
    let id = signed_decimal(session_id);
    if exists {
        let mut m = owned("A sessão de tempo jogado ");
        m.append(id.as_str());
        m.append(" já foi finalizada.");
        m
    } else {
        let mut m = owned("Sessão de tempo jogado ");
        m.append(id.as_str());
        m.append(" não encontrada para finalização.");
        m
    }
}

fn signed_decimal(n: i64) -> (r: String)
    ensures
        r@ == if n < 0 {
            "-"@ + decimal((-n) as nat)
        } else {
            decimal(n as nat)
        },
{
    if n < 0 {
        let magnitude: u64 = if n == i64::MIN {
            9223372036854775808u64
        } else {
            (-n) as u64
        };
        let mut m = owned("-");
        let d = decimal_string(magnitude);
        m.append(d.as_str());
        m
    } else {
        decimal_string(n as u64)
    }
}

// ---------------------------------------------------------------------------
// The game's process
// ---------------------------------------------------------------------------
/// Where the main process of a game stands.
#[derive(Debug, Clone, Copy, PartialEq, Eq, Structural)]
pub enum ProcessStatus {
    Starting,
    Running,
    Exited,
    Failed,
}

/// Whether a new launch of a game may begin: not while an earlier one is
/// starting or running; an ended one is replaced.
pub fn can_start_process(current: Option<ProcessStatus>) -> (r: bool)
    ensures
        r == !(current == Some(ProcessStatus::Starting) || current == Some(ProcessStatus::Running)),
{
    match current {
        Some(ProcessStatus::Starting) | Some(ProcessStatus::Running) => false,
        _ => true,
    }
}

/// Why a session ended: `wait_error` when the process could not be waited
/// for, `normal` when it exited with code 0, else `nonzero_exit` (another
/// code, or a signal, which has no code).
pub open spec fn end_reason_text(waited: bool, exit_code: Option<i32>) -> Seq<char> {
    if !waited {
        "wait_error"@
    } else if exit_code == Some(0i32) {
        "normal"@
    } else {
        "nonzero_exit"@
    }
}

/// Why a session ended.
pub fn session_end_reason(waited: bool, exit_code: Option<i32>) -> (r: String)
    ensures
        r@ == end_reason_text(waited, exit_code),
{
    if !waited {
        owned("wait_error")
    } else if exit_code == Some(0i32) {
        owned("normal")
    } else {
        owned("nonzero_exit")
    }
}

/// The status of a game once its process ended: failed when it could not
/// be waited for, else exited.
pub fn status_after_wait(waited: bool) -> (r: ProcessStatus)
    ensures
        r == if waited {
            ProcessStatus::Exited
        } else {
            ProcessStatus::Failed
        },
{
    if waited {
        ProcessStatus::Exited
    } else {
        ProcessStatus::Failed
    }
}

} // verus!
