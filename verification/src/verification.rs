//! Checking an installation: the files the manifest requires, the checksums
//! it configures, and the summary shown to the user.
//!
//! Looking at the disk is left to the caller: it says which files exist and
//! hands in what it read; this module decides what that means.
use vstd::prelude::*;
use crate::text::{
    all_hex, chars_eq_ignore_case, chars_of, copy_string, decimal, decimal_string, eq_ignore_case,
    eq_text, hex_digit, lower_chars, lower_seq, owned, starts_with, string_of, trim, trim_chars,
};
use crate::paths::{is_absolute, join, path_join};
use crate::manifest::{opt_view, GameManifest, VerificationChecksumConfig};
use crate::remote_update::{remote_relative, safe_remote_relative_path};
use crate::install::{
    battl_eye_replaces, battl_eye_replaces_main_process, command_path_for_install,
    configured_path, configured_path_for_install,
};

verus! {

// ---------------------------------------------------------------------------
// CRC-32
// ---------------------------------------------------------------------------
/// `n` steps of the reflected CRC-32 shift register: shift right, and
/// fold in the polynomial 0xEDB88320 when the bit shifted out was set.
pub open spec fn crc32_shift(c: u32, n: nat) -> u32
    decreases n,
{
    if n == 0 {
        c
    } else {
        let next: u32 = if c & 1 == 1 {
            (c >> 1) ^ 0xEDB8_8320u32
        } else {
            c >> 1
        };
        crc32_shift(next, (n - 1) as nat)
    }
}

/// The register after the bytes, each XORed in and shifted eight times.
pub open spec fn crc32_register(c: u32, bytes: Seq<u8>) -> u32
    decreases bytes.len(),
{
    if bytes.len() == 0 {
        c
    } else {
        crc32_register(crc32_shift(c ^ (bytes[0] as u32), 8), bytes.drop_first())
    }
}

/// The CRC-32 (IEEE 802.3) checksum of the bytes: the register starts at
/// all ones and the result is its complement.
pub open spec fn crc32_of(bytes: Seq<u8>) -> u32 {
    !crc32_register(0xFFFF_FFFFu32, bytes)
}

/// `crc32fast::hash`: the CRC-32 (IEEE) of the bytes, as `crc32_of` states
/// it; the crate computes it with tables and SIMD, which this does not
/// restate.
#[verifier::external_body]
fn crc32_hash(bytes: &[u8]) -> (r: u32)
    ensures
        r == crc32_of(bytes@),
{
    crc32fast::hash(bytes)
}

/// A lowercase hexadecimal digit.
pub open spec fn hex_lower(d: nat) -> char {
    if d < 10 {
        ((48 + d) as u8) as char
    } else {
        ((87 + d) as u8) as char
    }
}

/// The last `n` hexadecimal digits of `v`, most significant first.
pub open spec fn hex_digits(v: nat, n: nat) -> Seq<char>
    decreases n,
{
    if n == 0 {
        Seq::empty()
    } else {
        hex_digits(v / 16, (n - 1) as nat).push(hex_lower(v % 16))
    }
}

/// A checksum as written: eight lowercase hexadecimal digits
/// (`format!("{:08x}", v)`).
pub open spec fn hex8(v: u32) -> Seq<char> {
    hex_digits(v as nat, 8)
}

fn hex_digits_of(v: u32, n: u8) -> (r: Vec<char>)
    requires
        n <= 8,
    ensures
        r@ == hex_digits(v as nat, n as nat),
    decreases n,
{
    if n == 0 {
        Vec::new()
    } else {
        let mut r = hex_digits_of(v / 16, n - 1);
        let d = (v % 16) as u8;
        r.push(
            if d < 10 {
                (48 + d) as char
            } else {
                (87 + d) as char
            },
        );
        r
    }
}

/// The CRC-32 of `bytes` as eight lowercase hexadecimal digits.
pub fn crc32_hex(bytes: &[u8]) -> (r: String)
    ensures
        r@ == hex8(crc32_of(bytes@)),
{
    let v = crc32_hash(bytes);
    string_of(&hex_digits_of(v, 8))
}

// ---------------------------------------------------------------------------
// Configured checksums
// ---------------------------------------------------------------------------
/// What was read of a file whose checksum is checked.
#[derive(Clone, Debug)]
pub enum FileReading {
    /// There is no such file.
    Missing,
    /// The file's bytes.
    Contents(Vec<u8>),
    /// The file could not be read; the message says why.
    Failed(String),
}

/// The outcome of one configured checksum.
#[derive(Clone, Debug)]
pub struct ChecksumVerificationResult {
    pub path: String,
    pub algorithm: String,
    pub expected: String,
    pub actual: Option<String>,
    pub valid: bool,
}

pub struct ChecksumResultView {
    pub path: Seq<char>,
    pub algorithm: Seq<char>,
    pub expected: Seq<char>,
    pub actual: Option<Seq<char>>,
    pub valid: bool,
}

impl View for ChecksumVerificationResult {
    type V = ChecksumResultView;

    open spec fn view(&self) -> ChecksumResultView {
        ChecksumResultView {
            path: self.path@,
            algorithm: self.algorithm@,
            expected: self.expected@,
            actual: opt_view(self.actual),
            valid: self.valid,
        }
    }
}

pub open spec fn result_views(rs: Seq<ChecksumVerificationResult>) -> Seq<ChecksumResultView> {
    rs.map_values(|r: ChecksumVerificationResult| r@)
}

/// What a configured checksum names once checked: its algorithm and
/// expected value (trimmed, in lowercase) and the file it covers under the
/// installation; or why the configuration is refused.
pub open spec fn checksum_target(install_path: Seq<char>, c: VerificationChecksumConfig) -> Result<
    (Seq<char>, Seq<char>, Seq<char>),
    Seq<char>,
> {
    let algorithm = lower_seq(trim(c.algorithm@));
    let expected = lower_seq(trim(c.value@));
    if algorithm != "crc32"@ {
        Err("Algoritmo de checksum não suportado para "@ + c.path@ + ": "@ + c.algorithm@)
    } else if expected.len() != 8 || !all_hex(expected) {
        Err("Checksum CRC32 inválido para "@ + c.path@ + ": "@ + c.value@)
    } else if starts_with(c.path@, "/"@) || starts_with(c.path@, "\\"@) {
        Err("Caminho absoluto não permitido em verification.checksums: "@ + c.path@)
    } else {
        match remote_relative(c.path@) {
            Err(_) => Err("Caminho inseguro em verification.checksums: "@ + c.path@),
            Ok(rel) => Ok((algorithm, expected, join(install_path, rel))),
        }
    }
}

fn checksum_parts(install_path: &str, checksum: &VerificationChecksumConfig) -> (r: Result<
    (String, String, String),
    String,
>)
    ensures
        match (r, checksum_target(install_path@, *checksum)) {
            (Ok((a, e, p)), Ok((x, y, z))) => a@ == x && e@ == y && p@ == z,
            (Err(a), Err(b)) => a@ == b,
            _ => false,
        },
{
    let algorithm = lower_chars(&trim_chars(&chars_of(checksum.algorithm.as_str())));
    let expected = lower_chars(&trim_chars(&chars_of(checksum.value.as_str())));
    if !eq_text(&algorithm, "crc32") {
        let mut e = owned("Algoritmo de checksum não suportado para ");
        e.append(checksum.path.as_str());
        e.append(": ");
        e.append(checksum.algorithm.as_str());
        return Err(e);
    }
    if expected.len() != 8 || !crate::text::chars_all_hex(&expected) {
        let mut e = owned("Checksum CRC32 inválido para ");
        e.append(checksum.path.as_str());
        e.append(": ");
        e.append(checksum.value.as_str());
        return Err(e);
    }
    let p = chars_of(checksum.path.as_str());
    if crate::text::starts_with_text(&p, "/") || crate::text::starts_with_text(&p, "\\") {
        let mut e = owned("Caminho absoluto não permitido em verification.checksums: ");
        e.append(checksum.path.as_str());
        return Err(e);
    }
    match safe_remote_relative_path(checksum.path.as_str()) {
        Err(_) => {
            let mut e = owned("Caminho inseguro em verification.checksums: ");
            e.append(checksum.path.as_str());
            Err(e)
        },
        Ok(rel) => {
            let file = string_of(&path_join(&chars_of(install_path), &chars_of(rel.as_str())));
            Ok((string_of(&algorithm), string_of(&expected), file))
        },
    }
}

/// The file a configured checksum covers under `install_path`, or why the
/// configuration is refused.
pub fn checksum_file_path(install_path: &str, checksum: &VerificationChecksumConfig) -> (r: Result<
    String,
    String,
>)
    ensures
        match (r, checksum_target(install_path@, *checksum)) {
            (Ok(p), Ok(t)) => p@ == t.2,
            (Err(a), Err(b)) => a@ == b,
            _ => false,
        },
{
    match checksum_parts(install_path, checksum) {
        Ok((_, _, p)) => Ok(p),
        Err(e) => Err(e),
    }
}

/// The outcome of one configured checksum, given what was read of its file
/// (nothing is read when the installation folder is missing).
pub open spec fn checksum_outcome(
    install_path: Seq<char>,
    install_path_exists: bool,
    c: VerificationChecksumConfig,
    reading: FileReading,
) -> Result<ChecksumResultView, Seq<char>> {
    match checksum_target(install_path, c) {
        Err(e) => Err(e),
        Ok((algorithm, expected, _)) => {
            let actual: Result<Option<Seq<char>>, Seq<char>> = if !install_path_exists {
                Ok(None)
            } else {
                match reading {
                    FileReading::Missing => Ok(None),
                    FileReading::Contents(b) => Ok(Some(hex8(crc32_of(b@)))),
                    FileReading::Failed(e) => Err(e@),
                }
            };
            match actual {
                Err(e) => Err(e),
                Ok(a) => Ok(
                    ChecksumResultView {
                        path: c.path@,
                        algorithm: algorithm,
                        expected: expected,
                        actual: a,
                        valid: match a {
                            Some(x) => eq_ignore_case(x, expected),
                            None => false,
                        },
                    },
                ),
            }
        },
    }
}

/// The outcomes of the configured checksums in order, or the first error.
pub open spec fn checksums_outcome(
    install_path: Seq<char>,
    install_path_exists: bool,
    cs: Seq<VerificationChecksumConfig>,
    readings: Seq<FileReading>,
) -> Result<Seq<ChecksumResultView>, Seq<char>>
    decreases cs.len(),
{
    if cs.len() == 0 || readings.len() != cs.len() {
        Ok(Seq::empty())
    } else {
        match checksums_outcome(
            install_path,
            install_path_exists,
            cs.drop_last(),
            readings.drop_last(),
        ) {
            Err(e) => Err(e),
            Ok(prev) => match checksum_outcome(
                install_path,
                install_path_exists,
                cs.last(),
                readings.last(),
            ) {
                Err(e) => Err(e),
                Ok(x) => Ok(prev.push(x)),
            },
        }
    }
}

fn checksum_result(
    install_path: &str,
    install_path_exists: bool,
    checksum: &VerificationChecksumConfig,
    reading: &FileReading,
) -> (r: Result<ChecksumVerificationResult, String>)
    ensures
        match (r, checksum_outcome(install_path@, install_path_exists, *checksum, *reading)) {
            (Ok(a), Ok(b)) => a@ == b,
            (Err(a), Err(b)) => a@ == b,
            _ => false,
        },
{
    let (algorithm, expected, _) = match checksum_parts(install_path, checksum) {
        Ok(t) => t,
        Err(e) => return Err(e),
    };
    let actual: Option<String> = if !install_path_exists {
        None
    } else {
        match reading {
            FileReading::Missing => None,
            FileReading::Contents(b) => Some(crc32_hex(b.as_slice())),
            FileReading::Failed(e) => return Err(copy_string(e)),
        }
    };
    let valid = match &actual {
        Some(a) => chars_eq_ignore_case(&chars_of(a.as_str()), &chars_of(expected.as_str())),
        None => false,
    };
    Ok(
        ChecksumVerificationResult {
            path: copy_string(&checksum.path),
            algorithm,
            expected,
            actual,
            valid,
        },
    )
}

/// The outcomes of the configured checksums of an installation at
/// `install_path`. `readings[i]` is what was read of the file that
/// `checksum_file_path` gives for `checksums[i]` (it is not looked at when
/// the installation folder is missing). The first refused configuration or
/// failed reading, in order, is the error.
pub fn verify_configured_checksums(
    install_path: &str,
    install_path_exists: bool,
    checksums: &Vec<VerificationChecksumConfig>,
    readings: &Vec<FileReading>,
) -> (r: Result<Vec<ChecksumVerificationResult>, String>)
    requires
        readings.len() == checksums.len(),
    ensures
        match (r, checksums_outcome(install_path@, install_path_exists, checksums@, readings@)) {
            (Ok(a), Ok(b)) => result_views(a@) == b,
            (Err(a), Err(b)) => a@ == b,
            _ => false,
        },
{
    let mut out: Vec<ChecksumVerificationResult> = Vec::new();
    let mut i: usize = 0;
    assert(checksums@.take(0) =~= Seq::<VerificationChecksumConfig>::empty());
    assert(readings@.take(0) =~= Seq::<FileReading>::empty());
    assert(result_views(out@) =~= Seq::<ChecksumResultView>::empty());
    while i < checksums.len()
        invariant
            i <= checksums.len(),
            readings.len() == checksums.len(),
            checksums_outcome(
                install_path@,
                install_path_exists,
                checksums@.take(i as int),
                readings@.take(i as int),
            ) == Ok::<Seq<ChecksumResultView>, Seq<char>>(result_views(out@)),
        decreases checksums.len() - i,
    {
        let ghost cs = checksums@.take(i + 1);
        let ghost rs = readings@.take(i + 1);
        assert(cs.drop_last() =~= checksums@.take(i as int));
        assert(rs.drop_last() =~= readings@.take(i as int));
        assert(cs.last() == checksums@[i as int]);
        assert(rs.last() == readings@[i as int]);
        match checksum_result(install_path, install_path_exists, &checksums[i], &readings[i]) {
            Ok(x) => {
                let ghost before = result_views(out@);
                out.push(x);
                assert(result_views(out@) =~= before.push(x@));
            },
            Err(e) => {
                proof {
                    lemma_outcome_error_stays(
                        install_path@,
                        install_path_exists,
                        checksums@,
                        readings@,
                        (i + 1) as nat,
                    );
                }
                return Err(e);
            },
        }
        i = i + 1;
    }
    assert(checksums@.take(checksums.len() as int) =~= checksums@);
    assert(readings@.take(readings.len() as int) =~= readings@);
    Ok(out)
}

proof fn lemma_outcome_error_stays(
    install_path: Seq<char>,
    install_path_exists: bool,
    cs: Seq<VerificationChecksumConfig>,
    rs: Seq<FileReading>,
    n: nat,
)
    requires
        0 < n <= cs.len(),
        rs.len() == cs.len(),
        checksums_outcome(install_path, install_path_exists, cs.take(n as int), rs.take(n as int)) is Err,
    ensures
        checksums_outcome(install_path, install_path_exists, cs, rs) == checksums_outcome(
            install_path,
            install_path_exists,
            cs.take(n as int),
            rs.take(n as int),
        ),
    decreases cs.len() - n,
{
    if n < cs.len() {
        let c2 = cs.take(n + 1int);
        let r2 = rs.take(n + 1int);
        assert(c2.drop_last() =~= cs.take(n as int));
        assert(r2.drop_last() =~= rs.take(n as int));
        lemma_outcome_error_stays(install_path, install_path_exists, cs, rs, n + 1);
    } else {
        assert(cs.take(n as int) =~= cs);
        assert(rs.take(n as int) =~= rs);
    }
}

// ---------------------------------------------------------------------------
// Required files
// ---------------------------------------------------------------------------
/// Where each required file lies in an installation at `install_path`.
pub fn required_file_paths(install_path: &str, required_files: &Vec<String>) -> (r: Vec<String>)
    ensures
        r.len() == required_files.len(),
        forall|i: int|
            0 <= i < r.len() ==> #[trigger] r@[i]@ == join(install_path@, required_files@[i]@),
{
    let mut r: Vec<String> = Vec::new();
    let mut i: usize = 0;
    while i < required_files.len()
        invariant
            i <= required_files.len(),
            r.len() == i,
            forall|k: int|
                0 <= k < i ==> #[trigger] r@[k]@ == join(install_path@, required_files@[k]@),
        decreases required_files.len() - i,
    {
        r.push(command_path_for_install(install_path, required_files[i].as_str()));
        i = i + 1;
    }
    r
}

/// The required files not present, in order.
pub open spec fn absent_files(files: Seq<Seq<char>>, present: Seq<bool>) -> Seq<Seq<char>>
    decreases files.len(),
{
    if files.len() == 0 || present.len() != files.len() {
        Seq::empty()
    } else {
        let rest = absent_files(files.drop_last(), present.drop_last());
        if present.last() {
            rest
        } else {
            rest.push(files.last())
        }
    }
}

/// The required files that are missing: all of them when the installation
/// folder is missing, else those whose path (`required_file_paths`) does
/// not exist; `present[i]` says whether that of `required_files[i]` does.
pub fn missing_required_files(
    install_path_exists: bool,
    required_files: &Vec<String>,
    present: &Vec<bool>,
) -> (r: Vec<String>)
    requires
        present.len() == required_files.len(),
    ensures
        !install_path_exists ==> r.deep_view() == required_files.deep_view(),
        install_path_exists ==> r.deep_view() == absent_files(required_files.deep_view(), present@),
{
    let ghost fv = required_files.deep_view();
    let mut r: Vec<String> = Vec::new();
    let mut i: usize = 0;
    assert(fv.take(0) =~= Seq::<Seq<char>>::empty());
    while i < required_files.len()
        invariant
            i <= required_files.len(),
            present.len() == required_files.len(),
            fv == required_files.deep_view(),
            !install_path_exists ==> r.deep_view() == fv.take(i as int),
            install_path_exists ==> r.deep_view() == absent_files(
                fv.take(i as int),
                present@.take(i as int),
            ),
        decreases required_files.len() - i,
    {
        assert(fv.take(i + 1).drop_last() =~= fv.take(i as int));
        assert(present@.take(i + 1).drop_last() =~= present@.take(i as int));
        assert(fv.take(i + 1).last() == required_files@[i as int]@);
        assert(present@.take(i + 1).last() == present@[i as int]);
        if !install_path_exists || !present[i] {
            let ghost before = r.deep_view();
            r.push(copy_string(&required_files[i]));
            assert(r.deep_view() =~= before.push(required_files@[i as int]@));
        }
        i = i + 1;
    }
    assert(fv.take(required_files.len() as int) =~= fv);
    assert(present@.take(present.len() as int) =~= present@);
    r
}

// ---------------------------------------------------------------------------
// The executable checked
// ---------------------------------------------------------------------------
/// The executable that verification looks for: the BattlEye launcher when it
/// replaces the game's process, else the manifest's executable.
pub open spec fn verification_executable(
    app_data_dir: Seq<char>,
    game_id: Seq<char>,
    manifest: GameManifest,
    install_path: Seq<char>,
) -> Option<Seq<char>> {
    if battl_eye_replaces(manifest) {
        match manifest.launch.battl_eye {
            Some(b) => Some(
                configured_path(
                    app_data_dir,
                    game_id,
                    install_path,
                    b.executable@,
                    opt_view(b.path_base),
                    manifest.launch.runner@,
                ),
            ),
            None => None,
        }
    } else {
        match opt_view(manifest.launch.executable) {
            Some(e) => Some(join(install_path, e)),
            None => None,
        }
    }
}

/// The executable that verification looks for in an installation.
pub fn effective_executable_path_for_verification(
    app_data_dir: &str,
    game_id: &str,
    manifest: &GameManifest,
    install_path: &str,
) -> (r: Option<String>)
    ensures
        opt_view(r) == verification_executable(app_data_dir@, game_id@, *manifest, install_path@),
{
    if battl_eye_replaces_main_process(manifest) {
        return match &manifest.launch.battl_eye {
            Some(b) => Some(
                configured_path_for_install(
                    app_data_dir,
                    game_id,
                    install_path,
                    b.executable.as_str(),
                    match &b.path_base {
                        Some(p) => Some(p.as_str()),
                        None => None,
                    },
                    manifest.launch.runner.as_str(),
                ),
            ),
            None => None,
        };
    }
    match &manifest.launch.executable {
        Some(e) => Some(command_path_for_install(install_path, e.as_str())),
        None => None,
    }
}

// ---------------------------------------------------------------------------
// The summary
// ---------------------------------------------------------------------------
/// The outcome of checking a game's installation.
#[derive(Clone, Debug)]
pub struct InstallVerificationResult {
    pub game_id: String,
    pub valid: bool,
    pub install_path: String,
    pub install_path_exists: bool,
    pub executable_path: Option<String>,
    pub executable_exists: bool,
    pub missing_files: Vec<String>,
    pub checksum_results: Vec<ChecksumVerificationResult>,
    pub issues: Vec<String>,
    pub repair_strategy: Option<String>,
}

/// How many checksum outcomes are not valid.
pub open spec fn invalid_count(rs: Seq<ChecksumResultView>) -> nat
    decreases rs.len(),
{
    if rs.len() == 0 {
        0
    } else {
        invalid_count(rs.drop_last()) + if rs.last().valid {
            0nat
        } else {
            1nat
        }
    }
}

/// The problems listed for an installation, in order: a missing folder, an
/// executable that is not configured or not found, missing required files,
/// and checksums missing or different.
pub open spec fn verification_issues(
    install_path: Seq<char>,
    install_path_exists: bool,
    executable_path: Option<Seq<char>>,
    executable_exists: bool,
    missing_count: nat,
    invalid: nat,
) -> Seq<Seq<char>> {
    (if !install_path_exists {
        seq!["A pasta registrada não existe mais: "@ + install_path]
    } else {
        Seq::empty()
    }) + (match executable_path {
        None => seq!["O manifesto não define um executável verificável."@],
        Some(p) => if !executable_exists {
            seq!["O executável principal não foi encontrado: "@ + p]
        } else {
            Seq::empty()
        },
    }) + (if missing_count > 0 {
        seq![decimal(missing_count) + " arquivo(s) obrigatório(s) estão ausentes."@]
    } else {
        Seq::empty()
    }) + (if invalid > 0 {
        seq![decimal(invalid) + " arquivo(s) possuem checksum ausente ou divergente."@]
    } else {
        Seq::empty()
    })
}

fn count_invalid(rs: &Vec<ChecksumVerificationResult>) -> (n: usize)
    ensures
        n == invalid_count(result_views(rs@)),
{
    let ghost vs = result_views(rs@);
    let mut n: usize = 0;
    let mut i: usize = 0;
    assert(vs.take(0) =~= Seq::<ChecksumResultView>::empty());
    while i < rs.len()
        invariant
            i <= rs.len(),
            vs == result_views(rs@),
            n == invalid_count(vs.take(i as int)),
            n <= i,
        decreases rs.len() - i,
    {
        assert(vs.take(i + 1).drop_last() =~= vs.take(i as int));
        assert(vs.take(i + 1).last() == rs@[i as int]@);
        if !rs[i].valid {
            n = n + 1;
        }
        i = i + 1;
    }
    assert(vs.take(rs.len() as int) =~= vs);
    n
}

/// The outcome of checking an installation, from what was found:
/// `executable_is_file` says whether the executable (when there is one) is a
/// file. The installation is valid exactly when no problem is listed.
pub fn install_verification_result(
    game_id: String,
    install_path: String,
    install_path_exists: bool,
    executable_path: Option<String>,
    executable_is_file: bool,
    missing_files: Vec<String>,
    checksum_results: Vec<ChecksumVerificationResult>,
    repair_strategy: Option<String>,
) -> (r: InstallVerificationResult)
    ensures
        r.game_id@ == game_id@,
        r.install_path@ == install_path@,
        r.install_path_exists == install_path_exists,
        opt_view(r.executable_path) == opt_view(executable_path),
        r.executable_exists == (executable_path is Some && executable_is_file),
        r.missing_files.deep_view() == missing_files.deep_view(),
        result_views(r.checksum_results@) == result_views(checksum_results@),
        opt_view(r.repair_strategy) == opt_view(repair_strategy),
        r.issues.deep_view() == verification_issues(
            install_path@,
            install_path_exists,
            opt_view(executable_path),
            r.executable_exists,
            missing_files.len() as nat,
            invalid_count(result_views(checksum_results@)),
        ),
        r.valid == (install_path_exists && r.executable_exists && missing_files.len() == 0
            && invalid_count(result_views(checksum_results@)) == 0),
        r.valid <==> r.issues.len() == 0,
{
    let executable_exists = executable_path.is_some() && executable_is_file;
    let invalid = count_invalid(&checksum_results);
    let mut issues: Vec<String> = Vec::new();
    if !install_path_exists {
        let mut m = owned("A pasta registrada não existe mais: ");
        m.append(install_path.as_str());
        issues.push(m);
    }
    let ghost i1 = issues.deep_view();
    match &executable_path {
        None => {
            issues.push(owned("O manifesto não define um executável verificável."));
        },
        Some(p) => {
            if !executable_exists {
                let mut m = owned("O executável principal não foi encontrado: ");
                m.append(p.as_str());
                issues.push(m);
            }
        },
    }
    let ghost i2 = issues.deep_view();
    if missing_files.len() > 0 {
        let mut m = decimal_string(missing_files.len() as u64);
        m.append(" arquivo(s) obrigatório(s) estão ausentes.");
        issues.push(m);
    }
    let ghost i3 = issues.deep_view();
    if invalid > 0 {
        let mut m = decimal_string(invalid as u64);
        m.append(" arquivo(s) possuem checksum ausente ou divergente.");
        issues.push(m);
    }
    let valid = install_path_exists && executable_exists && missing_files.len() == 0 && invalid == 0;
    proof {
        let first: Seq<Seq<char>> = if !install_path_exists {
            seq!["A pasta registrada não existe mais: "@ + install_path@]
        } else {
            Seq::empty()
        };
        assert(i1 =~= first);
        assert(issues.deep_view() =~= verification_issues(
            install_path@,
            install_path_exists,
            opt_view(executable_path),
            executable_exists,
            missing_files.len() as nat,
            invalid as nat,
        ));
    }
    InstallVerificationResult {
        game_id,
        valid,
        install_path,
        install_path_exists,
        executable_path,
        executable_exists,
        missing_files,
        checksum_results,
        issues,
        repair_strategy,
    }
}

} // verus!
