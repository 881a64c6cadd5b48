//! The remote catalog: its index, and the rules a remote manifest must meet
//! before it replaces the active catalog.
use vstd::prelude::*;
use crate::text::{
    chars_of, contains_char, decimal, decimal_string, is_digit, is_lower_letter,
    lemma_text_less_irreflexive, lemma_text_less_total, lemma_text_less_transitive, owned, str_eq,
    string_of, strip_start, strip_start_chars, text_less, trim, trim_chars,
};
use crate::paths::{components, is_absolute, parts_view, path_components, Comp, PathPart};
use crate::manifest::{
    BattlEyeConfig, GameManifest, InstallMethod, VerificationChecksumConfig, opt_view,
};

verus! {

/// The only schema version of catalog and manifests that is accepted.
pub const SUPPORTED_CATALOG_SCHEMA_VERSION: u32 = 1;

/// The largest number of games an index may list.
pub const MAX_CATALOG_GAMES: usize = 500;

#[derive(Clone, Debug)]
pub struct CatalogIndex {
    pub schema_version: u32,
    pub catalog_version: String,
    pub generated_at: String,
    pub games: Vec<CatalogGameEntry>,
}

#[derive(Clone, Debug)]
pub struct CatalogGameEntry {
    pub id: String,
    pub manifest: String,
    pub enabled: bool,
}

/// The default of an entry's `enabled` switch.
pub fn default_true() -> (r: bool)
    ensures
        r,
{
    true
}

// ---------------------------------------------------------------------------
// Time
// ---------------------------------------------------------------------------
/// Seconds since the Unix epoch as `SystemTime` reports them; none when the
/// clock is before the epoch. The value depends on the clock: nothing is
/// promised of it.
#[verifier::external_body]
fn unix_seconds_now() -> Option<u64> {
    std::time::SystemTime::now().duration_since(std::time::UNIX_EPOCH).ok().map(|d| d.as_secs())
}

/// A count of seconds as a signed timestamp: saturated at `i64::MAX`, and 0
/// when the clock gave none.
pub open spec fn timestamp_of(seconds: Option<u64>) -> i64 {
    match seconds {
        Some(s) => if s <= i64::MAX as u64 {
            s as i64
        } else {
            i64::MAX
        },
        None => 0,
    }
}

pub fn timestamp_from_seconds(seconds: Option<u64>) -> (r: i64)
    ensures
        r == timestamp_of(seconds),
{
    match seconds {
        Some(s) => if s <= i64::MAX as u64 {
            s as i64
        } else {
            i64::MAX
        },
        None => 0,
    }
}

/// The current Unix time in seconds, never negative.
pub fn now_timestamp() -> (r: i64)
    ensures
        r >= 0,
        exists|s: Option<u64>| r == timestamp_of(s),
{
    let s = unix_seconds_now();
    timestamp_from_seconds(s)
}

// ---------------------------------------------------------------------------
// Identifiers and paths
// ---------------------------------------------------------------------------
pub open spec fn is_id_char(c: char) -> bool {
    is_lower_letter(c) || is_digit(c) || c == '-' || c == '_'
}

/// A catalog id: 1 to 80 characters among `a-z`, `0-9`, `-` and `_`.
pub open spec fn safe_id(value: Seq<char>) -> bool {
    &&& 0 < value.len() <= 80
    &&& forall|i: int| 0 <= i < value.len() ==> is_id_char(#[trigger] value[i])
}

/// Whether `value` is a stable, safe catalog id.
pub fn is_safe_id(value: &str) -> (r: bool)
    ensures
        r == safe_id(value@),
{
    let v = chars_of(value);
    if v.len() == 0 || v.len() > 80 {
        return false;
    }
    let mut i: usize = 0;
    while i < v.len()
        invariant
            i <= v.len(),
            v@ == value@,
            forall|k: int| 0 <= k < i ==> is_id_char(#[trigger] v@[k]),
        decreases v.len() - i,
    {
        let c = v[i];
        if !(('a' <= c && c <= 'z') || ('0' <= c && c <= '9') || c == '-' || c == '_') {
            return false;
        }
        i = i + 1;
    }
    true
}

/// A relative path that stays inside its root: after trimming it is not
/// empty, has no NUL, `:` or `\`, is not absolute, and has only names and
/// `.` as components.
pub open spec fn safe_relative(value: Seq<char>) -> bool {
    let t = trim(value);
    &&& t.len() > 0
    &&& !t.contains('\0')
    &&& !t.contains(':')
    &&& !t.contains('\\')
    &&& !is_absolute(t)
    &&& forall|i: int|
        0 <= i < components(t).len() ==> (#[trigger] components(t)[i] is Normal
            || components(t)[i] is Cur)
}

/// Whether `value` is a relative path that cannot leave its root.
pub fn is_safe_relative_path(value: &str) -> (r: bool)
    ensures
        r == safe_relative(value@),
{
    let v = chars_of(value);
    let t = trim_chars(&v);
    if t.len() == 0 || contains_char(&t, '\0') || contains_char(&t, ':') || contains_char(
        &t,
        '\\',
    ) {
        return false;
    }
    if t[0] == '/' {
        return false;
    }
    let parts = path_components(&t);
    let ghost cs = parts_view(parts@);
    let mut i: usize = 0;
    while i < parts.len()
        invariant
            i <= parts.len(),
            cs == parts_view(parts@),
            cs == components(trim(value@)),
            forall|k: int| 0 <= k < i ==> (#[trigger] cs[k] is Normal || cs[k] is Cur),
        decreases parts.len() - i,
    {
        assert(cs[i as int] == parts@[i as int]@);
        match &parts[i] {
            PathPart::Normal(_) | PathPart::Cur => {},
            _ => {
                return false;
            },
        }
        i = i + 1;
    }
    true
}

// ---------------------------------------------------------------------------
// URLs
// ---------------------------------------------------------------------------
/// What `Url::parse` gives for a text: the scheme and the serialised URL, or
/// the text of the parse error.
pub uninterp spec fn url_parse_outcome(input: Seq<char>) -> Result<(Seq<char>, Seq<char>), Seq<char>>;

/// `reqwest::Url::parse` (the `url` crate's parser): its result is named by
/// `url_parse_outcome`; the scheme and serialisation are the URL's own.
#[verifier::external_body]
fn parse_url(input: &str) -> (r: Result<(String, String), String>)
    ensures
        match (r, url_parse_outcome(input@)) {
            (Ok(u), Ok(v)) => u.0@ == v.0 && u.1@ == v.1,
            (Err(e), Err(f)) => e@ == f,
            _ => false,
        },
{
    match reqwest::Url::parse(input) {
        Ok(url) => Ok((url.scheme().to_string(), url.to_string())),
        Err(error) => Err(error.to_string()),
    }
}

/// What `Url::join` gives for a base URL text and a reference: the joined
/// URL's scheme and serialisation, or the text of the error.
pub uninterp spec fn url_join_outcome(base: Seq<char>, input: Seq<char>) -> Result<
    (Seq<char>, Seq<char>),
    Seq<char>,
>;

/// `reqwest::Url::join` on the URL that `Url::parse` reads in `base`: its
/// result is named by `url_join_outcome`.
#[verifier::external_body]
fn join_url(base: &str, input: &str) -> (r: Result<(String, String), String>)
    ensures
        match (r, url_join_outcome(base@, input@)) {
            (Ok(u), Ok(v)) => u.0@ == v.0 && u.1@ == v.1,
            (Err(e), Err(f)) => e@ == f,
            _ => false,
        },
{
    match reqwest::Url::parse(base).and_then(|url| url.join(input)) {
        Ok(url) => Ok((url.scheme().to_string(), url.to_string())),
        Err(error) => Err(error.to_string()),
    }
}

/// The error `validate_https_url` gives, if any.
pub open spec fn https_url_error(value: Seq<char>, field: Seq<char>) -> Option<Seq<char>> {
    match url_parse_outcome(value) {
        Err(e) => Some("URL inválida em "@ + field + ": "@ + value + " ("@ + e + ")"@),
        Ok(u) => if u.0 != "https"@ {
            Some("A URL de "@ + field + " precisa usar HTTPS: "@ + value)
        } else {
            None
        },
    }
}

/// Accepts only a well-formed URL with the `https` scheme.
pub fn validate_https_url(value: &str, field: &str) -> (r: Result<(), String>)
    ensures
        r is Ok <==> https_url_error(value@, field@) is None,
        r is Err ==> https_url_error(value@, field@) == Some(r->Err_0@),
{
    match parse_url(value) {
        Err(e) => {
            let mut m = owned("URL inválida em ");
            m.append(field);
            m.append(": ");
            m.append(value);
            m.append(" (");
            m.append(e.as_str());
            m.append(")");
            Err(m)
        },
        Ok(u) => {
            if !str_eq(u.0.as_str(), "https") {
                let mut m = owned("A URL de ");
                m.append(field);
                m.append(" precisa usar HTTPS: ");
                m.append(value);
                Err(m)
            } else {
                Ok(())
            }
        },
    }
}

/// The error `validate_optional_relative_path` gives, if any.
pub open spec fn optional_path_error(value: Option<Seq<char>>, field: Seq<char>) -> Option<
    Seq<char>,
> {
    match value {
        Some(v) => if !safe_relative(v) {
            Some("Caminho remoto inseguro em "@ + field + ": "@ + v)
        } else {
            None
        },
        None => None,
    }
}

/// Accepts an absent path or a safe relative one.
pub fn validate_optional_relative_path(value: Option<&str>, field: &str) -> (r: Result<(), String>)
    ensures
        r is Ok <==> optional_path_error(
            match value {
                Some(v) => Some(v@),
                None => None,
            },
            field@,
        ) is None,
        r is Err ==> optional_path_error(
            match value {
                Some(v) => Some(v@),
                None => None,
            },
            field@,
        ) == Some(r->Err_0@),
{
    if let Some(v) = value {
        if !is_safe_relative_path(v) {
            let mut m = owned("Caminho remoto inseguro em ");
            m.append(field);
            m.append(": ");
            m.append(v);
            return Err(m);
        }
    }
    Ok(())
}

// ---------------------------------------------------------------------------
// Remote manifests
// ---------------------------------------------------------------------------
/// The first of two possible errors.
pub open spec fn first_error(a: Option<Seq<char>>, b: Option<Seq<char>>) -> Option<Seq<char>> {
    if a is Some {
        a
    } else {
        b
    }
}

pub open spec fn method_error(m: InstallMethod) -> Option<Seq<char>> {
    first_error(
        match m.url {
            Some(u) => https_url_error(u@, "installation.methods[].url"@),
            None => None,
        },
        optional_path_error(opt_view(m.install_path), "installation.methods[].installPath"@),
    )
}

/// The first error among installation methods, in order.
pub open spec fn methods_error(ms: Seq<InstallMethod>) -> Option<Seq<char>>
    decreases ms.len(),
{
    if ms.len() == 0 {
        None
    } else {
        first_error(methods_error(ms.drop_last()), method_error(ms.last()))
    }
}

pub open spec fn required_files_error(id: Seq<char>, fs: Seq<String>) -> Option<Seq<char>>
    decreases fs.len(),
{
    if fs.len() == 0 {
        None
    } else {
        first_error(
            required_files_error(id, fs.drop_last()),
            if !safe_relative(fs.last()@) {
                Some("Arquivo obrigatório inseguro no manifesto "@ + id + ": "@ + fs.last()@)
            } else {
                None
            },
        )
    }
}

pub open spec fn checksums_error(id: Seq<char>, cs: Seq<VerificationChecksumConfig>) -> Option<
    Seq<char>,
>
    decreases cs.len(),
{
    if cs.len() == 0 {
        None
    } else {
        first_error(
            checksums_error(id, cs.drop_last()),
            if !safe_relative(cs.last().path@) {
                Some("Caminho de checksum inseguro no manifesto "@ + id + ": "@ + cs.last().path@)
            } else {
                None
            },
        )
    }
}

pub open spec fn battl_eye_error(b: Option<BattlEyeConfig>) -> Option<Seq<char>> {
    match b {
        Some(be) => first_error(
            optional_path_error(Some(be.executable@), "launch.battlEye.executable"@),
            optional_path_error(opt_view(be.working_dir), "launch.battlEye.workingDir"@),
        ),
        None => None,
    }
}

pub open spec fn update_error(m: GameManifest) -> Option<Seq<char>> {
    first_error(
        match m.update.manifest_url {
            Some(u) => https_url_error(u@, "update.manifestUrl"@),
            None => None,
        },
        first_error(
            optional_path_error(opt_view(m.update.executable), "update.executable"@),
            first_error(
                optional_path_error(opt_view(m.update.working_dir), "update.workingDir"@),
                optional_path_error(opt_view(m.update.target_dir), "update.targetDir"@),
            ),
        ),
    )
}

/// The first rule a remote manifest breaks, with its message: schema, id,
/// name, runner, then every path and URL it declares, in order.
pub open spec fn remote_manifest_error(m: GameManifest, expected_id: Seq<char>) -> Option<Seq<char>> {
    if m.schema_version != SUPPORTED_CATALOG_SCHEMA_VERSION {
        Some("Versão de schema do manifesto "@ + expected_id + " não suportada: "@ + decimal(
            m.schema_version as nat,
        ) + "."@)
    } else if m.id@ != expected_id {
        Some("O manifesto remoto de "@ + expected_id + " declarou id diferente: "@ + m.id@)
    } else if !safe_id(m.id@) {
        Some("ID de jogo inválido no catálogo remoto: "@ + m.id@)
    } else if trim(m.name@).len() == 0 {
        Some("O manifesto "@ + m.id@ + " não possui nome."@)
    } else if trim(m.launch.runner@).len() == 0 {
        Some("O manifesto "@ + m.id@ + " não define launch.runner."@)
    } else {
        first_error(
            optional_path_error(opt_view(m.launch.executable), "launch.executable"@),
            first_error(
                battl_eye_error(m.launch.battl_eye),
                first_error(
                    methods_error(m.installation.methods@),
                    first_error(
                        update_error(m),
                        first_error(
                            required_files_error(m.id@, m.verification.required_files@),
                            checksums_error(m.id@, m.verification.checksums@),
                        ),
                    ),
                ),
            ),
        )
    }
}

fn text_is_blank(s: &String) -> (r: bool)
    ensures
        r == (trim(s@).len() == 0),
{
    let c = chars_of(s.as_str());
    let t = trim_chars(&c);
    t.len() == 0
}

fn opt_str(o: &Option<String>) -> (r: Option<&str>)
    ensures
        match r {
            Some(v) => opt_view(*o) == Some(v@),
            None => o is None,
        },
{
    match o {
        Some(s) => Some(s.as_str()),
        None => None,
    }
}

fn check_methods(ms: &Vec<InstallMethod>) -> (r: Result<(), String>)
    ensures
        r is Ok <==> methods_error(ms@) is None,
        r is Err ==> methods_error(ms@) == Some(r->Err_0@),
{
    let mut i: usize = 0;
    while i < ms.len()
        invariant
            i <= ms.len(),
            methods_error(ms@.take(i as int)) is None,
        decreases ms.len() - i,
    {
        let ghost t = ms@.take(i + 1);
        assert(t.drop_last() =~= ms@.take(i as int));
        assert(t.last() == ms@[i as int]);
        let m = &ms[i];
        if let Some(u) = &m.url {
            if let Err(e) = validate_https_url(u.as_str(), "installation.methods[].url") {
                proof {
                    lemma_first_error_prefix_methods(ms@, i as int + 1);
                }
                return Err(e);
            }
        }
        if let Err(e) = validate_optional_relative_path(
            opt_str(&m.install_path),
            "installation.methods[].installPath",
        ) {
            proof {
                lemma_first_error_prefix_methods(ms@, i as int + 1);
            }
            return Err(e);
        }
        i = i + 1;
    }
    assert(ms@.take(ms.len() as int) =~= ms@);
    Ok(())
}

/// An error of a prefix is the error of the whole list.
proof fn lemma_first_error_prefix_methods(ms: Seq<InstallMethod>, n: int)
    requires
        0 <= n <= ms.len(),
        methods_error(ms.take(n)) is Some,
    ensures
        methods_error(ms) == methods_error(ms.take(n)),
    decreases ms.len() - n,
{
    if n < ms.len() {
        assert(ms.take(n + 1).drop_last() =~= ms.take(n));
        lemma_first_error_prefix_methods(ms, n + 1);
    } else {
        assert(ms.take(n) =~= ms);
    }
}

proof fn lemma_first_error_prefix_files(id: Seq<char>, fs: Seq<String>, n: int)
    requires
        0 <= n <= fs.len(),
        required_files_error(id, fs.take(n)) is Some,
    ensures
        required_files_error(id, fs) == required_files_error(id, fs.take(n)),
    decreases fs.len() - n,
{
    if n < fs.len() {
        assert(fs.take(n + 1).drop_last() =~= fs.take(n));
        lemma_first_error_prefix_files(id, fs, n + 1);
    } else {
        assert(fs.take(n) =~= fs);
    }
}

proof fn lemma_first_error_prefix_checksums(
    id: Seq<char>,
    cs: Seq<VerificationChecksumConfig>,
    n: int,
)
    requires
        0 <= n <= cs.len(),
        checksums_error(id, cs.take(n)) is Some,
    ensures
        checksums_error(id, cs) == checksums_error(id, cs.take(n)),
    decreases cs.len() - n,
{
    if n < cs.len() {
        assert(cs.take(n + 1).drop_last() =~= cs.take(n));
        lemma_first_error_prefix_checksums(id, cs, n + 1);
    } else {
        assert(cs.take(n) =~= cs);
    }
}

fn check_required_files(id: &String, fs: &Vec<String>) -> (r: Result<(), String>)
    ensures
        r is Ok <==> required_files_error(id@, fs@) is None,
        r is Err ==> required_files_error(id@, fs@) == Some(r->Err_0@),
{
    let mut i: usize = 0;
    while i < fs.len()
        invariant
            i <= fs.len(),
            required_files_error(id@, fs@.take(i as int)) is None,
        decreases fs.len() - i,
    {
        let ghost t = fs@.take(i + 1);
        assert(t.drop_last() =~= fs@.take(i as int));
        assert(t.last() == fs@[i as int]);
        if !is_safe_relative_path(fs[i].as_str()) {
            let mut m = owned("Arquivo obrigatório inseguro no manifesto ");
            m.append(id.as_str());
            m.append(": ");
            m.append(fs[i].as_str());
            proof {
                lemma_first_error_prefix_files(id@, fs@, i as int + 1);
            }
            return Err(m);
        }
        i = i + 1;
    }
    assert(fs@.take(fs.len() as int) =~= fs@);
    Ok(())
}

fn check_checksums(id: &String, cs: &Vec<VerificationChecksumConfig>) -> (r: Result<(), String>)
    ensures
        r is Ok <==> checksums_error(id@, cs@) is None,
        r is Err ==> checksums_error(id@, cs@) == Some(r->Err_0@),
{
    let mut i: usize = 0;
    while i < cs.len()
        invariant
            i <= cs.len(),
            checksums_error(id@, cs@.take(i as int)) is None,
        decreases cs.len() - i,
    {
        let ghost t = cs@.take(i + 1);
        assert(t.drop_last() =~= cs@.take(i as int));
        assert(t.last() == cs@[i as int]);
        if !is_safe_relative_path(cs[i].path.as_str()) {
            let mut m = owned("Caminho de checksum inseguro no manifesto ");
            m.append(id.as_str());
            m.append(": ");
            m.append(cs[i].path.as_str());
            proof {
                lemma_first_error_prefix_checksums(id@, cs@, i as int + 1);
            }
            return Err(m);
        }
        i = i + 1;
    }
    assert(cs@.take(cs.len() as int) =~= cs@);
    Ok(())
}

/// A remote manifest is accepted only for the catalog entry it was fetched
/// for: one whose declared id differs from the entry's is refused, and an
/// accepted one has the supported schema, a safe id, a name and a runner.
pub proof fn lemma_accepted_manifest_is_the_entrys(m: GameManifest, expected_id: Seq<char>)
    ensures
        m.id@ != expected_id ==> remote_manifest_error(m, expected_id) is Some,
        remote_manifest_error(m, expected_id) is None ==> m.id@ == expected_id
            && m.schema_version == SUPPORTED_CATALOG_SCHEMA_VERSION && safe_id(m.id@) && trim(
            m.name@,
        ).len() > 0 && trim(m.launch.runner@).len() > 0,
{
}

/// Checks a downloaded manifest against the rules of the catalog; the error
/// names the first rule broken.
pub fn validate_remote_manifest(manifest: &GameManifest, expected_id: &str) -> (r: Result<(), String>)
    ensures
        r is Ok <==> remote_manifest_error(*manifest, expected_id@) is None,
        r is Err ==> remote_manifest_error(*manifest, expected_id@) == Some(r->Err_0@),
        manifest.id@ != expected_id@ ==> r is Err,
        r is Ok ==> manifest.id@ == expected_id@ && manifest.schema_version
            == SUPPORTED_CATALOG_SCHEMA_VERSION && safe_id(manifest.id@),
{
    proof {
        lemma_accepted_manifest_is_the_entrys(*manifest, expected_id@);
    }
    if manifest.schema_version != SUPPORTED_CATALOG_SCHEMA_VERSION {
        let mut m = owned("Versão de schema do manifesto ");
        m.append(expected_id);
        m.append(" não suportada: ");
        let v = decimal_string(manifest.schema_version as u64);
        m.append(v.as_str());
        m.append(".");
        return Err(m);
    }
    if !str_eq(manifest.id.as_str(), expected_id) {
        let mut m = owned("O manifesto remoto de ");
        m.append(expected_id);
        m.append(" declarou id diferente: ");
        m.append(manifest.id.as_str());
        return Err(m);
    }
    if !is_safe_id(manifest.id.as_str()) {
        let mut m = owned("ID de jogo inválido no catálogo remoto: ");
        m.append(manifest.id.as_str());
        return Err(m);
    }
    if text_is_blank(&manifest.name) {
        let mut m = owned("O manifesto ");
        m.append(manifest.id.as_str());
        m.append(" não possui nome.");
        return Err(m);
    }
    if text_is_blank(&manifest.launch.runner) {
        let mut m = owned("O manifesto ");
        m.append(manifest.id.as_str());
        m.append(" não define launch.runner.");
        return Err(m);
    }
    validate_optional_relative_path(opt_str(&manifest.launch.executable), "launch.executable")?;
    if let Some(be) = &manifest.launch.battl_eye {
        validate_optional_relative_path(Some(be.executable.as_str()), "launch.battlEye.executable")?;
        validate_optional_relative_path(opt_str(&be.working_dir), "launch.battlEye.workingDir")?;
    }
    check_methods(&manifest.installation.methods)?;
    if let Some(u) = &manifest.update.manifest_url {
        validate_https_url(u.as_str(), "update.manifestUrl")?;
    }
    validate_optional_relative_path(opt_str(&manifest.update.executable), "update.executable")?;
    validate_optional_relative_path(opt_str(&manifest.update.working_dir), "update.workingDir")?;
    validate_optional_relative_path(opt_str(&manifest.update.target_dir), "update.targetDir")?;
    check_required_files(&manifest.id, &manifest.verification.required_files)?;
    check_checksums(&manifest.id, &manifest.verification.checksums)?;
    Ok(())
}

// ---------------------------------------------------------------------------
// The index
// ---------------------------------------------------------------------------
/// The problem with the `i`-th entry, given that those before it passed.
pub open spec fn entry_error(games: Seq<CatalogGameEntry>, i: int) -> Option<Seq<char>> {
    let g = games[i];
    if !safe_id(g.id@) {
        Some("ID inválido no catálogo remoto: "@ + g.id@)
    } else if exists|j: int| 0 <= j < i && (#[trigger] games[j]).id@ == g.id@ {
        Some("ID duplicado no catálogo remoto: "@ + g.id@)
    } else if g.enabled && !safe_relative(g.manifest@) {
        Some("Caminho de manifesto inseguro para "@ + g.id@ + ": "@ + g.manifest@)
    } else {
        None
    }
}

/// The first problem among the first `n` entries.
pub open spec fn games_error(games: Seq<CatalogGameEntry>, n: nat) -> Option<Seq<char>>
    decreases n,
{
    if n == 0 {
        None
    } else {
        first_error(games_error(games, (n - 1) as nat), entry_error(games, n - 1))
    }
}

/// The first rule the index breaks: schema, version, size, then its entries.
pub open spec fn catalog_index_error(index: CatalogIndex) -> Option<Seq<char>> {
    if index.schema_version != SUPPORTED_CATALOG_SCHEMA_VERSION {
        Some("Versão de schema do catálogo não suportada: "@ + decimal(index.schema_version as nat)
            + ". O launcher suporta 1."@)
    } else if trim(index.catalog_version@).len() == 0 {
        Some("O catálogo remoto não define catalogVersion."@)
    } else if index.games.len() > MAX_CATALOG_GAMES {
        Some("O catálogo remoto excede o limite de 500 jogos."@)
    } else {
        games_error(index.games@, index.games.len() as nat)
    }
}

proof fn lemma_games_error_prefix(games: Seq<CatalogGameEntry>, n: nat, m: nat)
    requires
        n <= m,
        games_error(games, n) is Some,
    ensures
        games_error(games, m) == games_error(games, n),
    decreases m - n,
{
    if n < m {
        lemma_games_error_prefix(games, n, (m - 1) as nat);
    }
}

fn has_text(v: &Vec<String>, s: &str) -> (r: bool)
    ensures
        r == exists|j: int| 0 <= j < v.len() && (#[trigger] v@[j])@ == s@,
{
    let mut i: usize = 0;
    while i < v.len()
        invariant
            i <= v.len(),
            forall|k: int| 0 <= k < i ==> (#[trigger] v@[k])@ != s@,
        decreases v.len() - i,
    {
        if str_eq(v[i].as_str(), s) {
            return true;
        }
        i = i + 1;
    }
    false
}

/// Checks the catalog index; the error names the first rule broken.
pub fn validate_catalog_index(index: &CatalogIndex) -> (r: Result<(), String>)
    ensures
        r is Ok <==> catalog_index_error(*index) is None,
        r is Err ==> catalog_index_error(*index) == Some(r->Err_0@),
{
    if index.schema_version != SUPPORTED_CATALOG_SCHEMA_VERSION {
        let mut m = owned("Versão de schema do catálogo não suportada: ");
        let v = decimal_string(index.schema_version as u64);
        m.append(v.as_str());
        m.append(". O launcher suporta 1.");
        return Err(m);
    }
    if text_is_blank(&index.catalog_version) {
        return Err(owned("O catálogo remoto não define catalogVersion."));
    }
    if index.games.len() > MAX_CATALOG_GAMES {
        return Err(owned("O catálogo remoto excede o limite de 500 jogos."));
    }
    let games = &index.games;
    let mut ids: Vec<String> = Vec::new();
    let mut i: usize = 0;
    while i < games.len()
        invariant
            i <= games.len(),
            ids.len() == i,
            forall|k: int| 0 <= k < i ==> (#[trigger] ids@[k])@ == games@[k].id@,
            games_error(games@, i as nat) is None,
            games == &index.games,
            catalog_index_error(*index) == games_error(games@, games.len() as nat),
        decreases games.len() - i,
    {
        let g = &games[i];
        let ghost n = (i + 1) as nat;
        if !is_safe_id(g.id.as_str()) {
            let mut m = owned("ID inválido no catálogo remoto: ");
            m.append(g.id.as_str());
            proof {
                assert(entry_error(games@, i as int) == Some(m@));
                assert(games_error(games@, n) == Some(m@));
                lemma_games_error_prefix(games@, n, games.len() as nat);
            }
            return Err(m);
        }
        if has_text(&ids, g.id.as_str()) {
            let mut m = owned("ID duplicado no catálogo remoto: ");
            m.append(g.id.as_str());
            proof {
                let j = choose|j: int| 0 <= j < ids.len() && (#[trigger] ids@[j])@ == g.id@;
                assert(games@[j].id@ == games@[i as int].id@);
                lemma_games_error_prefix(games@, n, games.len() as nat);
            }
            return Err(m);
        }
        proof {
            assert forall|j: int| 0 <= j < i implies (#[trigger] games@[j]).id@ != games@[i as int].id@ by {
                assert(ids@[j]@ == games@[j].id@);
            }
        }
        if g.enabled && !is_safe_relative_path(g.manifest.as_str()) {
            let mut m = owned("Caminho de manifesto inseguro para ");
            m.append(g.id.as_str());
            m.append(": ");
            m.append(g.manifest.as_str());
            proof {
                lemma_games_error_prefix(games@, n, games.len() as nat);
            }
            return Err(m);
        }
        ids.push(g.id.clone());
        i = i + 1;
    }
    Ok(())
}

/// A valid index lists safe, distinct ids, and every enabled entry points at
/// a safe relative manifest path.
pub proof fn lemma_valid_index_has_unique_safe_ids(index: CatalogIndex)
    requires
        catalog_index_error(index) is None,
    ensures
        forall|i: int| 0 <= i < index.games.len() ==> safe_id(#[trigger] index.games@[i].id@),
        forall|i: int, j: int|
            0 <= i < j < index.games.len() ==> (#[trigger] index.games@[i]).id@
                != (#[trigger] index.games@[j]).id@,
        forall|i: int|
            0 <= i < index.games.len() && (#[trigger] index.games@[i]).enabled ==> safe_relative(
                index.games@[i].manifest@,
            ),
{
    lemma_games_prefix_ok(index.games@, index.games.len() as nat);
}

proof fn lemma_games_prefix_ok(games: Seq<CatalogGameEntry>, n: nat)
    requires
        n <= games.len(),
        games_error(games, n) is None,
    ensures
        forall|i: int| 0 <= i < n ==> safe_id(#[trigger] games[i].id@),
        forall|i: int, j: int| 0 <= i < j < n ==> (#[trigger] games[i]).id@ != (#[trigger] games[j]).id@,
        forall|i: int| 0 <= i < n && (#[trigger] games[i]).enabled ==> safe_relative(games[i].manifest@),
    decreases n,
{
    if n > 0 {
        lemma_games_prefix_ok(games, (n - 1) as nat);
        let k = n - 1;
        assert(entry_error(games, k as int) is None);
        assert forall|i: int, j: int| 0 <= i < j < n implies (#[trigger] games[i]).id@ != (
        #[trigger] games[j]).id@ by {
            if j == k {
                if games[i].id@ == games[j].id@ {
                    assert(exists|jj: int| 0 <= jj < k && (#[trigger] games[jj]).id@ == games[k as int].id@);
                }
            }
        }
    }
}

// ---------------------------------------------------------------------------
// Assets
// ---------------------------------------------------------------------------
/// What `resolve_remote_asset_url` gives: an absolute asset URL must be
/// HTTPS; anything else is a safe path under the catalog's URL.
pub open spec fn remote_asset_url(catalog_url: Seq<char>, value: Seq<char>, field: Seq<char>) -> Result<
    Seq<char>,
    Seq<char>,
> {
    let t = trim(value);
    if t.len() == 0 {
        Err("Asset vazio em "@ + field + "."@)
    } else {
        match url_parse_outcome(t) {
            Ok(u) => if u.0 != "https"@ {
                Err("Asset remoto precisa usar HTTPS em "@ + field + ": "@ + t)
            } else {
                Ok(u.1)
            },
            Err(_) => {
                let rel = strip_start(t, Some('/'));
                if !safe_relative(rel) {
                    Err("Caminho de asset inseguro em "@ + field + ": "@ + t)
                } else {
                    match url_join_outcome(catalog_url, rel) {
                        Ok(j) => Ok(j.1),
                        Err(e) => Err("Não foi possível resolver asset "@ + t + ": "@ + e),
                    }
                }
            },
        }
    }
}

/// The absolute URL of an asset declared by a remote manifest.
pub fn resolve_remote_asset_url(catalog_url: &str, value: &str, field: &str) -> (r: Result<
    String,
    String,
>)
    ensures
        match (r, remote_asset_url(catalog_url@, value@, field@)) {
            (Ok(a), Ok(b)) => a@ == b,
            (Err(a), Err(b)) => a@ == b,
            _ => false,
        },
{
    let v = chars_of(value);
    let tc = trim_chars(&v);
    let t = string_of(&tc);
    if tc.len() == 0 {
        let mut m = owned("Asset vazio em ");
        m.append(field);
        m.append(".");
        return Err(m);
    }
    match parse_url(t.as_str()) {
        Ok(u) => {
            if !str_eq(u.0.as_str(), "https") {
                let mut m = owned("Asset remoto precisa usar HTTPS em ");
                m.append(field);
                m.append(": ");
                m.append(t.as_str());
                Err(m)
            } else {
                Ok(u.1)
            }
        },
        Err(_) => {
            let rc = strip_start_chars(&tc, Some('/'));
            let rel = string_of(&rc);
            if !is_safe_relative_path(rel.as_str()) {
                let mut m = owned("Caminho de asset inseguro em ");
                m.append(field);
                m.append(": ");
                m.append(t.as_str());
                return Err(m);
            }
            match join_url(catalog_url, rel.as_str()) {
                Ok(j) => Ok(j.1),
                Err(e) => {
                    let mut m = owned("Não foi possível resolver asset ");
                    m.append(t.as_str());
                    m.append(": ");
                    m.append(e.as_str());
                    Err(m)
                },
            }
        },
    }
}

/// Replaces the banner and icon of a remote manifest by absolute URLs. On
/// an error in the icon the banner stays resolved, as it was written first.
pub fn normalize_remote_assets(manifest: &mut GameManifest, catalog_url: &str) -> (r: Result<(), String>)
    ensures
        final(manifest).id == old(manifest).id,
        final(manifest).name == old(manifest).name,
        final(manifest).description == old(manifest).description,
        final(manifest).launch == old(manifest).launch,
        final(manifest).installation == old(manifest).installation,
        final(manifest).update == old(manifest).update,
        final(manifest).verification == old(manifest).verification,
        final(manifest).schema_version == old(manifest).schema_version,
        match remote_asset_url(catalog_url@, old(manifest).assets.banner@, "assets.banner"@) {
            Err(e) => r is Err && r->Err_0@ == e && final(manifest).assets == old(manifest).assets,
            Ok(b) => final(manifest).assets.banner@ == b && match remote_asset_url(
                catalog_url@,
                old(manifest).assets.icon@,
                "assets.icon"@,
            ) {
                Err(e) => r is Err && r->Err_0@ == e && final(manifest).assets.icon
                    == old(manifest).assets.icon,
                Ok(i) => r is Ok && final(manifest).assets.icon@ == i,
            },
        },
{
    let banner = resolve_remote_asset_url(catalog_url, manifest.assets.banner.as_str(), "assets.banner")?;
    manifest.assets.banner = banner;
    let icon = resolve_remote_asset_url(catalog_url, manifest.assets.icon.as_str(), "assets.icon")?;
    manifest.assets.icon = icon;
    Ok(())
}

// ---------------------------------------------------------------------------
// Sizes of downloads
// ---------------------------------------------------------------------------
/// The largest catalog index that is read, in bytes.
pub const MAX_CATALOG_BYTES: usize = 1048576;

/// The largest remote manifest that is read, in bytes.
pub const MAX_MANIFEST_BYTES: usize = 524288;

pub open spec fn too_large_text(label: Seq<char>, max_bytes: usize) -> Seq<char> {
    label + " excede o limite de "@ + decimal(max_bytes as nat) + " bytes."@
}

fn too_large(label: &str, max_bytes: usize) -> (r: String)
    ensures
        r@ == too_large_text(label@, max_bytes),
{
    let mut m = owned(label);
    m.append(" excede o limite de ");
    let n = decimal_string(max_bytes as u64);
    m.append(n.as_str());
    m.append(" bytes.");
    m
}

/// Refuses a response whose announced length is over `max_bytes`.
pub fn check_content_length(content_length: Option<u64>, max_bytes: usize, label: &str) -> (r:
    Result<(), String>)
    ensures
        match content_length {
            Some(n) => if n > max_bytes {
                r is Err && r->Err_0@ == too_large_text(label@, max_bytes)
            } else {
                r is Ok
            },
            None => r is Ok,
        },
{
    match content_length {
        Some(n) => if n > max_bytes as u64 {
            Err(too_large(label, max_bytes))
        } else {
            Ok(())
        },
        None => Ok(()),
    }
}

/// Refuses a body of more than `max_bytes` bytes.
pub fn check_body_size(len: usize, max_bytes: usize, label: &str) -> (r: Result<(), String>)
    ensures
        len > max_bytes ==> r is Err && r->Err_0@ == too_large_text(label@, max_bytes),
        len <= max_bytes ==> r is Ok,
{
    if len > max_bytes {
        Err(too_large(label, max_bytes))
    } else {
        Ok(())
    }
}

// ---------------------------------------------------------------------------
// Manifest addresses
// ---------------------------------------------------------------------------
/// The address of an entry's manifest, relative to the catalog's URL; it
/// must use HTTPS.
pub open spec fn manifest_url_of(catalog_url: Seq<char>, entry_id: Seq<char>, manifest: Seq<char>) -> Result<
    Seq<char>,
    Seq<char>,
> {
    match url_join_outcome(catalog_url, manifest) {
        Err(e) => Err(
            "Não foi possível resolver manifesto de "@ + entry_id + " em "@ + manifest + ": "@ + e,
        ),
        Ok(u) => if u.0 != "https"@ {
            Err("Manifesto remoto de "@ + entry_id + " precisa usar HTTPS: "@ + u.1)
        } else {
            Ok(u.1)
        },
    }
}

/// The address of the manifest of `entry` in the catalog at `catalog_url`.
pub fn catalog_manifest_url(catalog_url: &str, entry: &CatalogGameEntry) -> (r: Result<String, String>)
    ensures
        match (r, manifest_url_of(catalog_url@, entry.id@, entry.manifest@)) {
            (Ok(a), Ok(b)) => a@ == b,
            (Err(a), Err(b)) => a@ == b,
            _ => false,
        },
{
    match join_url(catalog_url, entry.manifest.as_str()) {
        Err(e) => {
            let mut m = owned("Não foi possível resolver manifesto de ");
            m.append(entry.id.as_str());
            m.append(" em ");
            m.append(entry.manifest.as_str());
            m.append(": ");
            m.append(e.as_str());
            Err(m)
        },
        Ok((scheme, url)) => {
            if !str_eq(scheme.as_str(), "https") {
                let mut m = owned("Manifesto remoto de ");
                m.append(entry.id.as_str());
                m.append(" precisa usar HTTPS: ");
                m.append(url.as_str());
                Err(m)
            } else {
                Ok(url)
            }
        },
    }
}

// ---------------------------------------------------------------------------
// Lists of games
// ---------------------------------------------------------------------------
/// The games named `n`, in order.
pub open spec fn with_name(s: Seq<GameManifest>, n: Seq<char>) -> Seq<GameManifest>
    decreases s.len(),
{
    if s.len() == 0 {
        s
    } else {
        let r = with_name(s.drop_last(), n);
        if s.last().name@ == n {
            r.push(s.last())
        } else {
            r
        }
    }
}

/// Names never decrease along the list.
pub open spec fn sorted_by_name(s: Seq<GameManifest>) -> bool {
    forall|i: int, j: int| 0 <= i < j < s.len() ==> !text_less(#[trigger] s[j].name@, #[trigger] s[i].name@)
}

proof fn lemma_with_name_concat(a: Seq<GameManifest>, b: Seq<GameManifest>, n: Seq<char>)
    ensures
        with_name(a + b, n) == with_name(a, n) + with_name(b, n),
    decreases b.len(),
{
    if b.len() == 0 {
        assert(a + b =~= a);
        assert(with_name(a, n) + with_name(b, n) =~= with_name(a, n));
    } else {
        lemma_with_name_concat(a, b.drop_last(), n);
        assert((a + b).drop_last() =~= a + b.drop_last());
        assert((a + b).last() == b.last());
        if b.last().name@ == n {
            assert(with_name(a, n) + with_name(b, n) =~= (with_name(a, n) + with_name(
                b.drop_last(),
                n,
            )).push(b.last()));
        }
    }
}

proof fn lemma_with_name_none(s: Seq<GameManifest>, n: Seq<char>)
    requires
        forall|i: int| 0 <= i < s.len() ==> #[trigger] s[i].name@ != n,
    ensures
        with_name(s, n) == Seq::<GameManifest>::empty(),
    decreases s.len(),
{
    if s.len() > 0 {
        lemma_with_name_none(s.drop_last(), n);
        assert(s.last() == s[s.len() - 1]);
    }
}

proof fn lemma_insert_by_name(s: Seq<GameManifest>, j: int, x: GameManifest)
    requires
        0 <= j <= s.len(),
        sorted_by_name(s),
        forall|k: int| 0 <= k < j ==> !text_less(x.name@, #[trigger] s[k].name@),
        forall|k: int| j <= k < s.len() ==> text_less(x.name@, #[trigger] s[k].name@),
    ensures
        sorted_by_name(s.insert(j, x)),
        forall|n: Seq<char>|
            #[trigger] with_name(s.insert(j, x), n) == if n == x.name@ {
                with_name(s, n).push(x)
            } else {
                with_name(s, n)
            },
{
    let t = s.insert(j, x);
    assert forall|p: int, q: int| 0 <= p < q < t.len() implies !text_less(
        #[trigger] t[q].name@,
        #[trigger] t[p].name@,
    ) by {
        if q < j {
            assert(t[p] == s[p] && t[q] == s[q]);
        } else if q == j {
            assert(t[p] == s[p]);
        } else if p == j {
            assert(t[q] == s[q - 1]);
            lemma_text_less_total(x.name@, s[q - 1].name@);
        } else if p < j {
            assert(t[p] == s[p] && t[q] == s[q - 1]);
            lemma_text_less_total(x.name@, s[q - 1].name@);
            lemma_text_less_total(s[p].name@, x.name@);
            if text_less(s[q - 1].name@, s[p].name@) {
                if s[p].name@ == x.name@ {
                } else {
                    lemma_text_less_transitive(s[q - 1].name@, s[p].name@, x.name@);
                }
            }
        } else {
            assert(t[p] == s[p - 1] && t[q] == s[q - 1]);
        }
    }
    let a = s.take(j);
    let b = s.skip(j);
    assert(s =~= a + b);
    assert(t =~= a + seq![x] + b);
    assert forall|n: Seq<char>|
        #[trigger] with_name(s.insert(j, x), n) == if n == x.name@ {
            with_name(s, n).push(x)
        } else {
            with_name(s, n)
        } by {
        lemma_with_name_concat(a, b, n);
        lemma_with_name_concat(a + seq![x], b, n);
        lemma_with_name_concat(a, seq![x], n);
        assert(seq![x].drop_last() =~= Seq::<GameManifest>::empty());
        assert(with_name(Seq::<GameManifest>::empty(), n) =~= Seq::<GameManifest>::empty());
        if n == x.name@ {
            assert forall|i: int| 0 <= i < b.len() implies #[trigger] b[i].name@ != n by {
                assert(b[i] == s[j + i]);
                lemma_text_less_irreflexive(n);
            }
            lemma_with_name_none(b, n);
            assert(with_name(a, n) + Seq::<GameManifest>::empty() =~= with_name(a, n));
            assert(with_name(seq![x], n) =~= seq![x]);
            assert(with_name(a, n) + seq![x] =~= with_name(a, n).push(x));
        } else {
            assert(with_name(seq![x], n) =~= Seq::<GameManifest>::empty());
            assert(with_name(a, n) + Seq::<GameManifest>::empty() =~= with_name(a, n));
        }
    }
}

/// The games ordered by name; games of the same name keep their order
/// (a stable sort).
pub fn sort_games_by_name(games: Vec<GameManifest>) -> (r: Vec<GameManifest>)
    ensures
        sorted_by_name(r@),
        forall|n: Seq<char>| #[trigger] with_name(r@, n) == with_name(games@, n),
{
    let ghost all = games@;
    let mut rest = games;
    let mut out: Vec<GameManifest> = Vec::new();
    let mut k: usize = 0;
    assert(all.take(0) =~= Seq::<GameManifest>::empty());
    assert(rest@ =~= all.skip(0));
    let total = rest.len();
    assert(total == all.len());
    while rest.len() > 0
        invariant
            k + rest.len() == all.len(),
            all.len() <= usize::MAX,
            rest@ == all.skip(k as int),
            sorted_by_name(out@),
            forall|n: Seq<char>| #[trigger] with_name(out@, n) == with_name(all.take(k as int), n),
        decreases rest.len(),
    {
        let x = rest.remove(0);
        assert(x == all[k as int]);
        assert(rest@ =~= all.skip(k + 1));
        let key = chars_of(x.name.as_str());
        let mut j: usize = 0;
        while j < out.len() && !crate::text::chars_less(&key, &chars_of(out[j].name.as_str()))
            invariant
                j <= out.len(),
                key@ == x.name@,
                forall|q: int| 0 <= q < j ==> !text_less(x.name@, #[trigger] out@[q].name@),
            decreases out.len() - j,
        {
            j = j + 1;
        }
        proof {
            if j < out.len() {
                assert(text_less(x.name@, out@[j as int].name@));
                assert forall|q: int| j <= q < out@.len() implies text_less(
                    x.name@,
                    #[trigger] out@[q].name@,
                ) by {
                    if q > j {
                        assert(!text_less(out@[q].name@, out@[j as int].name@));
                        lemma_text_less_total(out@[q].name@, out@[j as int].name@);
                        if out@[q].name@ != out@[j as int].name@ {
                            lemma_text_less_transitive(x.name@, out@[j as int].name@, out@[q].name@);
                        }
                    }
                }
            }
            lemma_insert_by_name(out@, j as int, x);
            assert(all.take(k + 1) =~= all.take(k as int).push(x));
            assert(all.take(k + 1).drop_last() =~= all.take(k as int));
        }
        out.insert(j, x);
        k = k + 1;
    }
    assert(all.take(k as int) =~= all);
    out
}

pub open spec fn duplicate_manifest_text(id: Seq<char>, dir: Seq<char>) -> Seq<char> {
    "Manifesto duplicado para "@ + id + " em "@ + dir + "."@
}

/// Adds a manifest read from the folder `dir` to `games`, refusing a second
/// manifest with the same id.
pub fn push_manifest(games: &mut Vec<GameManifest>, manifest: GameManifest, dir: &str) -> (r: Result<
    (),
    String,
>)
    ensures
        (exists|i: int| 0 <= i < old(games)@.len() && #[trigger] old(games)@[i].id@ == manifest.id@)
            ==> (r is Err && r->Err_0@ == duplicate_manifest_text(manifest.id@, dir@)
            && final(games)@ == old(games)@),
        !(exists|i: int| 0 <= i < old(games)@.len() && #[trigger] old(games)@[i].id@
            == manifest.id@) ==> (r is Ok && final(games)@ == old(games)@.push(manifest)),
{
    let mut i: usize = 0;
    while i < games.len()
        invariant
            i <= games.len(),
            forall|j: int| 0 <= j < i ==> #[trigger] games@[j].id@ != manifest.id@,
        decreases games.len() - i,
    {
        if str_eq(games[i].id.as_str(), manifest.id.as_str()) {
            let mut e = owned("Manifesto duplicado para ");
            e.append(manifest.id.as_str());
            e.append(" em ");
            e.append(dir);
            e.append(".");
            return Err(e);
        }
        i = i + 1;
    }
    games.push(manifest);
    Ok(())
}

/// The games of a manifest folder once all were read: refused when there
/// are none, else ordered by name.
pub fn finish_manifests(dir: &str, games: Vec<GameManifest>) -> (r: Result<Vec<GameManifest>, String>)
    ensures
        games.len() == 0 ==> r is Err && r->Err_0@ == "Nenhum manifesto encontrado em "@ + dir@ + "."@,
        games.len() > 0 ==> r is Ok && sorted_by_name(r->Ok_0@) && forall|n: Seq<char>|
            #[trigger] with_name(r->Ok_0@, n) == with_name(games@, n),
{
    if games.len() == 0 {
        let mut e = owned("Nenhum manifesto encontrado em ");
        e.append(dir);
        e.append(".");
        return Err(e);
    }
    Ok(sort_games_by_name(games))
}

/// The games of the cached remote catalog once read: refused when none is
/// enabled, else ordered by name.
pub fn finish_cached_games(games: Vec<GameManifest>) -> (r: Result<Vec<GameManifest>, String>)
    ensures
        games.len() == 0 ==> r is Err && r->Err_0@
            == "O catálogo remoto em cache não possui jogos habilitados."@,
        games.len() > 0 ==> r is Ok && sorted_by_name(r->Ok_0@) && forall|n: Seq<char>|
            #[trigger] with_name(r->Ok_0@, n) == with_name(games@, n),
{
    if games.len() == 0 {
        return Err(owned("O catálogo remoto em cache não possui jogos habilitados."));
    }
    Ok(sort_games_by_name(games))
}

/// The entries of an index that are enabled, in order, as positions.
pub fn enabled_entries(index: &CatalogIndex) -> (r: Vec<usize>)
    ensures
        forall|k: int| 0 <= k < r.len() ==> #[trigger] r@[k] < index.games.len() && index.games@[r@[k] as int].enabled,
        forall|k: int, l: int| 0 <= k < l < r.len() ==> #[trigger] r@[k] < #[trigger] r@[l],
        forall|i: int| 0 <= i < index.games.len() && #[trigger] index.games@[i].enabled ==> r@.contains(i as usize),
{
    let mut r: Vec<usize> = Vec::new();
    let mut i: usize = 0;
    while i < index.games.len()
        invariant
            i <= index.games.len(),
            forall|k: int| 0 <= k < r.len() ==> #[trigger] r@[k] < i && index.games@[r@[k] as int].enabled,
            forall|k: int, l: int| 0 <= k < l < r.len() ==> #[trigger] r@[k] < #[trigger] r@[l],
            forall|j: int| 0 <= j < i && #[trigger] index.games@[j].enabled ==> r@.contains(j as usize),
        decreases index.games.len() - i,
    {
        if index.games[i].enabled {
            let ghost before = r@;
            r.push(i);
            assert forall|j: int| 0 <= j < i + 1 && #[trigger] index.games@[j].enabled implies r@.contains(
                j as usize,
            ) by {
                if j < i {
                    let w = choose|w: int| 0 <= w < before.len() && before[w] == j as usize;
                    assert(r@[w] == j as usize);
                } else {
                    assert(r@[r.len() - 1] == j as usize);
                }
            }
        }
        i = i + 1;
    }
    r
}

/// The path of an enabled entry's manifest in a catalog folder.
pub fn cached_manifest_path(catalog_dir: &str, game_id: &str) -> (r: String)
    ensures
        r@ == crate::paths::join(crate::paths::join(catalog_dir@, "manifests"@), game_id@ + ".json"@),
{
    let a = crate::paths::path_join(&chars_of(catalog_dir), &chars_of("manifests"));
    let mut name = owned(game_id);
    name.append(".json");
    string_of(&crate::paths::path_join(&a, &chars_of(name.as_str())))
}

/// The error when neither the cached catalog nor the embedded manifests load.
pub fn no_catalog_error(cache_error: &str, embedded_error: &str) -> (r: String)
    ensures
        r@ == "Não foi possível carregar catálogo remoto nem fallback embutido. Cache: "@
            + cache_error@ + " Fallback: "@ + embedded_error@,
{
    let mut m = owned("Não foi possível carregar catálogo remoto nem fallback embutido. Cache: ");
    m.append(cache_error);
    m.append(" Fallback: ");
    m.append(embedded_error);
    m
}

/// The texts joined with single spaces.
pub open spec fn joined_with_spaces(parts: Seq<Seq<char>>) -> Seq<char>
    decreases parts.len(),
{
    if parts.len() == 0 {
        Seq::empty()
    } else if parts.len() == 1 {
        parts[0]
    } else {
        joined_with_spaces(parts.drop_last()) + " "@ + parts.last()
    }
}

/// The error when no embedded manifest folder loads: the errors met, joined
/// by spaces, or a note that no folder was found.
pub fn embedded_games_error(errors: &Vec<String>) -> (r: String)
    ensures
        errors.len() == 0 ==> r@ == "Nenhum diretório de manifestos embutidos foi encontrado."@,
        errors.len() > 0 ==> r@ == joined_with_spaces(errors.deep_view()),
{
    if errors.len() == 0 {
        return owned("Nenhum diretório de manifestos embutidos foi encontrado.");
    }
    let ghost ev = errors.deep_view();
    let mut m = errors[0].clone();
    let mut i: usize = 1;
    assert(ev.take(1) =~= seq![ev[0]]);
    while i < errors.len()
        invariant
            1 <= i <= errors.len(),
            ev == errors.deep_view(),
            m@ == joined_with_spaces(ev.take(i as int)),
        decreases errors.len() - i,
    {
        assert(ev.take(i + 1).drop_last() =~= ev.take(i as int));
        assert(ev.take(i + 1).last() == errors@[i as int]@);
        m.append(" ");
        m.append(errors[i].as_str());
        i = i + 1;
    }
    assert(ev.take(errors.len() as int) =~= ev);
    m
}

/// The catalog address shown: the recorded one, or the official one when none
/// was recorded.
pub fn status_remote_url(recorded: &str, default_url: &str) -> (r: String)
    ensures
        recorded@.len() == 0 ==> r@ == default_url@,
        recorded@.len() > 0 ==> r@ == recorded@,
{
    if recorded.is_empty() {
        owned(default_url)
    } else {
        owned(recorded)
    }
}

} // verus!
