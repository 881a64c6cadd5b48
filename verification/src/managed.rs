//! Proton-GE builds that the launcher installs itself: their identifiers and
//! folders, the package chosen from a release, and the checks on a package
//! and on a removal.
use vstd::prelude::*;
use crate::text::{
    chars_of, copy_string, decimal, decimal_string, ends_with, ends_with_text, lower_chars,
    lower_seq, owned, str_eq, string_of, strip_end, strip_end_chars, strip_start,
    strip_start_chars,
};
use crate::text::{lemma_strip_end_shape, lemma_strip_start_shape};
use crate::paths::{components, parts_view, path_components, path_eq, Comp, PathPart};
use crate::archive::escapes;

verus! {

/// Characters kept in a runner folder name: ASCII letters and digits, `-`,
/// `_`, `.`.
pub open spec fn runner_segment_char(c: char) -> bool {
    ('0' <= c && c <= '9') || ('a' <= c && c <= 'z') || ('A' <= c && c <= 'Z') || c == '-' || c
        == '_' || c == '.'
}

/// `value` with every other character replaced by `-`, without `-` at
/// either end.
pub open spec fn safe_segment_text(value: Seq<char>) -> Seq<char> {
    let mapped = value.map_values(|c: char| if runner_segment_char(c) { c } else { '-' });
    strip_end(strip_start(mapped, Some('-')), Some('-'))
}

/// `value` made safe as a folder name.
pub fn safe_segment(value: &str) -> (r: String)
    ensures
        r@ == safe_segment_text(value@),
{
    let v = chars_of(value);
    let mut mapped: Vec<char> = Vec::new();
    let mut i: usize = 0;
    while i < v.len()
        invariant
            i <= v.len(),
            mapped@ == v@.take(i as int).map_values(
                |c: char| if runner_segment_char(c) { c } else { '-' },
            ),
        decreases v.len() - i,
    {
        let c = v[i];
        let keep = ('0' <= c && c <= '9') || ('a' <= c && c <= 'z') || ('A' <= c && c <= 'Z') || c
            == '-' || c == '_' || c == '.';
        mapped.push(
            if keep {
                c
            } else {
                '-'
            },
        );
        assert(v@.take(i + 1).map_values(|c: char| if runner_segment_char(c) { c } else { '-' })
            =~= v@.take(i as int).map_values(
            |c: char| if runner_segment_char(c) { c } else { '-' },
        ).push(if runner_segment_char(c) { c } else { '-' }));
        i = i + 1;
    }
    assert(v@.take(v.len() as int) =~= v@);
    let a = strip_start_chars(&mapped, Some('-'));
    string_of(&strip_end_chars(&a, Some('-')))
}

/// The identifier of the managed Proton-GE build `version`. The safe segment
/// holds ASCII characters only, so its lowercase form is the ASCII one.
pub open spec fn runner_id_text(version: Seq<char>) -> Seq<char> {
    "managed-proton-ge-"@ + lower_seq(safe_segment_text(version))
}

/// The identifier of the managed Proton-GE build `version`.
pub fn runner_id(version: &str) -> (r: String)
    ensures
        r@ == runner_id_text(version@),
{
    let s = safe_segment(version);
    let l = string_of(&lower_chars(&chars_of(s.as_str())));
    let mut r = owned("managed-proton-ge-");
    r.append(l.as_str());
    r
}

pub open spec fn unsafe_package_path_text(path: Seq<char>) -> Seq<char> {
    "O pacote contém um caminho inseguro: "@ + path
}

/// Whether a path in a package stays inside the folder it is extracted to.
pub open spec fn package_path_ok(path: Seq<char>) -> bool {
    let cs = components(path);
    !(path.len() > 0 && path[0] == '/') && forall|i: int|
        0 <= i < cs.len() ==> !escapes(#[trigger] cs[i])
}

/// Accepts a path from a Proton-GE package when it is relative and does not
/// climb out.
pub fn validate_archive_path(path: &str) -> (r: Result<(), String>)
    ensures
        r is Ok <==> package_path_ok(path@),
        r is Err ==> r->Err_0@ == unsafe_package_path_text(path@),
{
    let p = chars_of(path);
    let refuse = p.len() > 0 && p[0] == '/';
    let parts = path_components(&p);
    let ghost cs = parts_view(parts@);
    let mut i: usize = 0;
    let mut bad = refuse;
    while i < parts.len() && !bad
        invariant
            i <= parts.len(),
            cs == parts_view(parts@),
            cs == components(path@),
            bad == (refuse || exists|k: int| 0 <= k < i && escapes(#[trigger] cs[k])),
            refuse == (path@.len() > 0 && path@[0] == '/'),
        decreases parts.len() - i,
    {
        assert(cs[i as int] == parts@[i as int]@);
        match &parts[i] {
            PathPart::Root | PathPart::Parent => {
                assert(escapes(cs[i as int]));
                bad = true;
            },
            _ => {
                assert forall|k: int| 0 <= k < i + 1 && escapes(#[trigger] cs[k]) implies 0 <= k
                    < i by {}
            },
        }
        i = i + 1;
    }
    if bad {
        let mut e = owned("O pacote contém um caminho inseguro: ");
        e.append(path);
        Err(e)
    } else {
        Ok(())
    }
}

/// A folder name made safe holds only safe characters, has no `-` at either
/// end, and making it safe again changes nothing.
pub proof fn lemma_safe_segment(value: Seq<char>)
    ensures
        forall|i: int|
            0 <= i < safe_segment_text(value).len() ==> runner_segment_char(
                #[trigger] safe_segment_text(value)[i],
            ),
        safe_segment_text(value).len() > 0 ==> safe_segment_text(value)[0] != '-'
            && safe_segment_text(value).last() != '-',
        safe_segment_text(safe_segment_text(value)) == safe_segment_text(value),
{
    let mapped = value.map_values(|c: char| if runner_segment_char(c) { c } else { '-' });
    let a = strip_start(mapped, Some('-'));
    let b = strip_end(a, Some('-'));
    lemma_strip_start_shape(mapped, Some('-'));
    lemma_strip_end_shape(a, Some('-'));
    let ka = choose|k: int| 0 <= k <= mapped.len() && a == mapped.skip(k);
    let kb = choose|k: int| 0 <= k <= a.len() && b == a.take(k);
    assert forall|i: int| 0 <= i < b.len() implies runner_segment_char(#[trigger] b[i]) by {
        assert(b[i] == a[i]);
        assert(a[i] == mapped[ka + i]);
    }
    if b.len() > 0 {
        assert(b[0] == a[0]);
    }
    let again = b.map_values(|c: char| if runner_segment_char(c) { c } else { '-' });
    assert(again =~= b);
    lemma_strip_start_shape(b, Some('-'));
    lemma_strip_end_shape(b, Some('-'));
}

/// The identifier of a managed Proton-GE build starts with
/// `managed-proton-ge-`.
pub proof fn lemma_runner_id_prefix(version: Seq<char>)
    ensures
        crate::text::starts_with(runner_id_text(version), "managed-proton-ge-"@),
{
    assert(runner_id_text(version).subrange(0, "managed-proton-ge-"@.len() as int) =~= "managed-proton-ge-"@);
}

// ---------------------------------------------------------------------------
// Releases
// ---------------------------------------------------------------------------
/// The latest Proton-GE release, as offered to the user.
#[derive(Clone, Debug)]
pub struct ManagedRunnerRelease {
    pub version: String,
    pub name: String,
    pub download_url: String,
    pub size: u64,
    pub release_url: String,
    pub installed: bool,
    pub runner_id: String,
}

pub open spec fn no_package_text() -> Seq<char> {
    "A release mais recente do Proton-GE não possui pacote .tar.gz."@
}

/// The package of a release: the first asset whose name ends in `.tar.gz`.
pub fn release_package_index(asset_names: &Vec<String>) -> (r: Result<usize, String>)
    ensures
        match r {
            Ok(i) => i < asset_names.len() && ends_with(asset_names@[i as int]@, ".tar.gz"@)
                && forall|j: int| 0 <= j < i ==> !ends_with(#[trigger] asset_names@[j]@, ".tar.gz"@),
            Err(e) => e@ == no_package_text() && forall|j: int|
                0 <= j < asset_names.len() ==> !ends_with(#[trigger] asset_names@[j]@, ".tar.gz"@),
        },
{
    let mut i: usize = 0;
    while i < asset_names.len()
        invariant
            i <= asset_names.len(),
            forall|j: int| 0 <= j < i ==> !ends_with(#[trigger] asset_names@[j]@, ".tar.gz"@),
        decreases asset_names.len() - i,
    {
        if ends_with_text(&chars_of(asset_names[i].as_str()), ".tar.gz") {
            return Ok(i);
        }
        i = i + 1;
    }
    Err(owned("A release mais recente do Proton-GE não possui pacote .tar.gz."))
}

/// The release record for tag `tag_name`: named by the release's name or,
/// without one, by its tag; its identifier derived from the tag.
pub fn managed_runner_release(
    tag_name: &str,
    name: Option<&str>,
    html_url: &str,
    download_url: &str,
    size: u64,
    installed: bool,
) -> (r: ManagedRunnerRelease)
    ensures
        r.version@ == tag_name@,
        r.name@ == match name {
            Some(n) => n@,
            None => tag_name@,
        },
        r.download_url@ == download_url@,
        r.size == size,
        r.release_url@ == html_url@,
        r.installed == installed,
        r.runner_id@ == runner_id_text(tag_name@),
{
    ManagedRunnerRelease {
        version: owned(tag_name),
        name: match name {
            Some(n) => owned(n),
            None => owned(tag_name),
        },
        download_url: owned(download_url),
        size,
        release_url: owned(html_url),
        installed,
        runner_id: runner_id(tag_name),
    }
}

/// The folder name of a release version, refused when nothing safe is left.
pub fn release_version_segment(version: &str) -> (r: Result<String, String>)
    ensures
        safe_segment_text(version@).len() > 0 ==> r is Ok && r->Ok_0@ == safe_segment_text(
            version@,
        ),
        safe_segment_text(version@).len() == 0 ==> r is Err && r->Err_0@
            == "A versão retornada pelo GitHub não gera um diretório seguro."@,
{
    let s = safe_segment(version);
    if s.as_str().is_empty() {
        return Err(owned("A versão retornada pelo GitHub não gera um diretório seguro."));
    }
    Ok(s)
}

pub open spec fn incomplete_download_text(expected: u64, received: u64) -> Seq<char> {
    "Download incompleto: esperado "@ + decimal(expected as nat) + " bytes, recebido "@ + decimal(
        received as nat,
    ) + "."@
}

/// Checks that a package download is complete: when the release states a
/// size, that many bytes must have arrived.
pub fn check_download_size(expected: u64, received: u64) -> (r: Result<(), String>)
    ensures
        r is Ok <==> (expected == 0 || received == expected),
        r is Err ==> r->Err_0@ == incomplete_download_text(expected, received),
{
    if expected > 0 && received != expected {
        let mut m = owned("Download incompleto: esperado ");
        let a = decimal_string(expected);
        m.append(a.as_str());
        m.append(" bytes, recebido ");
        let b = decimal_string(received);
        m.append(b.as_str());
        m.append(".");
        return Err(m);
    }
    Ok(())
}

// ---------------------------------------------------------------------------
// Removal
// ---------------------------------------------------------------------------
/// Whether the components of `root` begin those of `p` (`Path::starts_with`).
pub open spec fn path_starts_with(p: Seq<char>, root: Seq<char>) -> bool {
    let a = components(p);
    let b = components(root);
    b.len() <= a.len() && a.subrange(0, b.len() as int) == b
}

pub open spec fn removal_error(source: Seq<char>, root: Seq<char>, install: Seq<char>) -> Option<
    Seq<char>,
> {
    if source != "Launcher"@ {
        Some("Somente runners instalados pelo launcher podem ser removidos."@)
    } else if components(install) == components(root) || !path_starts_with(install, root) {
        Some("O runner está fora da pasta gerenciada e não pode ser removido."@)
    } else {
        None
    }
}

/// Checks that a managed runner may be removed: it was installed by the
/// launcher and its folder lies strictly inside the runners folder (both
/// paths already resolved).
pub fn check_runner_removal(source: &str, runners_root: &str, install_path: &str) -> (r: Result<
    (),
    String,
>)
    ensures
        match removal_error(source@, runners_root@, install_path@) {
            Some(e) => r is Err && r->Err_0@ == e,
            None => r is Ok,
        },
{
    if !str_eq(source, "Launcher") {
        return Err(owned("Somente runners instalados pelo launcher podem ser removidos."));
    }
    let root = chars_of(runners_root);
    let install = chars_of(install_path);
    let a = path_components(&install);
    let b = path_components(&root);
    let ghost av = parts_view(a@);
    let ghost bv = parts_view(b@);
    assert(av.len() == a.len() && bv.len() == b.len());
    let same = path_eq(&install, &root);
    let mut inside = b.len() <= a.len();
    let mut i: usize = 0;
    while inside && i < b.len()
        invariant
            i <= b.len(),
            inside ==> b.len() <= a.len(),
            av == parts_view(a@),
            bv == parts_view(b@),
            av == components(install_path@),
            bv == components(runners_root@),
            inside == (b.len() <= a.len() && forall|k: int| 0 <= k < i ==> av[k] == bv[k]),
        decreases b.len() - i,
    {
        assert(av[i as int] == a@[i as int]@);
        assert(bv[i as int] == b@[i as int]@);
        if !crate::paths::part_eq(&a[i], &b[i]) {
            inside = false;
        }
        i = i + 1;
    }
    proof {
        if inside {
            assert(av.subrange(0, bv.len() as int) =~= bv);
        }
        if b.len() <= a.len() && av.subrange(0, bv.len() as int) == bv && i == b.len() {
            assert forall|k: int| 0 <= k < i implies av[k] == bv[k] by {
                assert(av.subrange(0, bv.len() as int)[k] == av[k]);
            }
        }
        if !inside && b.len() <= a.len() {
            let k = choose|k: int| 0 <= k < i && av[k] != bv[k];
            assert(av.subrange(0, bv.len() as int)[k] != bv[k]);
        }
    }
    if same || !inside {
        return Err(owned("O runner está fora da pasta gerenciada e não pode ser removido."));
    }
    Ok(())
}

} // verus!
