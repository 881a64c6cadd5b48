//! Archive formats and the safety rules for the paths inside an archive.
use vstd::prelude::*;
use crate::text::{
    after_last, before_first, before_first_chars, chars_of, copy_chars, ends_with,
    ends_with_text, eq_text, join2, join3, lower_chars, lower_seq, owned, replace_char,
    replace_chars, strip_start, strip_start_chars, string_of, trim, trim_chars,
};
use crate::paths::{
    components, join, path_components, path_join, parts_view, render, render_parts, Comp, PathPart,
};

verus! {

/// The archive formats the installer extracts.
#[derive(Debug, Clone, Copy, PartialEq, Eq, Structural)]
pub enum ArchiveFormat {
    Zip,
    Tar,
    TarGz,
    TarBz2,
}

/// A format name after normalisation: trimmed, leading dots removed,
/// ASCII-lowercased, `_` and `-` read as `.`.
pub open spec fn normalize_format_name(value: Seq<char>) -> Seq<char> {
    replace_char(
        replace_char(lower_seq(strip_start(trim(value), Some('.'))), '_', '.'),
        '-',
        '.',
    )
}

/// The format a normalised name stands for.
pub open spec fn format_named(n: Seq<char>) -> Option<ArchiveFormat> {
    if n == "zip"@ {
        Some(ArchiveFormat::Zip)
    } else if n == "tar"@ {
        Some(ArchiveFormat::Tar)
    } else if n == "tar.gz"@ || n == "tgz"@ || n == "gzip"@ || n == "gz"@ {
        Some(ArchiveFormat::TarGz)
    } else if n == "tar.bz2"@ || n == "tbz2"@ || n == "tbz"@ || n == "bzip2"@ || n == "bz2"@ {
        Some(ArchiveFormat::TarBz2)
    } else {
        None
    }
}

/// The format that `ArchiveFormat::parse` reads in `value`.
pub open spec fn parsed_format(value: Seq<char>) -> Option<ArchiveFormat> {
    format_named(normalize_format_name(value))
}

/// The part of a source that names the file: before any `#`, then before any `?`.
pub open spec fn source_file_part(source: Seq<char>) -> Seq<char> {
    lower_seq(before_first(before_first(source, '#'), '?'))
}

/// The format that `ArchiveFormat::infer` reads from the extension of `source`;
/// compound extensions are tried before simple ones.
pub open spec fn inferred_format(source: Seq<char>) -> Option<ArchiveFormat> {
    let f = source_file_part(source);
    if ends_with(f, ".tar.gz"@) || ends_with(f, ".tgz"@) {
        Some(ArchiveFormat::TarGz)
    } else if ends_with(f, ".tar.bz2"@) || ends_with(f, ".tbz2"@) || ends_with(f, ".tbz"@) {
        Some(ArchiveFormat::TarBz2)
    } else if ends_with(f, ".zip"@) {
        Some(ArchiveFormat::Zip)
    } else if ends_with(f, ".tar"@) {
        Some(ArchiveFormat::Tar)
    } else {
        None
    }
}

proof fn lemma_plain_name_normalizes(s: Seq<char>)
    requires
        s.len() > 0,
        s[0] != '.',
        forall|i: int|
            0 <= i < s.len() ==> crate::text::is_lower_letter(#[trigger] s[i])
                || crate::text::is_digit(s[i]) || s[i] == '.',
    ensures
        normalize_format_name(s) == s,
{
    crate::text::lemma_strip_start_shape(s, None);
    crate::text::lemma_strip_end_shape(s, None);
    crate::text::lemma_strip_start_shape(s, Some('.'));
    assert(s.last() == s[s.len() - 1]);
    assert(trim(s) == s);
    assert(lower_seq(s) =~= s);
    assert(replace_char(s, '_', '.') =~= s);
    assert(replace_char(s, '-', '.') =~= s);
}

/// The name the launcher writes for a format reads back as that format.
pub proof fn lemma_canonical_name_round_trip(f: ArchiveFormat)
    ensures
        parsed_format(canonical_text(f)) == Some(f),
{
    reveal_strlit("zip");
    reveal_strlit("tar");
    reveal_strlit("tar.gz");
    reveal_strlit("tgz");
    reveal_strlit("gzip");
    reveal_strlit("gz");
    reveal_strlit("tar.bz2");
    let t = canonical_text(f);
    assert forall|i: int|
        0 <= i < t.len() implies crate::text::is_lower_letter(#[trigger] t[i])
        || crate::text::is_digit(t[i]) || t[i] == '.' by {}
    lemma_plain_name_normalizes(t);
}

/// `char::to_ascii_uppercase`.
pub open spec fn ascii_upper(c: char) -> char {
    if crate::text::is_lower_letter(c) {
        ((c as u32) - 32) as char
    } else {
        c
    }
}

/// A text in ASCII uppercase (`str::to_ascii_uppercase`).
pub open spec fn upper_seq(s: Seq<char>) -> Seq<char> {
    s.map_values(|c: char| ascii_upper(c))
}

/// A format name as a person might write it: a space and a dot before, a
/// space after, in uppercase, with `-` for each `.`.
pub open spec fn decorated_name(t: Seq<char>) -> Seq<char> {
    seq![' ', '.'] + t.map_values(|c: char| if c == '.' { '-' } else { ascii_upper(c) }) + seq![' ']
}

proof fn lemma_upper_lower(c: char)
    ensures
        crate::text::lower(ascii_upper(c)) == crate::text::lower(c),
        ascii_upper(c) == '#' <==> c == '#',
        ascii_upper(c) == '?' <==> c == '?',
        ascii_upper(c) == '.' <==> c == '.',
        ascii_upper(c) == '-' <==> c == '-',
        ascii_upper(c) == '_' <==> c == '_',
        crate::text::is_space(ascii_upper(c)) <==> crate::text::is_space(c),
{
}

proof fn lemma_before_first_concat(s: Seq<char>, t: Seq<char>, c: char)
    requires
        !s.contains(c),
    ensures
        before_first(s + t, c) == s + before_first(t, c),
    decreases s.len(),
{
    if s.len() == 0 {
        assert(s + t =~= t);
        assert(s + before_first(t, c) =~= before_first(t, c));
    } else {
        assert((s + t)[0] == s[0]);
        assert((s + t).drop_first() =~= s.drop_first() + t);
        assert(!s.drop_first().contains(c)) by {
            if s.drop_first().contains(c) {
                let k = choose|k: int| 0 <= k < s.drop_first().len() && s.drop_first()[k] == c;
                assert(s[k + 1] == c);
            }
        }
        lemma_before_first_concat(s.drop_first(), t, c);
        assert(seq![s[0]] + (s.drop_first() + before_first(t, c)) =~= s + before_first(t, c));
    }
}

proof fn lemma_before_first_absent(s: Seq<char>, c: char)
    requires
        !s.contains(c),
    ensures
        before_first(s, c) == s,
{
    lemma_before_first_concat(s, Seq::empty(), c);
    assert(s + Seq::<char>::empty() =~= s);
}

/// The format inferred from a source is decided by its file part alone:
/// a query (`?`) or fragment (`#`) appended to a source without either
/// changes nothing, and neither does writing the source in uppercase.
pub proof fn lemma_inferred_format_ignores_query_fragment_and_case(s: Seq<char>, q: Seq<char>)
    requires
        !s.contains('#'),
        !s.contains('?'),
    ensures
        inferred_format(s + seq!['?'] + q) == inferred_format(s),
        inferred_format(s + seq!['#'] + q) == inferred_format(s),
        inferred_format(upper_seq(s)) == inferred_format(s),
{
    lemma_before_first_absent(s, '#');
    lemma_before_first_absent(s, '?');
    assert(source_file_part(s) == lower_seq(s));
    // A query: everything from the `?` on is dropped.
    let x = s + seq!['?'] + q;
    assert(x =~= s + (seq!['?'] + q));
    lemma_before_first_concat(s, seq!['?'] + q, '#');
    assert((seq!['?'] + q).drop_first() =~= q);
    assert(before_first(seq!['?'] + q, '#') == seq!['?'] + before_first(q, '#'));
    lemma_before_first_concat(s, seq!['?'] + before_first(q, '#'), '?');
    assert(before_first(seq!['?'] + before_first(q, '#'), '?') =~= Seq::<char>::empty());
    assert(s + Seq::<char>::empty() =~= s);
    assert(source_file_part(x) == lower_seq(s));
    // A fragment: everything from the `#` on is dropped.
    let y = s + seq!['#'] + q;
    assert(y =~= s + (seq!['#'] + q));
    lemma_before_first_concat(s, seq!['#'] + q, '#');
    assert(before_first(seq!['#'] + q, '#') =~= Seq::<char>::empty());
    assert(source_file_part(y) == lower_seq(s));
    // Uppercase: the separators stay, and lowercase undoes it.
    let u = upper_seq(s);
    assert(!u.contains('#')) by {
        if u.contains('#') {
            let k = choose|k: int| 0 <= k < u.len() && u[k] == '#';
            lemma_upper_lower(s[k]);
        }
    }
    assert(!u.contains('?')) by {
        if u.contains('?') {
            let k = choose|k: int| 0 <= k < u.len() && u[k] == '?';
            lemma_upper_lower(s[k]);
        }
    }
    lemma_before_first_absent(u, '#');
    lemma_before_first_absent(u, '?');
    assert forall|k: int| 0 <= k < s.len() implies #[trigger] lower_seq(u)[k] == lower_seq(s)[k] by {
        lemma_upper_lower(s[k]);
    }
    assert(lower_seq(u) =~= lower_seq(s));
}

/// A canonical format name reads back as its format however it is dressed:
/// with spaces around it, a leading dot, in uppercase, and with `-` for
/// each `.`.
pub proof fn lemma_decorated_name_round_trip(f: ArchiveFormat)
    ensures
        parsed_format(decorated_name(canonical_text(f))) == Some(f),
{
    reveal_strlit("zip");
    reveal_strlit("tar");
    reveal_strlit("tar.gz");
    reveal_strlit("tgz");
    reveal_strlit("gzip");
    reveal_strlit("gz");
    reveal_strlit("tar.bz2");
    let t = canonical_text(f);
    let m = t.map_values(|c: char| if c == '.' { '-' } else { ascii_upper(c) });
    let d = decorated_name(t);
    assert(t.len() > 0 && t[0] != '.');
    assert forall|i: int| 0 <= i < t.len() implies (crate::text::is_lower_letter(#[trigger] t[i])
        || crate::text::is_digit(t[i]) || t[i] == '.') by {}
    // Trimming drops the two spaces.
    assert(!crate::text::is_space(d[1]));
    assert(crate::text::is_space(d[0]));
    assert(d.drop_first()[0] == '.');
    crate::text::lemma_strip_start_shape(d.drop_first(), None);
    assert(strip_start(d, None) == d.drop_first());
    let e = d.drop_first();
    assert(e.last() == ' ');
    assert(e.drop_last() =~= seq!['.'] + m);
    lemma_upper_lower(t[t.len() - 1]);
    assert(m.last() == m[m.len() - 1]);
    assert(!crate::text::is_space(m.last()));
    assert((seq!['.'] + m).last() == m.last());
    assert(crate::text::strip_end(seq!['.'] + m, None) == seq!['.'] + m);
    assert(crate::text::strip_end(e, None) == seq!['.'] + m);
    assert(trim(d) == seq!['.'] + m);
    // The leading dot goes.
    let g = seq!['.'] + m;
    assert(g.drop_first() =~= m);
    lemma_upper_lower(t[0]);
    assert(m[0] != '.');
    assert(strip_start(m, Some('.')) == m);
    assert(strip_start(g, Some('.')) == m);
    // Lowercase, then `-` back to `.`.
    assert forall|k: int| 0 <= k < t.len() implies #[trigger] replace_char(
        replace_char(lower_seq(m), '_', '.'),
        '-',
        '.',
    )[k] == t[k] by {
        lemma_upper_lower(t[k]);
    }
    assert(replace_char(replace_char(lower_seq(m), '_', '.'), '-', '.') =~= t);
    lemma_canonical_name_round_trip(f);
    lemma_plain_name_normalizes(t);
}

pub open spec fn supported_formats_text() -> Seq<char> {
    "Formatos aceitos: zip, tar, tar.gz/tgz e tar.bz2/tbz2."@
}

pub open spec fn unsupported_format_text(value: Seq<char>) -> Seq<char> {
    "Formato de arquivo não suportado: `"@ + value + "`. "@ + supported_formats_text()
}

pub open spec fn uninferable_format_text(source: Seq<char>) -> Seq<char> {
    "Não foi possível inferir o formato do arquivo por `"@ + source
        + "`. Defina installation.methods[].format. "@ + supported_formats_text()
}

pub open spec fn canonical_text(f: ArchiveFormat) -> Seq<char> {
    match f {
        ArchiveFormat::Zip => "zip"@,
        ArchiveFormat::Tar => "tar"@,
        ArchiveFormat::TarGz => "tar.gz"@,
        ArchiveFormat::TarBz2 => "tar.bz2"@,
    }
}

/// The result of `ArchiveFormat::resolve`: a non-blank explicit format
/// decides alone, otherwise the source's extension.
pub open spec fn resolved_format(explicit: Option<Seq<char>>, source: Seq<char>) -> Result<
    ArchiveFormat,
    Seq<char>,
> {
    if explicit is Some && trim(explicit->0).len() > 0 {
        let e = trim(explicit->0);
        match parsed_format(e) {
            Some(f) => Ok(f),
            None => Err(unsupported_format_text(e)),
        }
    } else {
        match inferred_format(source) {
            Some(f) => Ok(f),
            None => Err(uninferable_format_text(source)),
        }
    }
}

impl ArchiveFormat {
    /// The format named by `explicit` when it is given and not blank, else
    /// the one inferred from the extension of `source`.
    pub fn resolve(explicit: Option<&str>, source: &str) -> (r: Result<Self, String>)
        ensures
            match (r, resolved_format(
                match explicit {
                    Some(e) => Some(e@),
                    None => None,
                },
                source@,
            )) {
                (Ok(f), Ok(g)) => f == g,
                (Err(m), Err(n)) => m@ == n,
                _ => false,
            },
    {
        if let Some(e) = explicit {
            let ec = chars_of(e);
            let trimmed = trim_chars(&ec);
            if trimmed.len() > 0 {
                let text = string_of(&trimmed);
                return match Self::parse(text.as_str()) {
                    Some(f) => Ok(f),
                    None => Err(unsupported_format_error(text.as_str())),
                };
            }
        }
        match Self::infer(source) {
            Some(f) => Ok(f),
            None => Err(join4_literal_source(source)),
        }
    }

    /// The format a configured name stands for, if any.
    pub fn parse(value: &str) -> (r: Option<Self>)
        ensures
            r == parsed_format(value@),
    {
        let v = chars_of(value);
        let a = trim_chars(&v);
        let b = strip_start_chars(&a, Some('.'));
        let c = lower_chars(&b);
        let d = replace_chars(&c, '_', '.');
        let n = replace_chars(&d, '-', '.');
        if eq_text(&n, "zip") {
            Some(ArchiveFormat::Zip)
        } else if eq_text(&n, "tar") {
            Some(ArchiveFormat::Tar)
        } else if eq_text(&n, "tar.gz") || eq_text(&n, "tgz") || eq_text(&n, "gzip") || eq_text(
            &n,
            "gz",
        ) {
            Some(ArchiveFormat::TarGz)
        } else if eq_text(&n, "tar.bz2") || eq_text(&n, "tbz2") || eq_text(&n, "tbz") || eq_text(
            &n,
            "bzip2",
        ) || eq_text(&n, "bz2") {
            Some(ArchiveFormat::TarBz2)
        } else {
            None
        }
    }

    /// The format given by the extension of `source`, ignoring any query
    /// string or fragment.
    pub fn infer(source: &str) -> (r: Option<Self>)
        ensures
            r == inferred_format(source@),
    {
        let s = chars_of(source);
        let a = before_first_chars(&s, '#');
        let b = before_first_chars(&a, '?');
        let f = lower_chars(&b);
        if ends_with_text(&f, ".tar.gz") || ends_with_text(&f, ".tgz") {
            Some(ArchiveFormat::TarGz)
        } else if ends_with_text(&f, ".tar.bz2") || ends_with_text(&f, ".tbz2") || ends_with_text(
            &f,
            ".tbz",
        ) {
            Some(ArchiveFormat::TarBz2)
        } else if ends_with_text(&f, ".zip") {
            Some(ArchiveFormat::Zip)
        } else if ends_with_text(&f, ".tar") {
            Some(ArchiveFormat::Tar)
        } else {
            None
        }
    }

    /// The name the launcher writes for this format.
    pub fn canonical_name(self) -> (r: &'static str)
        ensures
            r@ == canonical_text(self),
    {
        match self {
            ArchiveFormat::Zip => "zip",
            ArchiveFormat::Tar => "tar",
            ArchiveFormat::TarGz => "tar.gz",
            ArchiveFormat::TarBz2 => "tar.bz2",
        }
    }
}

fn join4_literal_source(source: &str) -> (r: String)
    ensures
        r@ == uninferable_format_text(source@),
{
    let mut r = owned("Não foi possível inferir o formato do arquivo por `");
    r.append(source);
    r.append("`. Defina installation.methods[].format. ");
    r.append(supported_formats_message());
    r
}

/// The sentence that lists the accepted formats.
pub fn supported_formats_message() -> (r: &'static str)
    ensures
        r@ == supported_formats_text(),
{
    "Formatos aceitos: zip, tar, tar.gz/tgz e tar.bz2/tbz2."
}

/// The error for a format name that is not supported.
pub fn unsupported_format_error(value: &str) -> (r: String)
    ensures
        r@ == unsupported_format_text(value@),
{
    let mut r = owned("Formato de arquivo não suportado: `");
    r.append(value);
    r.append("`. ");
    r.append(supported_formats_message());
    r
}

/// The ordinary names among `cs`, in order.
pub open spec fn normals(cs: Seq<Comp>) -> Seq<Comp>
    decreases cs.len(),
{
    if cs.len() == 0 {
        cs
    } else if cs.last() is Normal {
        normals(cs.drop_last()).push(cs.last())
    } else {
        normals(cs.drop_last())
    }
}

/// Whether a component leaves or re-roots the extraction directory.
pub open spec fn escapes(c: Comp) -> bool {
    c is Root || c is Parent
}

pub open spec fn unsafe_archive_path_text(path: Seq<char>) -> Seq<char> {
    "O arquivo compactado contém um caminho inseguro: "@ + path
}

/// What `safe_relative_path` gives for an entry path: an error for a path
/// that climbs or is rooted; otherwise its names, without the first one when
/// the top-level directory is stripped, joined by `/` (nothing if none is left).
pub open spec fn safe_relative(path: Seq<char>, strip_top_level_dir: bool) -> Result<
    Option<Seq<char>>,
    Seq<char>,
> {
    let cs = components(path);
    if exists|i: int| 0 <= i < cs.len() && escapes(#[trigger] cs[i]) {
        Err(unsafe_archive_path_text(path))
    } else {
        let ns = normals(cs);
        let kept = if strip_top_level_dir && ns.len() > 0 {
            ns.drop_first()
        } else {
            ns
        };
        if kept.len() == 0 {
            Ok(None)
        } else {
            Ok(Some(render(kept)))
        }
    }
}

/// The relative path under which an archive entry is extracted.
pub fn safe_relative_path(path: &str, strip_top_level_dir: bool) -> (r: Result<Option<String>, String>)
    ensures
        match (r, safe_relative(path@, strip_top_level_dir)) {
            (Ok(Some(a)), Ok(Some(b))) => a@ == b,
            (Ok(None), Ok(None)) => true,
            (Err(a), Err(b)) => a@ == b,
            _ => false,
        },
{
    let p = chars_of(path);
    let parts = path_components(&p);
    let ghost cs = parts_view(parts@);
    let mut kept: Vec<PathPart> = Vec::new();
    let mut i: usize = 0;
    while i < parts.len()
        invariant
            i <= parts.len(),
            cs == parts_view(parts@),
            cs == components(p@),
            p@ == path@,
            forall|k: int| 0 <= k < i ==> !escapes(#[trigger] cs[k]),
            parts_view(kept@) == normals(cs.take(i as int)),
        decreases parts.len() - i,
    {
        assert(cs[i as int] == parts@[i as int]@);
        assert(cs.take(i + 1).drop_last() =~= cs.take(i as int));
        assert(cs.take(i + 1).last() == cs[i as int]);
        let ghost before = parts_view(kept@);
        match &parts[i] {
            PathPart::Root | PathPart::Parent => {
                let mut e = owned("O arquivo compactado contém um caminho inseguro: ");
                e.append(path);
                return Err(e);
            },
            PathPart::Cur => {},
            PathPart::Normal(v) => {
                kept.push(PathPart::Normal(copy_chars(v)));
                assert(parts_view(kept@) =~= before.push(cs[i as int]));
            },
        }
        i = i + 1;
    }
    assert(cs.take(parts.len() as int) =~= cs);
    if strip_top_level_dir && kept.len() > 0 {
        let ghost before = parts_view(kept@);
        kept.remove(0);
        assert(parts_view(kept@) =~= before.drop_first());
    }
    if kept.len() == 0 {
        return Ok(None);
    }
    let n = kept.len();
    let out = render_parts(&kept, n);
    assert(parts_view(kept@).take(n as int) =~= parts_view(kept@));
    Ok(Some(string_of(&out)))
}

proof fn lemma_normals(cs: Seq<Comp>)
    ensures
        forall|i: int|
            0 <= i < normals(cs).len() ==> (#[trigger] normals(cs)[i]) is Normal && cs.contains(
                normals(cs)[i],
            ),
    decreases cs.len(),
{
    if cs.len() > 0 {
        let init = cs.drop_last();
        lemma_normals(init);
        assert forall|i: int| 0 <= i < normals(cs).len() implies (#[trigger] normals(cs)[i]) is Normal
            && cs.contains(normals(cs)[i]) by {
            if i < normals(init).len() {
                let x = normals(init)[i];
                assert(normals(cs)[i] == x);
                let k = choose|k: int| 0 <= k < init.len() && init[k] == x;
                assert(cs[k] == x);
            } else {
                assert(normals(cs)[i] == cs.last());
                assert(cs[cs.len() - 1] == cs.last());
            }
        }
    }
}

/// An archive entry is extracted under a path made of names only: read
/// back, that path is relative and its components are those names (no root,
/// no `.`, no `..`), so the entry stays inside the extraction folder.
pub proof fn lemma_safe_relative_stays_inside(path: Seq<char>, strip_top_level_dir: bool)
    ensures
        match safe_relative(path, strip_top_level_dir) {
            Ok(Some(rel)) => !crate::paths::is_absolute(rel) && components(rel).len() > 0
                && crate::paths::all_names(components(rel)),
            _ => true,
        },
{
    let cs = components(path);
    if !(exists|i: int| 0 <= i < cs.len() && escapes(#[trigger] cs[i])) {
        let ns = normals(cs);
        let kept = if strip_top_level_dir && ns.len() > 0 {
            ns.drop_first()
        } else {
            ns
        };
        if kept.len() > 0 {
            lemma_normals(cs);
            crate::paths::lemma_component_names(path);
            assert(crate::paths::all_names(kept)) by {
                assert forall|i: int| 0 <= i < kept.len() implies (#[trigger] kept[i] is Normal
                    && crate::paths::valid_name(kept[i]->Normal_0)) by {
                    let j = if strip_top_level_dir && ns.len() > 0 {
                        i + 1
                    } else {
                        i
                    };
                    assert(kept[i] == ns[j]);
                    assert(cs.contains(ns[j]));
                    let k = choose|k: int| 0 <= k < cs.len() && cs[k] == ns[j];
                    assert(components(path)[k] is Normal);
                }
            }
            crate::paths::lemma_render_components(kept);
            let rel = render(kept);
            if crate::paths::is_absolute(rel) {
                assert(components(rel)[0] == Comp::Root);
                assert(kept[0] is Normal);
            }
        }
    }
}

/// What to do with one archive entry.
pub enum EntryPlan {
    /// Nothing is left of its path: it is skipped.
    Skip,
    /// A directory to create at this path.
    CreateDir(String),
    /// A regular file to write at this path.
    WriteFile(String),
}

pub open spec fn tar_entry_kind_text(path: Seq<char>) -> Seq<char> {
    "O arquivo TAR contém um tipo de entrada não permitido em "@ + path
        + ". Links e arquivos especiais são recusados por segurança."@
}

/// How a TAR entry is extracted under `destination`: its path made safe,
/// directories created, regular files written, anything else refused.
pub fn plan_tar_entry(
    entry_path: &str,
    is_dir: bool,
    is_file: bool,
    strip_top_level_dir: bool,
    destination: &str,
) -> (r: Result<EntryPlan, String>)
    ensures
        match (r, safe_relative(entry_path@, strip_top_level_dir)) {
            (Err(a), Err(b)) => a@ == b,
            (Ok(EntryPlan::Skip), Ok(None)) => true,
            (Ok(EntryPlan::CreateDir(o)), Ok(Some(rel))) => is_dir && o@ == join(destination@, rel),
            (Ok(EntryPlan::WriteFile(o)), Ok(Some(rel))) => !is_dir && is_file && o@ == join(
                destination@,
                rel,
            ),
            (Err(a), Ok(Some(rel))) => !is_dir && !is_file && a@ == tar_entry_kind_text(
                entry_path@,
            ),
            _ => false,
        },
{
    let rel = match safe_relative_path(entry_path, strip_top_level_dir) {
        Err(e) => return Err(e),
        Ok(None) => return Ok(EntryPlan::Skip),
        Ok(Some(rel)) => rel,
    };
    let d = chars_of(destination);
    let rc = chars_of(rel.as_str());
    let out = string_of(&path_join(&d, &rc));
    if is_dir {
        return Ok(EntryPlan::CreateDir(out));
    }
    if !is_file {
        let mut e = owned("O arquivo TAR contém um tipo de entrada não permitido em ");
        e.append(entry_path);
        e.append(". Links e arquivos especiais são recusados por segurança.");
        return Err(e);
    }
    Ok(EntryPlan::WriteFile(out))
}

pub open spec fn zip_unsafe_name_text(name: Seq<char>) -> Seq<char> {
    "O ZIP contém um caminho inseguro: "@ + name
}

/// How a ZIP entry is extracted under `destination`. `enclosed` is the
/// entry's name as the archive reader vouches for it (none when the reader
/// refuses it); `name` is the raw name, for the message.
pub fn plan_zip_entry(
    enclosed: Option<&str>,
    name: &str,
    is_dir: bool,
    strip_top_level_dir: bool,
    destination: &str,
) -> (r: Result<EntryPlan, String>)
    ensures
        enclosed is None ==> (r is Err && r->Err_0@ == zip_unsafe_name_text(name@)),
        enclosed is Some ==> match (r, safe_relative(enclosed->0@, strip_top_level_dir)) {
            (Err(a), Err(b)) => a@ == b,
            (Ok(EntryPlan::Skip), Ok(None)) => true,
            (Ok(EntryPlan::CreateDir(o)), Ok(Some(rel))) => is_dir && o@ == join(destination@, rel),
            (Ok(EntryPlan::WriteFile(o)), Ok(Some(rel))) => !is_dir && o@ == join(
                destination@,
                rel,
            ),
            _ => false,
        },
{
    let path = match enclosed {
        None => {
            let mut e = owned("O ZIP contém um caminho inseguro: ");
            e.append(name);
            return Err(e);
        },
        Some(p) => p,
    };
    let rel = match safe_relative_path(path, strip_top_level_dir) {
        Err(e) => return Err(e),
        Ok(None) => return Ok(EntryPlan::Skip),
        Ok(Some(rel)) => rel,
    };
    let d = chars_of(destination);
    let rc = chars_of(rel.as_str());
    let out = string_of(&path_join(&d, &rc));
    if is_dir {
        Ok(EntryPlan::CreateDir(out))
    } else {
        Ok(EntryPlan::WriteFile(out))
    }
}

/// The path under which the game's ZIP install writes an entry that the
/// archive reader vouched for (`enclosed`): the path itself, or without its
/// first component when the top-level folder is stripped; none when nothing
/// is left.
pub open spec fn zip_install_relative(enclosed: Seq<char>, strip_top_level_dir: bool) -> Option<
    Seq<char>,
> {
    if strip_top_level_dir {
        let rest = components(enclosed).drop_first();
        if components(enclosed).len() == 0 || rest.len() == 0 {
            None
        } else {
            Some(render(rest))
        }
    } else if enclosed.len() == 0 {
        None
    } else {
        Some(enclosed)
    }
}

/// How the game's ZIP install extracts one entry under `destination`.
pub fn plan_zip_install_entry(
    enclosed: Option<&str>,
    name: &str,
    is_dir: bool,
    strip_top_level_dir: bool,
    destination: &str,
) -> (r: Result<EntryPlan, String>)
    ensures
        enclosed is None ==> (r is Err && r->Err_0@ == zip_unsafe_name_text(name@)),
        enclosed is Some ==> match (r, zip_install_relative(enclosed->0@, strip_top_level_dir)) {
            (Ok(EntryPlan::Skip), None) => true,
            (Ok(EntryPlan::CreateDir(o)), Some(rel)) => is_dir && o@ == join(destination@, rel),
            (Ok(EntryPlan::WriteFile(o)), Some(rel)) => !is_dir && o@ == join(destination@, rel),
            _ => false,
        },
{
    let path = match enclosed {
        None => {
            let mut e = owned("O ZIP contém um caminho inseguro: ");
            e.append(name);
            return Err(e);
        },
        Some(p) => p,
    };
    let pc = chars_of(path);
    let rel: Vec<char> = if strip_top_level_dir {
        let parts = path_components(&pc);
        if parts.len() <= 1 {
            return Ok(EntryPlan::Skip);
        }
        let mut rest = parts;
        let ghost before = parts_view(rest@);
        rest.remove(0);
        assert(parts_view(rest@) =~= before.drop_first());
        let n = rest.len();
        let out = render_parts(&rest, n);
        assert(parts_view(rest@).take(n as int) =~= parts_view(rest@));
        out
    } else {
        if pc.len() == 0 {
            return Ok(EntryPlan::Skip);
        }
        pc
    };
    let out = string_of(&path_join(&chars_of(destination), &rel));
    if is_dir {
        Ok(EntryPlan::CreateDir(out))
    } else {
        Ok(EntryPlan::WriteFile(out))
    }
}

/// A file mode with execute permission added for owner, group and others.
pub fn with_execute_bits(mode: u32) -> (r: u32)
    ensures
        r == mode | 0o111u32,
{
    mode | 0o111u32
}

} // verus!
