//! Remote updates: the paths and addresses of the files a remote manifest
//! lists, and how many are fetched at once.
use vstd::prelude::*;
use crate::text::{
    chars_eq_ignore_case, chars_less, chars_of, decimal, decimal_string, eq_ignore_case,
    lemma_push_contains, lemma_text_less_total, lemma_text_less_transitive, opt_str, owned,
    parse_u64, parsed_u64, replace_char, replace_chars, str_eq, strip_end, strip_end_chars,
    strip_start, strip_start_chars, string_of, text_less,
};
use crate::paths::{join, path_join};
use crate::verification::{crc32_hex, crc32_of, hex8};
use std::io::Read;
use crate::paths::{components, parts_view, path_components, Comp, PathPart};
use crate::archive::escapes;
use crate::manifest::{opt_view, GameManifest};
use crate::install::{configured_path, configured_path_for_install};

verus! {

// ---------------------------------------------------------------------------
// Paths of remote files
// ---------------------------------------------------------------------------
/// A remote path with leading `/` removed and `\` read as `/`.
pub open spec fn remote_relative_text(remote_path: Seq<char>) -> Seq<char> {
    replace_char(strip_start(remote_path, Some('/')), '\\', '/')
}

pub open spec fn empty_remote_path_text() -> Seq<char> {
    "Caminho remoto vazio no manifesto de update."@
}

pub open spec fn unsafe_remote_path_text(remote_path: Seq<char>) -> Seq<char> {
    "Caminho remoto inseguro no manifesto de update: "@ + remote_path
}

/// The relative path under which a remote file is kept: an error when
/// nothing is left of it or when it climbs out of the target directory.
pub open spec fn remote_relative(remote_path: Seq<char>) -> Result<Seq<char>, Seq<char>> {
    let t = remote_relative_text(remote_path);
    let cs = components(t);
    if t.len() == 0 {
        Err(empty_remote_path_text())
    } else if exists|i: int| 0 <= i < cs.len() && escapes(#[trigger] cs[i]) {
        Err(unsafe_remote_path_text(remote_path))
    } else {
        Ok(t)
    }
}

/// The relative path under which the remote file `remote_path` is kept.
pub fn safe_remote_relative_path(remote_path: &str) -> (r: Result<String, String>)
    ensures
        match (r, remote_relative(remote_path@)) {
            (Ok(a), Ok(b)) => a@ == b,
            (Err(a), Err(b)) => a@ == b,
            _ => false,
        },
{
    let p = chars_of(remote_path);
    let a = strip_start_chars(&p, Some('/'));
    let t = replace_chars(&a, '\\', '/');
    if t.len() == 0 {
        return Err(owned("Caminho remoto vazio no manifesto de update."));
    }
    let parts = path_components(&t);
    let ghost cs = parts_view(parts@);
    let mut i: usize = 0;
    while i < parts.len()
        invariant
            i <= parts.len(),
            cs == parts_view(parts@),
            cs == components(t@),
            t@ == remote_relative_text(remote_path@),
            t@.len() > 0,
            forall|k: int| 0 <= k < i ==> !escapes(#[trigger] cs[k]),
        decreases parts.len() - i,
    {
        assert(cs[i as int] == parts@[i as int]@);
        match &parts[i] {
            PathPart::Root | PathPart::Parent => {
                assert(escapes(cs[i as int]));
                let mut e = owned("Caminho remoto inseguro no manifesto de update: ");
                e.append(remote_path);
                return Err(e);
            },
            _ => {},
        }
        i = i + 1;
    }
    Ok(string_of(&t))
}

// ---------------------------------------------------------------------------
// Addresses of remote files
// ---------------------------------------------------------------------------
/// Bytes written as themselves in a URL path: ASCII letters and digits and
/// `-`, `.`, `_`, `~`.
pub open spec fn unreserved_byte(b: u8) -> bool {
    (48 <= b <= 57) || (65 <= b <= 90) || (97 <= b <= 122) || b == 45 || b == 46 || b == 95
        || b == 126
}

/// An upper-case hexadecimal digit.
pub open spec fn hex_upper(d: u8) -> char {
    if d < 10 {
        ((48 + d) as u8) as char
    } else {
        ((55 + d) as u8) as char
    }
}

/// One byte in a URL path segment: itself or `%` and two hex digits.
pub open spec fn encoded_byte(b: u8) -> Seq<char> {
    if unreserved_byte(b) {
        seq![b as char]
    } else {
        seq!['%', hex_upper(b / 16), hex_upper(b % 16)]
    }
}

/// Bytes percent-encoded for a URL path segment.
pub open spec fn percent_encoded(bytes: Seq<u8>) -> Seq<char>
    decreases bytes.len(),
{
    if bytes.len() == 0 {
        Seq::empty()
    } else {
        percent_encoded(bytes.drop_last()) + encoded_byte(bytes.last())
    }
}

/// Bytes of a URL path: each `/` kept, every other byte encoded.
pub open spec fn path_encoded(bytes: Seq<u8>) -> Seq<char>
    decreases bytes.len(),
{
    if bytes.len() == 0 {
        Seq::empty()
    } else {
        path_encoded(bytes.drop_last()) + if bytes.last() == 47 {
            seq!['/']
        } else {
            encoded_byte(bytes.last())
        }
    }
}

fn hex_digit_upper(d: u8) -> (r: char)
    requires
        d < 16,
    ensures
        r == hex_upper(d),
{
    if d < 10 {
        (48 + d) as char
    } else {
        (55 + d) as char
    }
}

fn push_encoded(out: &mut Vec<char>, b: u8)
    ensures
        final(out)@ == old(out)@ + encoded_byte(b),
{
    let ghost before = out@;
    if (48 <= b && b <= 57) || (65 <= b && b <= 90) || (97 <= b && b <= 122) || b == 45 || b == 46
        || b == 95 || b == 126 {
        out.push(b as char);
        assert(out@ =~= before + encoded_byte(b));
    } else {
        out.push('%');
        out.push(hex_digit_upper(b / 16));
        out.push(hex_digit_upper(b % 16));
        assert(out@ =~= before + encoded_byte(b));
    }
}

/// `segment` percent-encoded byte by byte (its UTF-8 bytes), as a URL path
/// segment.
pub fn percent_encode_url_path_segment(segment: &str) -> (r: String)
    ensures
        r@ == percent_encoded(vstd::utf8::encode_utf8(segment@)),
{
    let bytes = segment.as_bytes();
    let mut out: Vec<char> = Vec::new();
    let mut i: usize = 0;
    while i < bytes.len()
        invariant
            i <= bytes.len(),
            bytes@ == vstd::utf8::encode_utf8(segment@),
            out@ == percent_encoded(bytes@.take(i as int)),
        decreases bytes.len() - i,
    {
        assert(bytes@.take(i + 1).drop_last() =~= bytes@.take(i as int));
        push_encoded(&mut out, bytes[i]);
        i = i + 1;
    }
    assert(bytes@.take(bytes.len() as int) =~= bytes@);
    string_of(&out)
}

/// Bytes without their leading `/` bytes.
pub open spec fn without_leading_slashes(b: Seq<u8>) -> Seq<u8>
    decreases b.len(),
{
    if b.len() > 0 && b[0] == 47 {
        without_leading_slashes(b.drop_first())
    } else {
        b
    }
}

proof fn lemma_without_leading_slashes(b: Seq<u8>, i: int)
    requires
        0 <= i <= b.len(),
        forall|k: int| 0 <= k < i ==> #[trigger] b[k] == 47,
        i == b.len() || b[i] != 47,
    ensures
        without_leading_slashes(b) == b.skip(i),
    decreases i,
{
    if i > 0 {
        assert(b[0] == 47);
        lemma_without_leading_slashes(b.drop_first(), i - 1);
        assert(b.drop_first().skip(i - 1) =~= b.skip(i));
    } else {
        assert(b.skip(0) =~= b);
    }
}

/// The address of the remote file `remote_path` under `base_url`.
pub open spec fn remote_url(base_url: Seq<char>, remote_path_bytes: Seq<u8>) -> Seq<char> {
    strip_end(base_url, Some('/')) + "/"@ + path_encoded(without_leading_slashes(remote_path_bytes))
}

/// The address of the remote file `remote_path` under `base_url`: the
/// base without trailing `/`, a `/`, then the path without leading `/`
/// with each segment percent-encoded.
pub fn remote_file_url(base_url: &str, remote_path: &str) -> (r: String)
    ensures
        r@ == remote_url(base_url@, vstd::utf8::encode_utf8(remote_path@)),
{
    let base = strip_end_chars(&chars_of(base_url), Some('/'));
    let bytes = remote_path.as_bytes();
    let mut start: usize = 0;
    while start < bytes.len() && bytes[start] == 47
        invariant
            start <= bytes.len(),
            forall|k: int| 0 <= k < start ==> #[trigger] bytes@[k] == 47,
        decreases bytes.len() - start,
    {
        start = start + 1;
    }
    proof {
        lemma_without_leading_slashes(bytes@, start as int);
    }
    let ghost rest = bytes@.skip(start as int);
    proof {
        reveal_strlit("/");
    }
    let mut out = base;
    out.push('/');
    let ghost head = out@;
    let mut i: usize = start;
    assert(rest.take(0) =~= Seq::<u8>::empty());
    while i < bytes.len()
        invariant
            start <= i <= bytes.len(),
            rest == bytes@.skip(start as int),
            out@ == head + path_encoded(rest.take(i - start)),
        decreases bytes.len() - i,
    {
        assert(rest.take(i + 1 - start).drop_last() =~= rest.take(i - start));
        assert(rest.take(i + 1 - start).last() == bytes@[i as int]);
        let b = bytes[i];
        if b == 47 {
            out.push('/');
        } else {
            push_encoded(&mut out, b);
        }
        assert(out@ =~= head + path_encoded(rest.take(i + 1 - start)));
        i = i + 1;
    }
    assert(rest.take(bytes.len() - start) =~= rest);
    string_of(&out)
}

/// Characters that may appear in an encoded path: ASCII letters, digits,
/// `-`, `.`, `_`, `~`, `%` and `/`.
pub open spec fn url_path_char(c: char) -> bool {
    ('0' <= c && c <= '9') || ('a' <= c && c <= 'z') || ('A' <= c && c <= 'Z') || c == '-' || c
        == '.' || c == '_' || c == '~' || c == '%' || c == '/'
}

proof fn lemma_encoded_byte_chars(b: u8)
    ensures
        forall|i: int| 0 <= i < encoded_byte(b).len() ==> url_path_char(#[trigger] encoded_byte(b)[i]),
        forall|i: int| 0 <= i < encoded_byte(b).len() ==> #[trigger] encoded_byte(b)[i] != '/',
{
    if !unreserved_byte(b) {
        assert(b / 16 < 16 && b % 16 < 16);
    }
}

/// A percent-encoded segment holds no `/` and only characters allowed in a
/// URL path.
pub proof fn lemma_percent_encoded_chars(bytes: Seq<u8>)
    ensures
        forall|i: int|
            0 <= i < percent_encoded(bytes).len() ==> url_path_char(#[trigger] percent_encoded(bytes)[i])
                && percent_encoded(bytes)[i] != '/',
    decreases bytes.len(),
{
    if bytes.len() > 0 {
        lemma_percent_encoded_chars(bytes.drop_last());
        lemma_encoded_byte_chars(bytes.last());
        let a = percent_encoded(bytes.drop_last());
        let e = encoded_byte(bytes.last());
        assert forall|i: int| 0 <= i < (a + e).len() implies url_path_char(#[trigger] (a + e)[i])
            && (a + e)[i] != '/' by {
            if i >= a.len() {
                assert((a + e)[i] == e[i - a.len()]);
            }
        }
    }
}

/// A remote file is kept inside the folder it is written to: its place is
/// the folder joined with a relative path that neither is rooted nor climbs.
pub proof fn lemma_remote_destination_inside(dir: Seq<char>, remote_path: Seq<char>)
    ensures
        remote_destination(dir, remote_path) is Ok ==> exists|rel: Seq<char>|
            !crate::paths::is_absolute(rel) && (forall|i: int|
                0 <= i < components(rel).len() ==> !escapes(#[trigger] components(rel)[i]))
                && remote_destination(dir, remote_path) == Ok::<Seq<char>, Seq<char>>(join(dir, rel)),
{
    if remote_destination(dir, remote_path) is Ok {
        let t = remote_relative_text(remote_path);
        let cs = components(t);
        if crate::paths::is_absolute(t) {
            assert(cs[0] == Comp::Root);
            assert(escapes(cs[0]));
        }
        assert(!crate::paths::is_absolute(t));
    }
}

// ---------------------------------------------------------------------------
// Concurrency
// ---------------------------------------------------------------------------
pub const DEFAULT_REMOTE_UPDATE_CONCURRENCY: usize = 6;

pub const MAX_REMOTE_UPDATE_CONCURRENCY: usize = 16;

/// How many files a remote update fetches at once: the manifest's
/// `maxConcurrentDownloads` (6 when absent), kept between 1 and 16.
pub fn remote_update_concurrency(manifest: &GameManifest) -> (r: usize)
    ensures
        r == match manifest.update.max_concurrent_downloads {
            Some(n) => if n < 1 {
                1
            } else if n > MAX_REMOTE_UPDATE_CONCURRENCY {
                MAX_REMOTE_UPDATE_CONCURRENCY
            } else {
                n
            },
            None => DEFAULT_REMOTE_UPDATE_CONCURRENCY,
        },
        1 <= r <= MAX_REMOTE_UPDATE_CONCURRENCY,
{
    let n = match manifest.update.max_concurrent_downloads {
        Some(n) => n,
        None => DEFAULT_REMOTE_UPDATE_CONCURRENCY,
    };
    if n < 1 {
        1
    } else if n > MAX_REMOTE_UPDATE_CONCURRENCY {
        MAX_REMOTE_UPDATE_CONCURRENCY
    } else {
        n
    }
}

// ---------------------------------------------------------------------------
// The files of a remote manifest
// ---------------------------------------------------------------------------
/// A file that a remote manifest lists: its checksum and size.
#[derive(Clone, Debug)]
pub struct RemoteFileEntry {
    pub checksum: String,
    pub size: u64,
}

/// The client binary that a remote manifest names.
#[derive(Clone, Debug)]
pub struct RemoteBinaryEntry {
    pub file: String,
    pub checksum: String,
    pub size: u64,
}

/// A remote update manifest. `files` holds the manifest's map of paths to
/// entries; no path occurs twice in it.
#[derive(Clone, Debug)]
pub struct RemoteUpdateManifest {
    pub url: String,
    pub fallback_url: Option<String>,
    pub binary: Option<RemoteBinaryEntry>,
    pub files: Vec<(String, RemoteFileEntry)>,
    pub keep_files: Option<bool>,
    pub min_client_version: Option<u64>,
}

/// A listed file as values: its path, checksum and size.
pub open spec fn entry_view(e: (String, RemoteFileEntry)) -> (Seq<char>, (Seq<char>, u64)) {
    (e.0@, (e.1.checksum@, e.1.size))
}

pub open spec fn entries_view(v: Seq<(String, RemoteFileEntry)>) -> Seq<(Seq<char>, (Seq<char>, u64))> {
    v.map_values(|e: (String, RemoteFileEntry)| entry_view(e))
}

/// No path occurs twice.
pub open spec fn paths_distinct(s: Seq<(Seq<char>, (Seq<char>, u64))>) -> bool {
    forall|i: int, j: int| 0 <= i < j < s.len() ==> #[trigger] s[i].0 != #[trigger] s[j].0
}

/// Paths strictly increase.
pub open spec fn sorted_by_path(s: Seq<(Seq<char>, (Seq<char>, u64))>) -> bool {
    forall|i: int, j: int| 0 <= i < j < s.len() ==> text_less(#[trigger] s[i].0, #[trigger] s[j].0)
}

/// The entries whose path is not `path`, in order.
pub open spec fn other_paths(s: Seq<(Seq<char>, (Seq<char>, u64))>, path: Seq<char>) -> Seq<
    (Seq<char>, (Seq<char>, u64)),
>
    decreases s.len(),
{
    if s.len() == 0 {
        s
    } else {
        let rest = other_paths(s.drop_last(), path);
        if s.last().0 == path {
            rest
        } else {
            rest.push(s.last())
        }
    }
}

/// The files an update checks: those listed, with the client binary (when
/// named) taking the place of a listed file of the same path.
pub open spec fn merged_entries(m: RemoteUpdateManifest) -> Seq<(Seq<char>, (Seq<char>, u64))> {
    match m.binary {
        None => entries_view(m.files@),
        Some(b) => other_paths(entries_view(m.files@), b.file@).push(
            (b.file@, (b.checksum@, b.size)),
        ),
    }
}

proof fn lemma_other_paths(s: Seq<(Seq<char>, (Seq<char>, u64))>, path: Seq<char>)
    ensures
        forall|x: (Seq<char>, (Seq<char>, u64))|
            #[trigger] other_paths(s, path).contains(x) <==> (s.contains(x) && x.0 != path),
        paths_distinct(s) ==> paths_distinct(other_paths(s, path)),
    decreases s.len(),
{
    if s.len() > 0 {
        let init = s.drop_last();
        let last = s.last();
        lemma_other_paths(init, path);
        let rest = other_paths(init, path);
        assert(s =~= init.push(last));
        assert forall|x: (Seq<char>, (Seq<char>, u64))|
            #[trigger] other_paths(s, path).contains(x) <==> (s.contains(x) && x.0 != path) by {
            lemma_push_contains(init, last, x);
            lemma_push_contains(rest, last, x);
        }
        if paths_distinct(s) {
            assert(paths_distinct(init)) by {
                assert forall|i: int, j: int| 0 <= i < j < init.len() implies #[trigger] init[i].0
                    != #[trigger] init[j].0 by {
                    assert(init[i] == s[i] && init[j] == s[j]);
                }
            }
            if last.0 != path {
                let w = rest.push(last);
                assert forall|i: int, j: int| 0 <= i < j < w.len() implies #[trigger] w[i].0
                    != #[trigger] w[j].0 by {
                    if j == rest.len() {
                        assert(rest.contains(rest[i]));
                        assert(init.contains(rest[i]));
                        let k = choose|k: int| 0 <= k < init.len() && init[k] == rest[i];
                        assert(s[k] == rest[i]);
                        assert(s[s.len() - 1] == last);
                    } else {
                        assert(w[i] == rest[i] && w[j] == rest[j]);
                    }
                }
            }
        }
    }
}

proof fn lemma_merged_distinct(m: RemoteUpdateManifest)
    requires
        paths_distinct(entries_view(m.files@)),
    ensures
        paths_distinct(merged_entries(m)),
{
    match m.binary {
        None => {},
        Some(b) => {
            let f = entries_view(m.files@);
            lemma_other_paths(f, b.file@);
            let rest = other_paths(f, b.file@);
            let w = rest.push((b.file@, (b.checksum@, b.size)));
            assert forall|i: int, j: int| 0 <= i < j < w.len() implies #[trigger] w[i].0
                != #[trigger] w[j].0 by {
                if j == rest.len() {
                    assert(rest.contains(rest[i]));
                } else {
                    assert(w[i] == rest[i] && w[j] == rest[j]);
                }
            }
        },
    }
}

fn copy_entry(e: &(String, RemoteFileEntry)) -> (r: (String, RemoteFileEntry))
    ensures
        entry_view(r) == entry_view(*e),
{
    (e.0.clone(), RemoteFileEntry { checksum: e.1.checksum.clone(), size: e.1.size })
}

fn insert_sorted(out: &mut Vec<(String, RemoteFileEntry)>, item: (String, RemoteFileEntry))
    requires
        sorted_by_path(entries_view(old(out)@)),
        forall|k: int| 0 <= k < old(out)@.len() ==> #[trigger] old(out)@[k].0@ != item.0@,
    ensures
        sorted_by_path(entries_view(final(out)@)),
        forall|x: (Seq<char>, (Seq<char>, u64))|
            #[trigger] entries_view(final(out)@).contains(x) <==> (entries_view(
                old(out)@,
            ).contains(x) || x == entry_view(item)),
{
    let ghost s = entries_view(out@);
    let ghost a = entry_view(item);
    let key = chars_of(item.0.as_str());
    let mut j: usize = 0;
    while j < out.len() && chars_less(&chars_of(out[j].0.as_str()), &key)
        invariant
            j <= out.len(),
            s == entries_view(out@),
            a == entry_view(item),
            key@ == item.0@,
            forall|k: int| 0 <= k < j ==> text_less(#[trigger] s[k].0, a.0),
        decreases out.len() - j,
    {
        assert(s[j as int].0 == out@[j as int].0@);
        j = j + 1;
    }
    proof {
        if j < out.len() {
            assert(s[j as int].0 == out@[j as int].0@);
            assert(!text_less(s[j as int].0, a.0));
            lemma_text_less_total(s[j as int].0, a.0);
            assert(text_less(a.0, s[j as int].0));
        }
    }
    out.insert(j, item);
    proof {
        let t = entries_view(out@);
        assert(t =~= s.insert(j as int, a));
        assert forall|p: int, q: int| 0 <= p < q < t.len() implies text_less(
            #[trigger] t[p].0,
            #[trigger] t[q].0,
        ) by {
            if q < j {
                assert(t[p] == s[p] && t[q] == s[q]);
            } else if q == j {
                assert(t[p] == s[p]);
            } else if p == j {
                assert(t[q] == s[q - 1]);
                if q - 1 > j {
                    lemma_text_less_transitive(a.0, s[j as int].0, s[q - 1].0);
                }
            } else if p < j {
                assert(t[p] == s[p] && t[q] == s[q - 1]);
                lemma_text_less_transitive(s[p].0, a.0, s[j as int].0);
                if q - 1 > j {
                    lemma_text_less_transitive(s[p].0, s[j as int].0, s[q - 1].0);
                }
            } else {
                assert(t[p] == s[p - 1] && t[q] == s[q - 1]);
            }
        }
        assert forall|x: (Seq<char>, (Seq<char>, u64))| #[trigger] t.contains(x) <==> (s.contains(x)
            || x == a) by {
            if t.contains(x) {
                let k = choose|k: int| 0 <= k < t.len() && t[k] == x;
                if k < j {
                    assert(s[k] == x);
                } else if k > j {
                    assert(s[k - 1] == x);
                }
            }
            if s.contains(x) {
                let k = choose|k: int| 0 <= k < s.len() && s[k] == x;
                if k < j {
                    assert(t[k] == x);
                } else {
                    assert(t[k + 1] == x);
                }
            }
            if x == a {
                assert(t[j as int] == x);
            }
        }
    }
}

/// The files a remote update checks, in order of path: the listed files,
/// with the client binary taking the place of a file of its path.
pub fn remote_file_list(manifest: &RemoteUpdateManifest) -> (r: Vec<(String, RemoteFileEntry)>)
    requires
        paths_distinct(entries_view(manifest.files@)),
    ensures
        sorted_by_path(entries_view(r@)),
        forall|x: (Seq<char>, (Seq<char>, u64))|
            #[trigger] entries_view(r@).contains(x) <==> merged_entries(*manifest).contains(x),
{
    let mut merged: Vec<(String, RemoteFileEntry)> = Vec::new();
    let ghost f = entries_view(manifest.files@);
    let files = &manifest.files;
    let mut i: usize = 0;
    assert(f.take(0) =~= Seq::<(Seq<char>, (Seq<char>, u64))>::empty());
    while i < files.len()
        invariant
            i <= files.len(),
            f == entries_view(manifest.files@),
            files@ == manifest.files@,
            entries_view(merged@) == match manifest.binary {
                None => f.take(i as int),
                Some(b) => other_paths(f.take(i as int), b.file@),
            },
        decreases files.len() - i,
    {
        assert(f.take(i + 1).drop_last() =~= f.take(i as int));
        assert(f.take(i + 1).last() == entry_view(files@[i as int]));
        let skip = match &manifest.binary {
            Some(b) => str_eq(files[i].0.as_str(), b.file.as_str()),
            None => false,
        };
        if !skip {
            let ghost before = entries_view(merged@);
            merged.push(copy_entry(&files[i]));
            assert(entries_view(merged@) =~= before.push(entry_view(files@[i as int])));
        }
        i = i + 1;
    }
    assert(f.take(files.len() as int) =~= f);
    match &manifest.binary {
        Some(b) => {
            let ghost before = entries_view(merged@);
            merged.push(
                (b.file.clone(), RemoteFileEntry { checksum: b.checksum.clone(), size: b.size }),
            );
            assert(entries_view(merged@) =~= before.push((b.file@, (b.checksum@, b.size))));
        },
        None => {},
    }
    let ghost mv = entries_view(merged@);
    assert(mv == merged_entries(*manifest));
    proof {
        lemma_merged_distinct(*manifest);
    }
    let mut out: Vec<(String, RemoteFileEntry)> = Vec::new();
    let mut k: usize = 0;
    assert(mv.take(0) =~= Seq::<(Seq<char>, (Seq<char>, u64))>::empty());
    while k < merged.len()
        invariant
            k <= merged.len(),
            mv == entries_view(merged@),
            paths_distinct(mv),
            sorted_by_path(entries_view(out@)),
            forall|x: (Seq<char>, (Seq<char>, u64))|
                #[trigger] entries_view(out@).contains(x) <==> mv.take(k as int).contains(x),
        decreases merged.len() - k,
    {
        let item = copy_entry(&merged[k]);
        assert(entry_view(item) == mv[k as int]);
        proof {
            assert forall|q: int| 0 <= q < out@.len() implies #[trigger] out@[q].0@ != item.0@ by {
                let ov = entries_view(out@);
                assert(ov[q].0 == out@[q].0@);
                assert(ov.contains(ov[q]));
                assert(mv.take(k as int).contains(ov[q]));
                let w = choose|w: int| 0 <= w < k && mv.take(k as int)[w] == ov[q];
                assert(mv[w] == ov[q]);
                assert(mv[w].0 != mv[k as int].0);
            }
        }
        let ghost before = entries_view(out@);
        insert_sorted(&mut out, item);
        proof {
            assert(mv.take(k + 1) =~= mv.take(k as int).push(mv[k as int]));
            assert forall|x: (Seq<char>, (Seq<char>, u64))|
                #[trigger] entries_view(out@).contains(x) <==> mv.take(k + 1).contains(x) by {
                lemma_push_contains(mv.take(k as int), mv[k as int], x);
            }
        }
        k = k + 1;
    }
    assert(mv.take(merged.len() as int) =~= mv);
    out
}

// ---------------------------------------------------------------------------
// Planning
// ---------------------------------------------------------------------------
/// Where the remote file `remote_path` lies in the folder `dir`.
pub open spec fn remote_destination(dir: Seq<char>, remote_path: Seq<char>) -> Result<
    Seq<char>,
    Seq<char>,
> {
    match remote_relative(remote_path) {
        Ok(rel) => Ok(join(dir, rel)),
        Err(e) => Err(e),
    }
}

/// Where the remote file `remote_path` lies in `target_dir`.
pub fn remote_file_destination(target_dir: &str, remote_path: &str) -> (r: Result<String, String>)
    ensures
        match (r, remote_destination(target_dir@, remote_path@)) {
            (Ok(a), Ok(b)) => a@ == b,
            (Err(a), Err(b)) => a@ == b,
            _ => false,
        },
{
    match safe_remote_relative_path(remote_path) {
        Ok(rel) => Ok(string_of(&path_join(&chars_of(target_dir), &chars_of(rel.as_str())))),
        Err(e) => Err(e),
    }
}

/// A file that a remote update downloads.
#[derive(Clone, Debug)]
pub struct RemotePlannedFile {
    pub remote_path: String,
    pub expected: RemoteFileEntry,
    pub destination: String,
    pub staging_destination: String,
    pub url: String,
}

/// The download of a file that differs from its listing: from its address
/// under `base_url`, into the staging folder, then to its place in the
/// target folder.
pub fn plan_remote_file(
    base_url: &str,
    target_dir: &str,
    staging_dir: &str,
    remote_path: &str,
    expected: RemoteFileEntry,
) -> (r: Result<RemotePlannedFile, String>)
    ensures
        match (r, remote_relative(remote_path@)) {
            (Ok(p), Ok(rel)) => p.remote_path@ == remote_path@ && p.expected == expected
                && p.destination@ == join(target_dir@, rel) && p.staging_destination@ == join(
                staging_dir@,
                rel,
            ) && p.url@ == remote_url(base_url@, vstd::utf8::encode_utf8(remote_path@)),
            (Err(a), Err(b)) => a@ == b,
            _ => false,
        },
{
    let rel = match safe_remote_relative_path(remote_path) {
        Ok(rel) => chars_of(rel.as_str()),
        Err(e) => return Err(e),
    };
    let destination = string_of(&path_join(&chars_of(target_dir), &rel));
    let staging_destination = string_of(&path_join(&chars_of(staging_dir), &rel));
    let url = remote_file_url(base_url, remote_path);
    Ok(
        RemotePlannedFile {
            remote_path: owned(remote_path),
            expected,
            destination,
            staging_destination,
            url,
        },
    )
}

/// Whether a local file's size is that of its listing (`None`: there is no
/// such file).
pub fn local_size_matches(expected: &RemoteFileEntry, size: Option<u64>) -> (r: bool)
    ensures
        r == (size == Some(expected.size)),
{
    match size {
        Some(n) => n == expected.size,
        None => false,
    }
}

/// Whether a local file's contents have the checksum of its listing, in any
/// case of the hexadecimal digits.
pub fn local_checksum_matches(expected: &RemoteFileEntry, contents: &[u8]) -> (r: bool)
    ensures
        r == eq_ignore_case(hex8(crc32_of(contents@)), expected.checksum@),
{
    let actual = crc32_hex(contents);
    chars_eq_ignore_case(&chars_of(actual.as_str()), &chars_of(expected.checksum.as_str()))
}

/// Whether progress is reported after `count` of `total` items: at the
/// first, at every `interval`-th and at the last.
pub fn progress_checkpoint(count: usize, interval: usize, total: usize) -> (r: bool)
    requires
        interval > 0,
    ensures
        r == (count == 1 || count % interval == 0 || count == total),
{
    count == 1 || count % interval == 0 || count == total
}

/// How many workers download `planned` files when `concurrency` are allowed:
/// no more than there are files, and at least one.
pub fn download_worker_count(concurrency: usize, planned: usize) -> (r: usize)
    ensures
        r == if concurrency < planned {
            if concurrency < 1 {
                1
            } else {
                concurrency
            }
        } else {
            if planned < 1 {
                1
            } else {
                planned
            }
        },
        r >= 1,
{
    let m = if concurrency < planned {
        concurrency
    } else {
        planned
    };
    if m < 1 {
        1
    } else {
        m
    }
}

pub open spec fn download_errors_text(errors: Seq<Seq<char>>) -> Seq<char> {
    "Falha ao baixar/validar "@ + decimal(errors.len()) + " arquivo(s). Primeiro erro: "@
        + errors[0]
}

/// The error of a download round that had failures: how many, and the first.
pub fn download_errors_message(errors: &Vec<String>) -> (r: Option<String>)
    ensures
        errors.len() == 0 <==> r is None,
        r is Some ==> r->0@ == download_errors_text(errors.deep_view()),
{
    if errors.len() == 0 {
        return None;
    }
    let mut m = owned("Falha ao baixar/validar ");
    let n = decimal_string(errors.len() as u64);
    m.append(n.as_str());
    m.append(" arquivo(s). Primeiro erro: ");
    m.append(errors[0].as_str());
    Some(m)
}

// ---------------------------------------------------------------------------
// The check of local files
// ---------------------------------------------------------------------------
/// The tally of the check of local files against a remote listing: how many
/// were checked, how many already matched, and the downloads planned for the
/// others, in the order they were checked.
pub struct UpdateCheck {
    pub checked_files: usize,
    pub skipped_files: usize,
    pub planned: Vec<RemotePlannedFile>,
}

impl UpdateCheck {
    /// Every checked file was either skipped or planned.
    pub open spec fn wf(self) -> bool {
        self.checked_files == self.skipped_files + self.planned@.len()
    }

    /// Nothing checked yet.
    pub fn new() -> (r: Self)
        ensures
            r.wf(),
            r.checked_files == 0,
            r.skipped_files == 0,
            r.planned@ == Seq::<RemotePlannedFile>::empty(),
    {
        UpdateCheck { checked_files: 0, skipped_files: 0, planned: Vec::new() }
    }

    /// Records one checked file: skipped when the local copy matches its
    /// listing, else its download is planned.
    pub fn record(&mut self, file: RemotePlannedFile, matches_local: bool)
        requires
            old(self).wf(),
            old(self).checked_files < usize::MAX,
        ensures
            final(self).wf(),
            final(self).checked_files == old(self).checked_files + 1,
            matches_local ==> final(self).skipped_files == old(self).skipped_files + 1
                && final(self).planned@ == old(self).planned@,
            !matches_local ==> final(self).skipped_files == old(self).skipped_files
                && final(self).planned@ == old(self).planned@.push(file),
    {
        self.checked_files = self.checked_files + 1;
        if matches_local {
            self.skipped_files = self.skipped_files + 1;
        } else {
            self.planned.push(file);
        }
    }
}

// ---------------------------------------------------------------------------
// The transaction of an update
// ---------------------------------------------------------------------------
/// Where a remote update stands: checking local files, downloading what
/// differs into staging, applying the staged files, or ended.
#[derive(Debug, Clone, Copy, PartialEq, Eq, Structural)]
pub enum UpdatePhase {
    Checking,
    Staging,
    Applying,
    Finished,
    Failed,
}

/// What the caller reports back: the check planned `planned` downloads;
/// staging ended, with every planned file downloaded and validated or not;
/// the staged files were applied.
#[derive(Debug, Clone, Copy, PartialEq, Eq, Structural)]
pub enum UpdateEvent {
    CheckDone { planned: usize },
    StagingDone { all_valid: bool },
    ApplyDone,
}

/// What the caller does next.
#[derive(Debug, Clone, Copy, PartialEq, Eq, Structural)]
pub enum UpdateAction {
    Stage,
    Apply,
    Finish,
    Abort,
}

/// The next phase and action of an update: nothing to download finishes at
/// once; downloads go to staging first; staged files are applied only when
/// every one was downloaded and validated, else the update stops without
/// touching the game; applying finishes. Any other event stops it.
pub open spec fn update_step(phase: UpdatePhase, event: UpdateEvent) -> (UpdatePhase, UpdateAction) {
    match (phase, event) {
        (UpdatePhase::Checking, UpdateEvent::CheckDone { planned }) => if planned == 0 {
            (UpdatePhase::Finished, UpdateAction::Finish)
        } else {
            (UpdatePhase::Staging, UpdateAction::Stage)
        },
        (UpdatePhase::Staging, UpdateEvent::StagingDone { all_valid }) => if all_valid {
            (UpdatePhase::Applying, UpdateAction::Apply)
        } else {
            (UpdatePhase::Failed, UpdateAction::Abort)
        },
        (UpdatePhase::Applying, UpdateEvent::ApplyDone) => (UpdatePhase::Finished, UpdateAction::Finish),
        _ => (UpdatePhase::Failed, UpdateAction::Abort),
    }
}

/// The next phase and action of an update.
pub fn update_transition(phase: UpdatePhase, event: UpdateEvent) -> (r: (UpdatePhase, UpdateAction))
    ensures
        r == update_step(phase, event),
{
    match (phase, event) {
        (UpdatePhase::Checking, UpdateEvent::CheckDone { planned }) => if planned == 0 {
            (UpdatePhase::Finished, UpdateAction::Finish)
        } else {
            (UpdatePhase::Staging, UpdateAction::Stage)
        },
        (UpdatePhase::Staging, UpdateEvent::StagingDone { all_valid }) => if all_valid {
            (UpdatePhase::Applying, UpdateAction::Apply)
        } else {
            (UpdatePhase::Failed, UpdateAction::Abort)
        },
        (UpdatePhase::Applying, UpdateEvent::ApplyDone) => (UpdatePhase::Finished, UpdateAction::Finish),
        _ => (UpdatePhase::Failed, UpdateAction::Abort),
    }
}

/// An update is transactional: files are applied only in the step that
/// follows a staging in which every planned file was downloaded and
/// validated; a failed staging aborts, and an ended update does nothing
/// more.
pub proof fn lemma_update_applies_only_after_clean_staging(phase: UpdatePhase, event: UpdateEvent)
    ensures
        update_step(phase, event).1 == UpdateAction::Apply ==> phase == UpdatePhase::Staging
            && event == (UpdateEvent::StagingDone { all_valid: true }),
        phase == UpdatePhase::Staging && event == (UpdateEvent::StagingDone { all_valid: false })
            ==> update_step(phase, event) == (UpdatePhase::Failed, UpdateAction::Abort),
        (phase == UpdatePhase::Finished || phase == UpdatePhase::Failed) ==> update_step(phase, event).1
            == UpdateAction::Abort && update_step(phase, event).1 != UpdateAction::Apply,
{
}

// ---------------------------------------------------------------------------
// The staging folder
// ---------------------------------------------------------------------------
/// The index of the entry with the greatest number, the last of equals.
pub open spec fn latest_index(stamps: Seq<u64>) -> Option<int>
    decreases stamps.len(),
{
    if stamps.len() == 0 {
        None
    } else {
        match latest_index(stamps.drop_last()) {
            Some(i) => if stamps.last() >= stamps[i] {
                Some(stamps.len() - 1)
            } else {
                Some(i)
            },
            None => Some(stamps.len() - 1),
        }
    }
}

/// A folder that an earlier update left: its name and whether it holds a
/// `staging` folder.
#[derive(Clone, Debug)]
pub struct LegacyUpdateDir {
    pub name: String,
    pub staging: String,
    pub staging_is_dir: bool,
}

/// The legacy folders usable as staging: named by a number and holding a
/// `staging` folder; the number and that folder.
pub open spec fn legacy_candidates(dirs: Seq<LegacyUpdateDir>) -> Seq<(u64, Seq<char>)>
    decreases dirs.len(),
{
    if dirs.len() == 0 {
        Seq::empty()
    } else {
        let rest = legacy_candidates(dirs.drop_last());
        let d = dirs.last();
        match parsed_u64(d.name@) {
            Some(n) => if d.staging_is_dir {
                rest.push((n, d.staging@))
            } else {
                rest
            },
            None => rest,
        }
    }
}

/// The staging folder of a game's update: the stable one when it exists,
/// else the `staging` folder of the legacy folder with the greatest number,
/// else the stable one.
pub open spec fn staging_choice(stable: Seq<char>, stable_exists: bool, dirs: Seq<LegacyUpdateDir>) -> Seq<
    char,
> {
    let cs = legacy_candidates(dirs);
    if stable_exists {
        stable
    } else {
        match latest_index(cs.map_values(|c: (u64, Seq<char>)| c.0)) {
            Some(i) => cs[i].1,
            None => stable,
        }
    }
}

/// The staging folder of a game's update, from what is on disk.
pub fn remote_update_staging_dir(
    stable_staging_dir: &str,
    stable_exists: bool,
    legacy_dirs: &Vec<LegacyUpdateDir>,
) -> (r: String)
    ensures
        r@ == staging_choice(stable_staging_dir@, stable_exists, legacy_dirs@),
{
    if stable_exists {
        return owned(stable_staging_dir);
    }
    let mut stamps: Vec<u64> = Vec::new();
    let mut paths: Vec<String> = Vec::new();
    let mut best: Option<usize> = None;
    let mut i: usize = 0;
    assert(legacy_dirs@.take(0) =~= Seq::<LegacyUpdateDir>::empty());
    while i < legacy_dirs.len()
        invariant
            i <= legacy_dirs.len(),
            stamps.len() == paths.len(),
            legacy_candidates(legacy_dirs@.take(i as int)).map_values(|c: (u64, Seq<char>)| c.0)
                == stamps@,
            legacy_candidates(legacy_dirs@.take(i as int)).map_values(|c: (u64, Seq<char>)| c.1)
                == paths.deep_view(),
            match best {
                Some(b) => b < stamps.len() && latest_index(stamps@) == Some(b as int),
                None => latest_index(stamps@) is None,
            },
        decreases legacy_dirs.len() - i,
    {
        let ghost cs0 = legacy_candidates(legacy_dirs@.take(i as int));
        assert(legacy_dirs@.take(i + 1).drop_last() =~= legacy_dirs@.take(i as int));
        assert(legacy_dirs@.take(i + 1).last() == legacy_dirs@[i as int]);
        let d = &legacy_dirs[i];
        match parse_u64(&chars_of(d.name.as_str())) {
            Some(n) => {
                if d.staging_is_dir {
                    let ghost s0 = stamps@;
                    let ghost p0 = paths.deep_view();
                    stamps.push(n);
                    paths.push(d.staging.clone());
                    assert(paths.deep_view() =~= p0.push(d.staging@));
                    let ghost cs1 = cs0.push((n, d.staging@));
                    assert(cs1.map_values(|c: (u64, Seq<char>)| c.0) =~= cs0.map_values(
                        |c: (u64, Seq<char>)| c.0,
                    ).push(n));
                    assert(cs1.map_values(|c: (u64, Seq<char>)| c.1) =~= paths.deep_view());
                    assert(stamps@.drop_last() =~= s0);
                    best = match best {
                        Some(b) => if n >= stamps[b] {
                            Some(stamps.len() - 1)
                        } else {
                            Some(b)
                        },
                        None => Some(stamps.len() - 1),
                    };
                }
            },
            None => {},
        }
        i = i + 1;
    }
    assert(legacy_dirs@.take(legacy_dirs.len() as int) =~= legacy_dirs@);
    match best {
        Some(b) => {
            let ghost cs = legacy_candidates(legacy_dirs@);
            assert(cs.map_values(|c: (u64, Seq<char>)| c.1)[b as int] == cs[b as int].1);
            assert(paths.deep_view()[b as int] == paths@[b as int]@);
            paths[b].clone()
        },
        None => owned(stable_staging_dir),
    }
}

// ---------------------------------------------------------------------------
// Decoding the remote manifest
// ---------------------------------------------------------------------------
/// What `flate2`'s `ZlibDecoder` reads to the end of a zlib stream at the
/// start of the bytes: the inflated bytes, or none when the stream is bad.
pub uninterp spec fn zlib_inflate(bytes: Seq<u8>) -> Option<Seq<u8>>;

/// `flate2::read::ZlibDecoder` read to the end: the inflated bytes, or none
/// on a decoding error. The inflate algorithm is the crate's and is named
/// here, not restated.
#[verifier::external_body]
fn zlib_decompress(bytes: &[u8]) -> (r: Option<Vec<u8>>)
    ensures
        match r {
            Some(v) => zlib_inflate(bytes@) == Some(v@),
            None => zlib_inflate(bytes@) is None,
        },
{
    let mut decoder = flate2::read::ZlibDecoder::new(bytes);
    let mut decoded = Vec::new();
    match decoder.read_to_end(&mut decoded) {
        Ok(_) => Some(decoded),
        Err(_) => None,
    }
}

/// The bytes of a zlib stream that starts `offset` bytes in, inflated.
pub fn zlib_decode_at(bytes: &[u8], offset: usize) -> (r: Option<Vec<u8>>)
    requires
        offset <= bytes@.len(),
    ensures
        match r {
            Some(v) => zlib_inflate(bytes@.skip(offset as int)) == Some(v@),
            None => zlib_inflate(bytes@.skip(offset as int)) is None,
        },
{
    let mut tail: Vec<u8> = Vec::new();
    let mut i: usize = offset;
    while i < bytes.len()
        invariant
            offset <= i <= bytes@.len(),
            tail@ == bytes@.subrange(offset as int, i as int),
        decreases bytes.len() - i,
    {
        tail.push(bytes[i]);
        assert(bytes@.subrange(offset as int, i + 1) == bytes@.subrange(offset as int, i as int).push(
            bytes@[i as int],
        ));
        i = i + 1;
    }
    assert(tail@ =~= bytes@.skip(offset as int));
    zlib_decompress(tail.as_slice())
}

/// How a remote manifest is decoded: as JSON only (format `json`), or as
/// JSON and then as zlib streams starting at each offset up to the returned
/// one (8 for the size-prefixed formats, else 16).
pub fn remote_manifest_decode_plan(format: Option<&str>) -> (r: (bool, usize))
    ensures
        r.0 == (opt_str(format) == Some("json"@)),
        r.1 == (if opt_str(format) == Some("ravenquestZlib"@) || opt_str(format) == Some(
            "zlibWithSizePrefix"@,
        ) {
            8usize
        } else {
            16usize
        }),
{
    match format {
        Some(f) => (
            str_eq(f, "json"),
            if str_eq(f, "ravenquestZlib") || str_eq(f, "zlibWithSizePrefix") {
                8
            } else {
                16
            },
        ),
        None => (false, 16),
    }
}

// ---------------------------------------------------------------------------
// The target folder
// ---------------------------------------------------------------------------
/// The folder a remote update writes into: the configured target (relative
/// to its base, with the game's runner for prefixes), else the installation.
pub open spec fn update_target(
    app_data_dir: Seq<char>,
    game_id: Seq<char>,
    manifest: GameManifest,
    install_path: Seq<char>,
) -> Seq<char> {
    match opt_view(manifest.update.target_dir) {
        Some(t) => configured_path(
            app_data_dir,
            game_id,
            install_path,
            t,
            opt_view(manifest.update.target_dir_base),
            manifest.launch.runner@,
        ),
        None => install_path,
    }
}

/// The folder a remote update of `manifest` writes into.
pub fn remote_update_target_dir(
    app_data_dir: &str,
    game_id: &str,
    manifest: &GameManifest,
    install_path: &str,
) -> (r: String)
    ensures
        r@ == update_target(app_data_dir@, game_id@, *manifest, install_path@),
{
    match &manifest.update.target_dir {
        Some(t) => configured_path_for_install(
            app_data_dir,
            game_id,
            install_path,
            t.as_str(),
            match &manifest.update.target_dir_base {
                Some(b) => Some(b.as_str()),
                None => None,
            },
            manifest.launch.runner.as_str(),
        ),
        None => owned(install_path),
    }
}

} // verus!
