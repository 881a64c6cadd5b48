//! Downloads: the names files are saved under, and when a failed download is
//! tried again.
use vstd::prelude::*;
use crate::text::{
    after_last, after_last_chars, before_first, before_first_chars, chars_of, decimal,
    decimal_string, owned, string_of, trim, trim_chars,
};
use crate::paths::{file_name, join, parent, path_file_name, path_join, path_parent};

verus! {

/// Characters kept in a path segment: ASCII letters and digits, `-`, `_`, `.`.
pub open spec fn segment_char(c: char) -> bool {
    ('0' <= c && c <= '9') || ('a' <= c && c <= 'z') || ('A' <= c && c <= 'Z') || c == '-' || c
        == '_' || c == '.'
}

/// `value` with every other character replaced by `_`.
pub open spec fn sanitized_segment(value: Seq<char>) -> Seq<char> {
    value.map_values(|c: char| if segment_char(c) { c } else { '_' })
}

fn sanitize_chars(value: &Vec<char>) -> (r: Vec<char>)
    ensures
        r@ == sanitized_segment(value@),
{
    let mut r: Vec<char> = Vec::new();
    let mut i: usize = 0;
    while i < value.len()
        invariant
            i <= value.len(),
            r@ == sanitized_segment(value@.take(i as int)),
        decreases value.len() - i,
    {
        let c = value[i];
        let keep = ('0' <= c && c <= '9') || ('a' <= c && c <= 'z') || ('A' <= c && c <= 'Z') || c
            == '-' || c == '_' || c == '.';
        r.push(
            if keep {
                c
            } else {
                '_'
            },
        );
        assert(sanitized_segment(value@.take(i + 1)) =~= sanitized_segment(
            value@.take(i as int),
        ).push(if segment_char(c) { c } else { '_' }));
        i = i + 1;
    }
    assert(value@.take(value.len() as int) =~= value@);
    r
}

/// `value` made safe as one path segment.
pub fn sanitize_path_segment(value: &str) -> (r: String)
    ensures
        r@ == sanitized_segment(value@),
{
    string_of(&sanitize_chars(&chars_of(value)))
}

/// The file name a download from `url` is saved under: the last segment of
/// the URL before any `?`, made safe; `installer.exe` when it is blank.
pub open spec fn url_file_name(url: Seq<char>) -> Seq<char> {
    let segment = before_first(after_last(url, '/'), '?');
    if trim(segment).len() > 0 {
        sanitized_segment(segment)
    } else {
        "installer.exe"@
    }
}

/// The file name a download from `url` is saved under.
pub fn filename_from_url(url: &str) -> (r: String)
    ensures
        r@ == url_file_name(url@),
{
    let u = chars_of(url);
    let last = after_last_chars(&u, '/');
    let segment = before_first_chars(&last, '?');
    if trim_chars(&segment).len() > 0 {
        string_of(&sanitize_chars(&segment))
    } else {
        owned("installer.exe")
    }
}

/// Where a download to `destination` is written while it runs: beside it,
/// with `.download` after its name (`download.tmp` inside it when it has no
/// name).
pub open spec fn temporary_path(destination: Seq<char>) -> Seq<char> {
    match file_name(destination) {
        Some(f) => join(parent(destination)->0, f + ".download"@),
        None => join(destination, "download.tmp"@),
    }
}

/// Where a download to `destination` is written while it runs.
pub fn temporary_download_path(destination: &str) -> (r: String)
    ensures
        r@ == temporary_path(destination@),
{
    let d = chars_of(destination);
    match path_file_name(&d) {
        Some(f) => {
            let mut name = f;
            let suffix = chars_of(".download");
            crate::text::append_chars(&mut name, &suffix);
            let p = path_parent(&d);
            proof {
                crate::paths::lemma_file_name_has_parent(d@);
            }
            match p {
                Some(q) => string_of(&path_join(&q, &name)),
                None => string_of(&path_join(&d, &name)),
            }
        },
        None => string_of(&path_join(&d, &chars_of("download.tmp"))),
    }
}

/// A sanitized segment has the length of the value, holds only segment
/// characters, and sanitizing it again changes nothing.
pub proof fn lemma_sanitized_segment(value: Seq<char>)
    ensures
        sanitized_segment(value).len() == value.len(),
        forall|i: int| 0 <= i < value.len() ==> segment_char(#[trigger] sanitized_segment(value)[i]),
        sanitized_segment(sanitized_segment(value)) == sanitized_segment(value),
{
    assert(sanitized_segment(sanitized_segment(value)) =~= sanitized_segment(value));
}

/// A download is never saved under an empty name.
pub proof fn lemma_url_file_name_nonempty(url: Seq<char>)
    ensures
        url_file_name(url).len() > 0,
{
    reveal_strlit("installer.exe");
    let segment = before_first(after_last(url, '/'), '?');
    if trim(segment).len() > 0 {
        crate::text::lemma_trim_len(segment);
    }
}

// ---------------------------------------------------------------------------
// Retries
// ---------------------------------------------------------------------------
/// How many times a download is tried.
pub const DOWNLOAD_RETRY_ATTEMPTS: usize = 3;

/// Seconds waited after the first failed try; each later try waits that
/// many times its number.
pub const DOWNLOAD_RETRY_DELAY_SECONDS: u64 = 2;

/// What follows one try of a download.
pub enum DownloadStep {
    /// The file is in place.
    Done,
    /// Wait, then make try number `next_attempt`.
    Retry { next_attempt: usize, delay_seconds: u64 },
    /// Give up with this message.
    Fail(String),
}

pub open spec fn download_failure_text(url: Seq<char>, error: Seq<char>) -> Seq<char> {
    "Falha ao baixar "@ + url + " após "@ + decimal(DOWNLOAD_RETRY_ATTEMPTS as nat)
        + " tentativa(s): "@ + error
}

/// What follows try number `attempt` (counted from 1) of the download of
/// `url`, given its outcome: success ends; a failure before the last try
/// waits 2 s times the try's number and tries again; a failure at the last
/// try gives up, naming the last error.
pub fn download_attempt_step(url: &str, attempt: usize, outcome: Result<(), String>) -> (r:
    DownloadStep)
    requires
        1 <= attempt <= DOWNLOAD_RETRY_ATTEMPTS,
    ensures
        match outcome {
            Ok(()) => r is Done,
            Err(e) => if attempt < DOWNLOAD_RETRY_ATTEMPTS {
                r == (DownloadStep::Retry {
                    next_attempt: (attempt + 1) as usize,
                    delay_seconds: (DOWNLOAD_RETRY_DELAY_SECONDS * attempt) as u64,
                })
            } else {
                r is Fail && r->Fail_0@ == download_failure_text(url@, e@)
            },
        },
{
    match outcome {
        Ok(()) => DownloadStep::Done,
        Err(e) => {
            if attempt < DOWNLOAD_RETRY_ATTEMPTS {
                DownloadStep::Retry {
                    next_attempt: attempt + 1,
                    delay_seconds: DOWNLOAD_RETRY_DELAY_SECONDS * (attempt as u64),
                }
            } else {
                let mut m = owned("Falha ao baixar ");
                m.append(url);
                m.append(" após ");
                let n = decimal_string(DOWNLOAD_RETRY_ATTEMPTS as u64);
                m.append(n.as_str());
                m.append(" tentativa(s): ");
                m.append(e.as_str());
                DownloadStep::Fail(m)
            }
        },
    }
}

} // verus!
