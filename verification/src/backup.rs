//! Backups of the data directory: the archive format, how archives are
//! built from files and checked before a restore, the paths they may hold,
//! and which stored backups are kept.
use vstd::prelude::*;
use std::time::Duration;
use crate::error::AppError;
use crate::push::{duration_nanos, duration_new};
use crate::text::{
    all_digits, chars_eq, chars_of, digits_upto, digits_value, ends_with_chars, ends_with_seq,
    int_decimal, join_strings, joined, lemma_lex_asymmetric, lemma_lex_irreflexive,
    lemma_lex_transitive, lex_less, lex_lt, occurs_at, occurs_at_exec, owned, push_chars,
    push_count, push_decimal, push_str, split_char_seq, split_chars, str_eq, string_of, views,
};

verus! {

// ---------------------------------------------------------------------------
// The archive format
// ---------------------------------------------------------------------------

pub const BACKUP_FORMAT: &'static str = "my-media-sub-backup";
pub const BACKUP_FORMAT_VERSION: u32 = 1;
pub const DEFAULT_RETENTION: usize = 7;
pub const MAX_FILES: usize = 4096;

/// A backup of the data directory: its format, the versions it was made
/// with, when, and each file.
#[derive(Debug, Clone)]
pub struct BackupArchive {
    pub format: String,
    pub format_version: u32,
    pub app_version: String,
    pub schema_version: u32,
    pub created_at: i64,
    pub files: Vec<BackupFile>,
}

/// One file of a backup: its path below the data directory, its size, the
/// SHA-256 of its bytes in lower-case hex, and the bytes in base64.
#[derive(Debug, Clone)]
pub struct BackupFile {
    pub path: String,
    pub size: u64,
    pub sha256: String,
    pub content_base64: String,
}

/// What a checked archive holds.
#[derive(Debug, Clone)]
pub struct BackupPreview {
    pub valid: bool,
    pub format_version: u32,
    pub app_version: String,
    pub schema_version: u32,
    pub created_at: i64,
    pub file_count: usize,
    pub total_bytes: u64,
    pub files: Vec<BackupFilePreview>,
    pub warnings: Vec<String>,
}

/// One file of a checked archive, with the schema version of its store
/// where it is one.
#[derive(Debug, Clone)]
pub struct BackupFilePreview {
    pub path: String,
    pub size: u64,
    pub schema_version: Option<u32>,
}

/// A backup kept in the backup folder.
#[derive(Debug, Clone, PartialEq, Eq)]
pub struct StoredBackup {
    pub name: String,
    pub size: u64,
    pub modified_at: i64,
}

/// What a restore did.
#[derive(Debug, Clone)]
pub struct RestoreResult {
    pub restored_files: usize,
    pub snapshot: String,
    pub restart_required: bool,
    pub message: String,
}

// ---------------------------------------------------------------------------
// The policy
// ---------------------------------------------------------------------------

/// How often backups are made, how many are kept, and how large an archive
/// and the backup folder may grow.
#[derive(Debug, Clone, Copy)]
pub struct BackupPolicy {
    pub interval: Duration,
    pub retention: usize,
    pub max_archive_bytes: u64,
    pub max_storage_bytes: u64,
}

pub const DEFAULT_INTERVAL_HOURS: u64 = 24;
pub const DEFAULT_MAX_ARCHIVE_MB: u64 = 256;
pub const DEFAULT_MAX_STORAGE_MB: u64 = 512;
pub const MIN_RETENTION: u64 = 1;
pub const MAX_RETENTION: u64 = 100;
pub const BYTES_PER_MB: u64 = 1048576;
pub const SECONDS_PER_HOUR: u64 = 3600;

/// `str::parse::<u64>`: an optional `+`, then decimal digits, within `u64`.
pub open spec fn parse_u64_spec(s: Seq<char>) -> Option<u64> {
    let body = if s.len() > 0 && s[0] == '+' {
        s.drop_first()
    } else {
        s
    };
    if body.len() > 0 && all_digits(body) && digits_value(body) <= u64::MAX {
        Some(digits_value(body) as u64)
    } else {
        None
    }
}

/// `str::parse::<u64>`.
pub fn parse_u64_str(s: &str) -> (r: Option<u64>)
    ensures
        r == parse_u64_spec(s@),
{
    let v = chars_of(s);
    let start: usize = if v.len() > 0 && v[0] == '+' {
        1
    } else {
        0
    };
    assert(v@.skip(start as int) =~= if v@.len() > 0 && v@[0] == '+' {
        v@.drop_first()
    } else {
        v@
    });
    if start == v.len() {
        return None;
    }
    match digits_upto(v.as_slice(), start, 0xffff_ffff_ffff_ffff) {
        Some(x) => Some(x as u64),
        None => None,
    }
}

/// A setting read as a number, or its default where it is missing or not a
/// number.
pub open spec fn setting_or(value: Option<Seq<char>>, default: u64) -> u64 {
    match value {
        Some(v) => match parse_u64_spec(v) {
            Some(n) => n,
            None => default,
        },
        None => default,
    }
}

fn setting_value(value: &Option<String>, default: u64) -> (r: u64)
    ensures
        r == setting_or(
            match value {
                Some(v) => Some(v@),
                None => None,
            },
            default,
        ),
{
    match value {
        Some(v) => match parse_u64_str(v.as_str()) {
            Some(n) => n,
            None => default,
        },
        None => default,
    }
}

/// The view of an optional setting.
pub open spec fn setting_view(value: Option<String>) -> Option<Seq<char>> {
    match value {
        Some(v) => Some(v@),
        None => None,
    }
}

/// The settings can be scaled to seconds and bytes without overflowing.
pub open spec fn policy_settings_fit(
    interval_hours: Option<String>,
    max_archive_mb: Option<String>,
    max_storage_mb: Option<String>,
) -> bool {
    &&& setting_or(setting_view(interval_hours), DEFAULT_INTERVAL_HOURS) * SECONDS_PER_HOUR <= u64::MAX
    &&& setting_or(setting_view(max_archive_mb), DEFAULT_MAX_ARCHIVE_MB) * BYTES_PER_MB <= u64::MAX
    &&& setting_or(setting_view(max_storage_mb), DEFAULT_MAX_STORAGE_MB) * BYTES_PER_MB <= u64::MAX
}

impl BackupPolicy {
    /// The policy from the values of `BACKUP_INTERVAL_HOURS`,
    /// `BACKUP_RETENTION`, `BACKUP_MAX_ARCHIVE_MB` and `BACKUP_MAX_STORAGE_MB`:
    /// every day, seven backups, 256 MiB per archive and 512 MiB in all where
    /// a value is missing or not a number; the retention kept within 1 and
    /// 100.
    pub fn from_env(
        interval_hours: Option<String>,
        retention: Option<String>,
        max_archive_mb: Option<String>,
        max_storage_mb: Option<String>,
    ) -> (r: BackupPolicy)
        requires
            policy_settings_fit(interval_hours, max_archive_mb, max_storage_mb),
        ensures
            duration_nanos(r.interval) == setting_or(setting_view(interval_hours), DEFAULT_INTERVAL_HOURS)
                * SECONDS_PER_HOUR * 1_000_000_000,
            r.retention as int == ({
                let n = setting_or(setting_view(retention), DEFAULT_RETENTION as u64);
                if n < MIN_RETENTION {
                    MIN_RETENTION as int
                } else if n > MAX_RETENTION {
                    MAX_RETENTION as int
                } else {
                    n as int
                }
            }),
            r.max_archive_bytes == setting_or(setting_view(max_archive_mb), DEFAULT_MAX_ARCHIVE_MB)
                * BYTES_PER_MB,
            r.max_storage_bytes == setting_or(setting_view(max_storage_mb), DEFAULT_MAX_STORAGE_MB)
                * BYTES_PER_MB,
    {
        let hours = setting_value(&interval_hours, DEFAULT_INTERVAL_HOURS);
        let kept = setting_value(&retention, DEFAULT_RETENTION as u64);
        let archive_mb = setting_value(&max_archive_mb, DEFAULT_MAX_ARCHIVE_MB);
        let storage_mb = setting_value(&max_storage_mb, DEFAULT_MAX_STORAGE_MB);
        let kept: u64 = if kept < MIN_RETENTION {
            MIN_RETENTION
        } else if kept > MAX_RETENTION {
            MAX_RETENTION
        } else {
            kept
        };
        BackupPolicy {
            interval: duration_new(hours * SECONDS_PER_HOUR, 0),
            retention: kept as usize,
            max_archive_bytes: archive_mb * BYTES_PER_MB,
            max_storage_bytes: storage_mb * BYTES_PER_MB,
        }
    }
}

// ---------------------------------------------------------------------------
// Labels and names
// ---------------------------------------------------------------------------

pub const MAX_LABEL_CHARS: usize = 32;
pub const DEFAULT_LABEL: &'static str = "manual";

/// A character a label keeps: an ASCII letter or digit, or `-`.
pub open spec fn label_char(c: char) -> bool {
    ('a' <= c && c <= 'z') || ('A' <= c && c <= 'Z') || ('0' <= c && c <= '9') || c == '-'
}

/// The characters of `s` a label keeps, in order.
pub open spec fn label_chars(s: Seq<char>) -> Seq<char>
    decreases s.len(),
{
    if s.len() == 0 {
        seq![]
    } else if label_char(s.last()) {
        label_chars(s.drop_last()).push(s.last())
    } else {
        label_chars(s.drop_last())
    }
}

/// A label made safe for a file name: its letters, digits and `-`, at most
/// thirty-two of them, or `manual` where none is left.
pub open spec fn safe_label(label: Seq<char>) -> Seq<char> {
    let kept = label_chars(label);
    let cut = if kept.len() > MAX_LABEL_CHARS {
        kept.take(MAX_LABEL_CHARS as int)
    } else {
        kept
    };
    if cut.len() == 0 {
        DEFAULT_LABEL@
    } else {
        cut
    }
}

/// A label made safe for a file name.
pub fn sanitize_label(label: &str) -> (r: String)
    ensures
        r@ == safe_label(label@),
{
    let v = chars_of(label);
    let mut kept: Vec<char> = Vec::new();
    let mut i: usize = 0;
    while i < v.len()
        invariant
            i <= v.len(),
            v@ == label@,
            kept@ == label_chars(v@.take(i as int)),
        decreases v.len() - i,
    {
        assert(v@.take(i + 1).drop_last() =~= v@.take(i as int));
        assert(v@.take(i + 1).last() == v@[i as int]);
        let c = v[i];
        if ('a' <= c && c <= 'z') || ('A' <= c && c <= 'Z') || ('0' <= c && c <= '9') || c == '-' {
            kept.push(c);
        }
        i += 1;
    }
    assert(v@.take(v.len() as int) =~= v@);
    if kept.len() > MAX_LABEL_CHARS {
        kept.truncate(MAX_LABEL_CHARS);
    }
    if kept.len() == 0 {
        owned(DEFAULT_LABEL)
    } else {
        string_of(kept.as_slice())
    }
}

// ---------------------------------------------------------------------------
// Paths inside an archive
// ---------------------------------------------------------------------------

pub const MSG_PATH_NOT_RELATIVE: &'static str = "备份路径必须是非空相对路径";
pub const MSG_PATH_TRAVERSAL: &'static str = "备份路径包含路径穿越";
pub const MSG_PATH_ILLEGAL: &'static str = "备份路径包含非法字符";
pub const MSG_PATH_RESERVED: &'static str = "备份路径使用保留位置: ";
pub const BACKUPS_DIR: &'static str = "backups";
pub const RESTART_MARKER: &'static str = "restart-required.json";
pub const PATH_SEP: &'static str = "/";

/// The names a path is made of, as `Path::components` reads a path on Unix:
/// the pieces between `/`, where empty pieces and `.` are dropped but for a
/// `.` that begins the path; or the message it is refused with, for the
/// first piece that is `.`, `..` (leaving the folder) or holds a backslash.
pub open spec fn path_names(pieces: Seq<Seq<char>>) -> Result<Seq<Seq<char>>, Seq<char>>
    decreases pieces.len(),
{
    if pieces.len() == 0 {
        Ok(seq![])
    } else {
        match path_names(pieces.drop_last()) {
            Err(m) => Err(m),
            Ok(names) => {
                let p = pieces.last();
                if p.len() == 0 || (p == seq!['.'] && pieces.len() > 1) {
                    Ok(names)
                } else if p == seq!['.'] || p == seq!['.', '.'] {
                    Err(MSG_PATH_TRAVERSAL@)
                } else if p.contains('\\') {
                    Err(MSG_PATH_ILLEGAL@)
                } else {
                    Ok(names.push(p))
                }
            },
        }
    }
}

proof fn lemma_path_names_err_extends(pieces: Seq<Seq<char>>, k: int, m: Seq<char>)
    requires
        0 <= k <= pieces.len(),
        path_names(pieces.take(k)) == Err::<Seq<Seq<char>>, Seq<char>>(m),
    ensures
        path_names(pieces) == Err::<Seq<Seq<char>>, Seq<char>>(m),
    decreases pieces.len() - k,
{
    if k == pieces.len() {
        assert(pieces.take(k) =~= pieces);
    } else {
        assert(pieces.take(k + 1).drop_last() =~= pieces.take(k));
        lemma_path_names_err_extends(pieces, k + 1, m);
    }
}

/// A path an archive may hold, with `/` between its names, or the message
/// it is refused with: it must be relative and not empty, must not leave
/// its folder, and must not name the backup folder or the restart marker.
pub open spec fn safe_path(path: Seq<char>) -> Result<Seq<char>, Seq<char>> {
    if path.len() == 0 || path[0] == '/' {
        Err(MSG_PATH_NOT_RELATIVE@)
    } else {
        match path_names(split_char_seq(path, '/')) {
            Err(m) => Err(m),
            Ok(names) => {
                let relative = joined(names, PATH_SEP@);
                if (names.len() > 0 && names[0] == BACKUPS_DIR@) || relative == RESTART_MARKER@ {
                    Err(MSG_PATH_RESERVED@ + relative)
                } else {
                    Ok(relative)
                }
            },
        }
    }
}

/// A refusal with the message `m`.
pub open spec fn invalid_with(e: AppError, m: Seq<char>) -> bool {
    e is Validation && e.message() == m
}

fn char_vec_is(v: &Vec<char>, s: &str) -> (r: bool)
    ensures
        r == (v@ == s@),
{
    let w = chars_of(s);
    chars_eq(v.as_slice(), w.as_slice())
}

fn has_backslash(v: &Vec<char>) -> (r: bool)
    ensures
        r == v@.contains('\\'),
{
    let mut i: usize = 0;
    while i < v.len()
        invariant
            i <= v.len(),
            forall|j: int| 0 <= j < i ==> v@[j] != '\\',
        decreases v.len() - i,
    {
        if v[i] == '\\' {
            assert(v@[i as int] == '\\');
            return true;
        }
        i += 1;
    }
    false
}

/// The path as an archive holds it, or why it may not.
pub fn safe_relative_path(path: &str) -> (r: Result<String, AppError>)
    ensures
        match safe_path(path@) {
            Ok(p) => r matches Ok(s) && s@ == p,
            Err(m) => r matches Err(e) && invalid_with(e, m),
        },
{
    let v = chars_of(path);
    if v.len() == 0 || v[0] == '/' {
        return Err(AppError::Validation(owned(MSG_PATH_NOT_RELATIVE)));
    }
    let pieces = split_chars(v.as_slice(), '/');
    let ghost pv = pieces@.map_values(|x: Vec<char>| x@);
    assert(pv == split_char_seq(path@, '/'));
    let mut names: Vec<String> = Vec::new();
    let mut i: usize = 0;
    assert(pv.take(0) =~= seq![]);
    assert(views(names@) =~= seq![]);
    while i < pieces.len()
        invariant
            i <= pieces.len(),
            pv == pieces@.map_values(|x: Vec<char>| x@),
            pv == split_char_seq(path@, '/'),
            path@.len() > 0 && path@[0] != '/',
            path_names(pv.take(i as int)) == Ok::<Seq<Seq<char>>, Seq<char>>(views(names@)),
        decreases pieces.len() - i,
    {
        assert(pv.take(i + 1).drop_last() =~= pv.take(i as int));
        assert(pv.take(i + 1).last() == pieces@[i as int]@);
        let p = &pieces[i];
        if p.len() == 0 || (char_vec_is(p, ".") && i > 0) {
        } else if char_vec_is(p, ".") || char_vec_is(p, "..") {
            proof {
                reveal_strlit(".");
                reveal_strlit("..");
                assert(seq!['.'] =~= "."@);
                assert(seq!['.', '.'] =~= ".."@);
            }
            proof {
                assert(path_names(pv.take(i + 1)) == Err::<Seq<Seq<char>>, Seq<char>>(MSG_PATH_TRAVERSAL@));
                lemma_path_names_err_extends(pv, i + 1, MSG_PATH_TRAVERSAL@);
            }
            return Err(AppError::Validation(owned(MSG_PATH_TRAVERSAL)));
        } else if has_backslash(p) {
            proof {
                reveal_strlit(".");
                reveal_strlit("..");
                assert(seq!['.'] =~= "."@);
                assert(seq!['.', '.'] =~= ".."@);
            }
            proof {
                assert(path_names(pv.take(i + 1)) == Err::<Seq<Seq<char>>, Seq<char>>(MSG_PATH_ILLEGAL@));
                lemma_path_names_err_extends(pv, i + 1, MSG_PATH_ILLEGAL@);
            }
            return Err(AppError::Validation(owned(MSG_PATH_ILLEGAL)));
        } else {
            proof {
                reveal_strlit(".");
                reveal_strlit("..");
                assert(seq!['.'] =~= "."@);
                assert(seq!['.', '.'] =~= ".."@);
            }
            let ghost before = views(names@);
            names.push(string_of(p.as_slice()));
            assert(views(names@) =~= before.push(p@));
        }
        proof {
            reveal_strlit(".");
            assert(seq!['.'] =~= "."@);
        }
        i += 1;
    }
    assert(pv.take(pieces.len() as int) =~= pv);
    let relative = join_strings(names.as_slice(), PATH_SEP);
    let reserved_dir = names.len() > 0 && str_eq(names[0].as_str(), BACKUPS_DIR);
    if reserved_dir || str_eq(relative.as_str(), RESTART_MARKER) {
        let mut m = owned(MSG_PATH_RESERVED);
        push_str(&mut m, relative.as_str());
        return Err(AppError::Validation(m));
    }
    Ok(relative)
}

// ---------------------------------------------------------------------------
// Digests and base64
// ---------------------------------------------------------------------------

/// The SHA-256 digest of the bytes, as `ring::digest::digest` with
/// `SHA256` computes it.
pub uninterp spec fn sha256_of(bytes: Seq<u8>) -> Seq<u8>;

/// The bytes in standard base64 with padding, as
/// `base64::engine::general_purpose::STANDARD.encode` writes them.
pub uninterp spec fn base64_text(bytes: Seq<u8>) -> Seq<char>;

/// The bytes that standard base64 text stands for, or `None` where it is not
/// valid, as `base64::engine::general_purpose::STANDARD.decode` reads it.
pub uninterp spec fn base64_bytes(text: Seq<char>) -> Option<Seq<u8>>;

/// The longest input `ring` hashes: its length in bits must fit in 64 bits.
pub const MAX_DIGEST_INPUT: u64 = 0x1fff_ffff_ffff_ffff;

/// `ring::digest::digest(&SHA256, bytes)`: the digest, 32 bytes long. It
/// panics on inputs whose length in bits does not fit in 64 bits, which
/// `requires` leaves out.
#[verifier::external_body]
fn sha256_digest(bytes: &[u8]) -> (r: Vec<u8>)
    requires
        bytes@.len() <= MAX_DIGEST_INPUT,
    ensures
        r@ == sha256_of(bytes@),
        r@.len() == 32,
{
    ring::digest::digest(&ring::digest::SHA256, bytes).as_ref().to_vec()
}

/// `STANDARD.encode(bytes)` of the `base64` crate. It panics where the
/// length of the text would overflow `usize`, which `requires` leaves out.
#[verifier::external_body]
fn base64_encode(bytes: &[u8]) -> (r: String)
    requires
        bytes@.len() <= usize::MAX / 2,
    ensures
        r@ == base64_text(bytes@),
{
    base64::Engine::encode(&base64::engine::general_purpose::STANDARD, bytes)
}

/// `STANDARD.decode(text)` of the `base64` crate, with the error dropped:
/// the decoded bytes, three for each four characters at most.
#[verifier::external_body]
fn base64_decode(text: &str) -> (r: Option<Vec<u8>>)
    ensures
        match r {
            Some(b) => base64_bytes(text@) == Some(b@) && b@.len() * 4 <= text@.len() * 3,
            None => base64_bytes(text@) is None,
        },
{
    base64::Engine::decode(&base64::engine::general_purpose::STANDARD, text).ok()
}

/// A hex digit in lower case.
pub open spec fn hex_digit(d: int) -> char {
    if d < 10 {
        (('0' as u32) + (d as u32)) as char
    } else {
        (('a' as u32) + ((d - 10) as u32)) as char
    }
}

/// The bytes as lower-case hex, two digits each (`{:02x}`).
pub open spec fn hex_lower(bytes: Seq<u8>) -> Seq<char>
    decreases bytes.len(),
{
    if bytes.len() == 0 {
        seq![]
    } else {
        hex_lower(bytes.drop_last()) + seq![hex_digit((bytes.last() / 16) as int), hex_digit((bytes.last() % 16) as int)]
    }
}

fn hex_char(d: u8) -> (r: char)
    requires
        d < 16,
    ensures
        r == hex_digit(d as int),
{
    if d < 10 {
        (d + 48) as char
    } else {
        (d - 10 + 97) as char
    }
}

/// The SHA-256 of the bytes in lower-case hex.
pub fn sha256_hex(bytes: &[u8]) -> (r: String)
    requires
        bytes@.len() <= MAX_DIGEST_INPUT,
    ensures
        r@ == hex_lower(sha256_of(bytes@)),
{
    let d = sha256_digest(bytes);
    let mut out: Vec<char> = Vec::new();
    let mut i: usize = 0;
    assert(d@.take(0) =~= seq![]);
    while i < d.len()
        invariant
            i <= d.len(),
            out@ == hex_lower(d@.take(i as int)),
        decreases d.len() - i,
    {
        assert(d@.take(i + 1).drop_last() =~= d@.take(i as int));
        assert(d@.take(i + 1).last() == d@[i as int]);
        let b = d[i];
        out.push(hex_char(b / 16));
        out.push(hex_char(b % 16));
        assert(out@ =~= hex_lower(d@.take(i + 1)));
        i += 1;
    }
    assert(d@.take(d.len() as int) =~= d@);
    string_of(out.as_slice())
}

// ---------------------------------------------------------------------------
// Checking an archive
// ---------------------------------------------------------------------------

pub const MSG_UNSUPPORTED_FORMAT: &'static str = "不支持的备份格式或版本";
pub const MSG_SCHEMA_PREFIX: &'static str = "备份 schema ";
pub const MSG_SCHEMA_MIDDLE: &'static str = " 高于当前支持版本 ";
pub const MSG_TOO_MANY_FILES: &'static str = "备份文件数量超过安全上限";
pub const MSG_DUPLICATE_PATH: &'static str = "备份包含重复路径: ";
pub const MSG_BAD_BASE64: &'static str = "备份文件 Base64 无效: ";
pub const MSG_CHECKSUM: &'static str = "备份文件校验失败: ";
pub const MSG_RESTORE_TOO_LARGE: &'static str = "备份内容超过恢复安全上限";
pub const SETTINGS_FILE: &'static str = "settings.json";
pub const MSG_NO_SETTINGS: &'static str = "备份不包含 settings.json，将保留当前设置";

/// Why an archive is refused: it is not valid, it is too large, or the
/// schema check of one of its stores failed with an error.
pub enum ArchiveFault {
    Invalid(Seq<char>),
    OverLimit(Seq<char>),
    Store(AppError),
}

/// The error reports the fault.
pub open spec fn reports(e: AppError, f: ArchiveFault) -> bool {
    match f {
        ArchiveFault::Invalid(m) => e is Validation && e.message() == m,
        ArchiveFault::OverLimit(m) => e is RateLimited && e.message() == m,
        ArchiveFault::Store(x) => e == x,
    }
}

/// What checking the files of an archive found so far: their paths, their
/// total size (kept at most `u64::MAX`), and each file's path, size and
/// store schema version.
pub struct ArchiveScan {
    pub paths: Seq<Seq<char>>,
    pub total: int,
    pub previews: Seq<(Seq<char>, u64, Option<u32>)>,
}

/// `a + b`, kept at most `u64::MAX`.
pub open spec fn saturating_sum(a: int, b: int) -> int {
    if a + b > u64::MAX {
        u64::MAX as int
    } else {
        a + b
    }
}

/// Checks one more file: a safe path not seen before, valid base64 of the
/// stated size and digest, a total within the limit, and a store check
/// that passed.
pub open spec fn scan_file(
    state: ArchiveScan,
    f: BackupFile,
    verdict: Result<Option<u32>, AppError>,
    max_bytes: u64,
) -> Result<ArchiveScan, ArchiveFault> {
    match safe_path(f.path@) {
        Err(m) => Err(ArchiveFault::Invalid(m)),
        Ok(rel) => if state.paths.contains(rel) {
            Err(ArchiveFault::Invalid(MSG_DUPLICATE_PATH@ + rel))
        } else {
            match base64_bytes(f.content_base64@) {
                None => Err(ArchiveFault::Invalid(MSG_BAD_BASE64@ + rel)),
                Some(bytes) => if bytes.len() != f.size || hex_lower(sha256_of(bytes)) != f.sha256@ {
                    Err(ArchiveFault::Invalid(MSG_CHECKSUM@ + rel))
                } else if saturating_sum(state.total, f.size as int) > max_bytes {
                    Err(ArchiveFault::OverLimit(MSG_RESTORE_TOO_LARGE@))
                } else {
                    match verdict {
                        Err(e) => Err(ArchiveFault::Store(e)),
                        Ok(v) => Ok(
                            ArchiveScan {
                                paths: state.paths.push(rel),
                                total: saturating_sum(state.total, f.size as int),
                                previews: state.previews.push((rel, f.size, v)),
                            },
                        ),
                    }
                },
            }
        },
    }
}

/// Checks the files in order; the first refusal wins.
pub open spec fn scan_files(
    files: Seq<BackupFile>,
    verdicts: Seq<Result<Option<u32>, AppError>>,
    max_bytes: u64,
) -> Result<ArchiveScan, ArchiveFault>
    decreases files.len(),
{
    if files.len() == 0 {
        Ok(ArchiveScan { paths: seq![], total: 0, previews: seq![] })
    } else {
        match scan_files(files.drop_last(), verdicts, max_bytes) {
            Err(f) => Err(f),
            Ok(state) => scan_file(state, files.last(), verdicts[files.len() - 1], max_bytes),
        }
    }
}

/// Checks an archive: its format and version, a schema not newer than the
/// current one, not too many files, then each file.
pub open spec fn archive_check(
    a: BackupArchive,
    verdicts: Seq<Result<Option<u32>, AppError>>,
    max_bytes: u64,
    current_schema: u32,
) -> Result<ArchiveScan, ArchiveFault> {
    if a.format@ != BACKUP_FORMAT@ || a.format_version != BACKUP_FORMAT_VERSION {
        Err(ArchiveFault::Invalid(MSG_UNSUPPORTED_FORMAT@))
    } else if a.schema_version > current_schema {
        Err(
            ArchiveFault::Invalid(
                MSG_SCHEMA_PREFIX@ + int_decimal(a.schema_version as int) + MSG_SCHEMA_MIDDLE@ + int_decimal(
                    current_schema as int,
                ),
            ),
        )
    } else if a.files@.len() > MAX_FILES {
        Err(ArchiveFault::Invalid(MSG_TOO_MANY_FILES@))
    } else {
        scan_files(a.files@, verdicts, max_bytes)
    }
}

/// The view of file previews.
pub open spec fn preview_views(v: Seq<BackupFilePreview>) -> Seq<(Seq<char>, u64, Option<u32>)> {
    v.map_values(|p: BackupFilePreview| (p.path@, p.size, p.schema_version))
}

/// Every file's text is short enough to hash what it decodes to.
pub open spec fn hashable_contents(files: Seq<BackupFile>) -> bool {
    forall|i: int| 0 <= i < files.len() ==> (#[trigger] files[i]).content_base64@.len() <= MAX_DIGEST_INPUT
}

proof fn lemma_scan_err_extends(
    files: Seq<BackupFile>,
    verdicts: Seq<Result<Option<u32>, AppError>>,
    max_bytes: u64,
    k: int,
    f: ArchiveFault,
)
    requires
        0 <= k <= files.len(),
        scan_files(files.take(k), verdicts, max_bytes) == Err::<ArchiveScan, ArchiveFault>(f),
    ensures
        scan_files(files, verdicts, max_bytes) == Err::<ArchiveScan, ArchiveFault>(f),
    decreases files.len() - k,
{
    if k == files.len() {
        assert(files.take(k) =~= files);
    } else {
        assert(files.take(k + 1).drop_last() =~= files.take(k));
        lemma_scan_err_extends(files, verdicts, max_bytes, k + 1, f);
    }
}

fn strings_hold(v: &Vec<String>, s: &str) -> (r: bool)
    ensures
        r == views(v@).contains(s@),
{
    let mut i: usize = 0;
    while i < v.len()
        invariant
            i <= v.len(),
            forall|j: int| 0 <= j < i ==> views(v@)[j] != s@,
        decreases v.len() - i,
    {
        if str_eq(v[i].as_str(), s) {
            assert(views(v@)[i as int] == s@);
            return true;
        }
        i += 1;
    }
    false
}

fn copy_verdict(v: &Result<Option<u32>, AppError>) -> (r: Result<Option<u32>, AppError>)
    ensures
        r == *v,
{
    match v {
        Ok(x) => Ok(*x),
        Err(e) => Err(
            match e {
                AppError::NotFound(m) => AppError::NotFound(m.clone()),
                AppError::Validation(m) => AppError::Validation(m.clone()),
                AppError::Internal(m) => AppError::Internal(m.clone()),
                AppError::Database(m) => AppError::Database(m.clone()),
                AppError::RateLimited(m) => AppError::RateLimited(m.clone()),
                AppError::Config(m) => AppError::Config(m.clone()),
                AppError::Http(m) => AppError::Http(m.clone()),
            },
        ),
    }
}

/// Checks an archive before a restore and describes it. `store_verdicts`
/// holds, for each file in order, what the schema check of its store found:
/// its schema version (`None` for a file that is no store) or the error.
pub fn validate_archive(
    archive: &BackupArchive,
    max_bytes: u64,
    current_schema_version: u32,
    store_verdicts: &Vec<Result<Option<u32>, AppError>>,
) -> (r: Result<BackupPreview, AppError>)
    requires
        store_verdicts@.len() == archive.files@.len(),
        hashable_contents(archive.files@),
    ensures
        match archive_check(*archive, store_verdicts@, max_bytes, current_schema_version) {
            Err(f) => r matches Err(e) && reports(e, f),
            Ok(scan) => r matches Ok(p) && {
                &&& p.valid
                &&& p.format_version == archive.format_version
                &&& p.app_version@ == archive.app_version@
                &&& p.schema_version == archive.schema_version
                &&& p.created_at == archive.created_at
                &&& p.file_count == archive.files@.len()
                &&& p.total_bytes == scan.total
                &&& preview_views(p.files@) == scan.previews
                &&& views(p.warnings@) == if scan.paths.contains(SETTINGS_FILE@) {
                    Seq::<Seq<char>>::empty()
                } else {
                    seq![MSG_NO_SETTINGS@]
                }
            },
        },
{
    if !str_eq(archive.format.as_str(), BACKUP_FORMAT) || archive.format_version != BACKUP_FORMAT_VERSION {
        return Err(AppError::Validation(owned(MSG_UNSUPPORTED_FORMAT)));
    }
    if archive.schema_version > current_schema_version {
        let mut m = owned(MSG_SCHEMA_PREFIX);
        push_decimal(&mut m, archive.schema_version as i64);
        push_str(&mut m, MSG_SCHEMA_MIDDLE);
        push_decimal(&mut m, current_schema_version as i64);
        return Err(AppError::Validation(m));
    }
    if archive.files.len() > MAX_FILES {
        return Err(AppError::Validation(owned(MSG_TOO_MANY_FILES)));
    }
    let ghost files = archive.files@;
    let ghost verdicts = store_verdicts@;
    let mut seen: Vec<String> = Vec::new();
    let mut total: u64 = 0;
    let mut previews: Vec<BackupFilePreview> = Vec::new();
    let mut i: usize = 0;
    assert(files.take(0) =~= seq![]);
    assert(views(seen@) =~= seq![]);
    assert(preview_views(previews@) =~= seq![]);
    while i < archive.files.len()
        invariant
            i <= archive.files.len(),
            files == archive.files@,
            verdicts == store_verdicts@,
            verdicts.len() == files.len(),
            hashable_contents(files),
            archive_check(*archive, verdicts, max_bytes, current_schema_version) == scan_files(
                files,
                verdicts,
                max_bytes,
            ),
            scan_files(files.take(i as int), verdicts, max_bytes) == Ok::<ArchiveScan, ArchiveFault>(
                ArchiveScan { paths: views(seen@), total: total as int, previews: preview_views(previews@) },
            ),
        decreases archive.files.len() - i,
    {
        assert(files.take(i + 1).drop_last() =~= files.take(i as int));
        assert(files.take(i + 1).last() == files[i as int]);
        let ghost state = ArchiveScan { paths: views(seen@), total: total as int, previews: preview_views(previews@) };
        let file = &archive.files[i];
        let relative = match safe_relative_path(file.path.as_str()) {
            Ok(p) => p,
            Err(e) => {
                proof {
                    lemma_scan_err_extends(files, verdicts, max_bytes, i + 1, ArchiveFault::Invalid(e.message()));
                }
                return Err(e);
            },
        };
        if strings_hold(&seen, relative.as_str()) {
            let mut m = owned(MSG_DUPLICATE_PATH);
            push_str(&mut m, relative.as_str());
            proof {
                lemma_scan_err_extends(files, verdicts, max_bytes, i + 1, ArchiveFault::Invalid(m@));
            }
            return Err(AppError::Validation(m));
        }
        let bytes = match base64_decode(file.content_base64.as_str()) {
            Some(b) => b,
            None => {
                let mut m = owned(MSG_BAD_BASE64);
                push_str(&mut m, relative.as_str());
                proof {
                    lemma_scan_err_extends(files, verdicts, max_bytes, i + 1, ArchiveFault::Invalid(m@));
                }
                return Err(AppError::Validation(m));
            },
        };
        if bytes.len() as u64 != file.size || {
            let digest = sha256_hex(bytes.as_slice());
            !str_eq(digest.as_str(), file.sha256.as_str())
        } {
            let mut m = owned(MSG_CHECKSUM);
            push_str(&mut m, relative.as_str());
            proof {
                lemma_scan_err_extends(files, verdicts, max_bytes, i + 1, ArchiveFault::Invalid(m@));
            }
            return Err(AppError::Validation(m));
        }
        let next = total.saturating_add(file.size);
        if next > max_bytes {
            proof {
                lemma_scan_err_extends(
                    files,
                    verdicts,
                    max_bytes,
                    i + 1,
                    ArchiveFault::OverLimit(MSG_RESTORE_TOO_LARGE@),
                );
            }
            return Err(AppError::RateLimited(owned(MSG_RESTORE_TOO_LARGE)));
        }
        let schema_version = match copy_verdict(&store_verdicts[i]) {
            Ok(v) => v,
            Err(e) => {
                proof {
                    lemma_scan_err_extends(files, verdicts, max_bytes, i + 1, ArchiveFault::Store(e));
                }
                return Err(e);
            },
        };
        total = next;
        let ghost before_seen = views(seen@);
        let ghost before_previews = preview_views(previews@);
        seen.push(relative.clone());
        previews.push(BackupFilePreview { path: relative, size: file.size, schema_version });
        assert(views(seen@) =~= before_seen.push(relative@));
        assert(preview_views(previews@) =~= before_previews.push((relative@, file.size, schema_version)));
        i += 1;
    }
    assert(files.take(files.len() as int) =~= files);
    let mut warnings: Vec<String> = Vec::new();
    if !strings_hold(&seen, SETTINGS_FILE) {
        warnings.push(owned(MSG_NO_SETTINGS));
        assert(views(warnings@) =~= seq![MSG_NO_SETTINGS@]);
    } else {
        assert(views(warnings@) =~= Seq::<Seq<char>>::empty());
    }
    Ok(BackupPreview {
        valid: true,
        format_version: archive.format_version,
        app_version: archive.app_version.clone(),
        schema_version: archive.schema_version,
        created_at: archive.created_at,
        file_count: archive.files.len(),
        total_bytes: total,
        files: previews,
        warnings,
    })
}

// ---------------------------------------------------------------------------
// Building an archive
// ---------------------------------------------------------------------------

pub const MSG_TOO_MANY_DATA_PREFIX: &'static str = "数据文件过多，最多允许 ";
pub const MSG_TOO_MANY_DATA_SUFFIX: &'static str = " 个";
pub const MSG_ARCHIVE_TOO_LARGE_PREFIX: &'static str = "备份内容超过 ";
pub const MSG_ARCHIVE_TOO_LARGE_SUFFIX: &'static str = " MiB 上限";

/// The view of an archived file: path, size, digest and base64 text.
pub open spec fn file_view(f: BackupFile) -> (Seq<char>, u64, Seq<char>, Seq<char>) {
    (f.path@, f.size, f.sha256@, f.content_base64@)
}

/// The views of archived files.
pub open spec fn file_views(v: Seq<BackupFile>) -> Seq<(Seq<char>, u64, Seq<char>, Seq<char>)> {
    v.map_values(|f: BackupFile| file_view(f))
}

/// The entries an archive holds for the data files (path below the data
/// folder, bytes), in order, with their total size; or why it cannot be
/// made: a path that is not safe, or a total above the limit.
pub open spec fn archived_files(files: Seq<(String, Vec<u8>)>, max_bytes: u64) -> Result<
    (Seq<(Seq<char>, u64, Seq<char>, Seq<char>)>, int),
    ArchiveFault,
>
    decreases files.len(),
{
    if files.len() == 0 {
        Ok((seq![], 0))
    } else {
        match archived_files(files.drop_last(), max_bytes) {
            Err(f) => Err(f),
            Ok((entries, total)) => {
                let (path, bytes) = files.last();
                match safe_path(path@) {
                    Err(m) => Err(ArchiveFault::Invalid(m)),
                    Ok(rel) => {
                        let next = saturating_sum(total, bytes@.len() as int);
                        if next > max_bytes {
                            Err(
                                ArchiveFault::OverLimit(
                                    MSG_ARCHIVE_TOO_LARGE_PREFIX@ + int_decimal((max_bytes / BYTES_PER_MB) as int)
                                        + MSG_ARCHIVE_TOO_LARGE_SUFFIX@,
                                ),
                            )
                        } else {
                            Ok(
                                (
                                    entries.push(
                                        (rel, bytes@.len() as u64, hex_lower(sha256_of(bytes@)), base64_text(bytes@)),
                                    ),
                                    next,
                                ),
                            )
                        }
                    },
                }
            },
        }
    }
}

/// Every file is small enough to hash and to write in base64.
pub open spec fn archivable(files: Seq<(String, Vec<u8>)>) -> bool {
    forall|i: int|
        0 <= i < files.len() ==> (#[trigger] files[i]).1@.len() <= MAX_DIGEST_INPUT && files[i].1@.len()
            <= usize::MAX / 2
}

/// The archive made of the data files, or why it cannot be made: too many
/// files, or a refused entry.
pub open spec fn archive_made(
    r: Result<BackupArchive, AppError>,
    files: Seq<(String, Vec<u8>)>,
    max_bytes: u64,
    app_version: Seq<char>,
    schema_version: u32,
    created_at: i64,
) -> bool {
    if files.len() > MAX_FILES {
        r matches Err(e) && invalid_with(
            e,
            MSG_TOO_MANY_DATA_PREFIX@ + int_decimal(MAX_FILES as int) + MSG_TOO_MANY_DATA_SUFFIX@,
        )
    } else {
        match archived_files(files, max_bytes) {
            Err(f) => r matches Err(e) && reports(e, f),
            Ok((entries, _)) => r matches Ok(a) && {
                &&& a.format@ == BACKUP_FORMAT@
                &&& a.format_version == BACKUP_FORMAT_VERSION
                &&& a.app_version@ == app_version
                &&& a.schema_version == schema_version
                &&& a.created_at == created_at
                &&& file_views(a.files@) == entries
            },
        }
    }
}

proof fn lemma_archived_err_extends(files: Seq<(String, Vec<u8>)>, max_bytes: u64, k: int, f: ArchiveFault)
    requires
        0 <= k <= files.len(),
        archived_files(files.take(k), max_bytes) is Err,
        archived_files(files.take(k), max_bytes)->Err_0 == f,
    ensures
        archived_files(files, max_bytes) is Err,
        archived_files(files, max_bytes)->Err_0 == f,
    decreases files.len() - k,
{
    if k == files.len() {
        assert(files.take(k) =~= files);
    } else {
        assert(files.take(k + 1).drop_last() =~= files.take(k));
        lemma_archived_err_extends(files, max_bytes, k + 1, f);
    }
}

/// The archive of the data files, read in order as (path below the data
/// folder, bytes), made at `created_at` by the given versions.
pub fn archive_from_files(
    files: &Vec<(String, Vec<u8>)>,
    max_bytes: u64,
    app_version: &str,
    schema_version: u32,
    created_at: i64,
) -> (r: Result<BackupArchive, AppError>)
    requires
        archivable(files@),
    ensures
        archive_made(r, files@, max_bytes, app_version@, schema_version, created_at),
{
    if files.len() > MAX_FILES {
        let mut m = owned(MSG_TOO_MANY_DATA_PREFIX);
        push_count(&mut m, MAX_FILES);
        push_str(&mut m, MSG_TOO_MANY_DATA_SUFFIX);
        return Err(AppError::Validation(m));
    }
    let ghost all = files@;
    let mut total: u64 = 0;
    let mut out: Vec<BackupFile> = Vec::new();
    let mut i: usize = 0;
    assert(all.take(0) =~= seq![]);
    assert(file_views(out@) =~= seq![]);
    while i < files.len()
        invariant
            i <= files.len(),
            all == files@,
            all.len() <= MAX_FILES,
            archivable(all),
            archived_files(all.take(i as int), max_bytes) == Ok::<
                (Seq<(Seq<char>, u64, Seq<char>, Seq<char>)>, int),
                ArchiveFault,
            >((file_views(out@), total as int)),
        decreases files.len() - i,
    {
        assert(all.take(i + 1).drop_last() =~= all.take(i as int));
        assert(all.take(i + 1).last() == all[i as int]);
        let (path, bytes) = (&files[i].0, &files[i].1);
        let relative = match safe_relative_path(path.as_str()) {
            Ok(p) => p,
            Err(e) => {
                proof {
                    lemma_archived_err_extends(all, max_bytes, i + 1, ArchiveFault::Invalid(e.message()));
                }
                return Err(e);
            },
        };
        let next = total.saturating_add(bytes.len() as u64);
        if next > max_bytes {
            let mut m = owned(MSG_ARCHIVE_TOO_LARGE_PREFIX);
            push_decimal(&mut m, (max_bytes / BYTES_PER_MB) as i64);
            push_str(&mut m, MSG_ARCHIVE_TOO_LARGE_SUFFIX);
            proof {
                lemma_archived_err_extends(all, max_bytes, i + 1, ArchiveFault::OverLimit(m@));
            }
            return Err(AppError::RateLimited(m));
        }
        total = next;
        let entry = BackupFile {
            path: relative,
            size: bytes.len() as u64,
            sha256: sha256_hex(bytes.as_slice()),
            content_base64: base64_encode(bytes.as_slice()),
        };
        let ghost before = file_views(out@);
        out.push(entry);
        assert(file_views(out@) =~= before.push(file_view(entry)));
        i += 1;
    }
    assert(all.take(all.len() as int) =~= all);
    Ok(BackupArchive {
        format: owned(BACKUP_FORMAT),
        format_version: BACKUP_FORMAT_VERSION,
        app_version: owned(app_version),
        schema_version,
        created_at,
        files: out,
    })
}

// ---------------------------------------------------------------------------
// Reading an archive back
// ---------------------------------------------------------------------------

/// The files an archive restores (path, bytes), in order, or why it cannot:
/// a path that is not safe, or text that is not base64.
pub open spec fn restored_files(files: Seq<BackupFile>) -> Result<Seq<(Seq<char>, Seq<u8>)>, ArchiveFault>
    decreases files.len(),
{
    if files.len() == 0 {
        Ok(seq![])
    } else {
        match restored_files(files.drop_last()) {
            Err(f) => Err(f),
            Ok(done) => {
                let f = files.last();
                match safe_path(f.path@) {
                    Err(m) => Err(ArchiveFault::Invalid(m)),
                    Ok(rel) => match base64_bytes(f.content_base64@) {
                        None => Err(ArchiveFault::Invalid(MSG_BAD_BASE64@ + rel)),
                        Some(bytes) => Ok(done.push((rel, bytes))),
                    },
                }
            },
        }
    }
}

/// The view of restored files.
pub open spec fn restored_views(v: Seq<(String, Vec<u8>)>) -> Seq<(Seq<char>, Seq<u8>)> {
    v.map_values(|x: (String, Vec<u8>)| (x.0@, x.1@))
}

proof fn lemma_restored_err_extends(files: Seq<BackupFile>, k: int, f: ArchiveFault)
    requires
        0 <= k <= files.len(),
        restored_files(files.take(k)) is Err,
        restored_files(files.take(k))->Err_0 == f,
    ensures
        restored_files(files) is Err,
        restored_files(files)->Err_0 == f,
    decreases files.len() - k,
{
    if k == files.len() {
        assert(files.take(k) =~= files);
    } else {
        assert(files.take(k + 1).drop_last() =~= files.take(k));
        lemma_restored_err_extends(files, k + 1, f);
    }
}

/// The files an archive restores, with their paths checked again.
pub fn decode_archive_files(archive: &BackupArchive) -> (r: Result<Vec<(String, Vec<u8>)>, AppError>)
    ensures
        match restored_files(archive.files@) {
            Err(f) => r matches Err(e) && reports(e, f),
            Ok(v) => r matches Ok(out) && restored_views(out@) == v,
        },
{
    let ghost all = archive.files@;
    let mut out: Vec<(String, Vec<u8>)> = Vec::new();
    let mut i: usize = 0;
    assert(all.take(0) =~= seq![]);
    assert(restored_views(out@) =~= seq![]);
    while i < archive.files.len()
        invariant
            i <= archive.files.len(),
            all == archive.files@,
            restored_files(all.take(i as int)) == Ok::<Seq<(Seq<char>, Seq<u8>)>, ArchiveFault>(
                restored_views(out@),
            ),
        decreases archive.files.len() - i,
    {
        assert(all.take(i + 1).drop_last() =~= all.take(i as int));
        assert(all.take(i + 1).last() == all[i as int]);
        let file = &archive.files[i];
        let relative = match safe_relative_path(file.path.as_str()) {
            Ok(p) => p,
            Err(e) => {
                proof {
                    lemma_restored_err_extends(all, i + 1, ArchiveFault::Invalid(e.message()));
                }
                return Err(e);
            },
        };
        let bytes = match base64_decode(file.content_base64.as_str()) {
            Some(b) => b,
            None => {
                let mut m = owned(MSG_BAD_BASE64);
                push_str(&mut m, relative.as_str());
                proof {
                    lemma_restored_err_extends(all, i + 1, ArchiveFault::Invalid(m@));
                }
                return Err(AppError::Validation(m));
            },
        };
        let ghost before = restored_views(out@);
        let ghost entry = (relative@, bytes@);
        out.push((relative, bytes));
        assert(restored_views(out@) =~= before.push(entry));
        i += 1;
    }
    assert(all.take(all.len() as int) =~= all);
    Ok(out)
}

// ---------------------------------------------------------------------------
// Stored backups
// ---------------------------------------------------------------------------

pub const BACKUP_NAME_PREFIX: &'static str = "backup-";
pub const BACKUP_NAME_SUFFIX: &'static str = ".json";
pub const NAME_SEP: &'static str = "-";
pub const PRE_RESTORE_MIDDLE: &'static str = "-pre-restore-";
pub const TEMP_SUFFIX: &'static str = ".tmp";
pub const UNIQUE_CHARS: usize = 8;

/// A file of the backup folder that is a stored backup.
pub open spec fn backup_file_name(name: Seq<char>) -> bool {
    occurs_at(name, BACKUP_NAME_PREFIX@, 0) && ends_with_seq(name, BACKUP_NAME_SUFFIX@)
}

/// Whether a file of the backup folder is a stored backup.
pub fn is_backup_file_name(name: &str) -> (r: bool)
    ensures
        r == backup_file_name(name@),
{
    let v = chars_of(name);
    let prefix = chars_of(BACKUP_NAME_PREFIX);
    let suffix = chars_of(BACKUP_NAME_SUFFIX);
    occurs_at_exec(v.as_slice(), prefix.as_slice(), 0) && ends_with_chars(v.as_slice(), suffix.as_slice())
}

/// A data file that goes into an archive: no unfinished temporary file and
/// not the restart marker.
pub open spec fn archived_file_name(name: Seq<char>) -> bool {
    !ends_with_seq(name, TEMP_SUFFIX@) && name != RESTART_MARKER@
}

/// Whether a data file goes into an archive.
pub fn is_archived_file_name(name: &str) -> (r: bool)
    ensures
        r == archived_file_name(name@),
{
    let v = chars_of(name);
    let suffix = chars_of(TEMP_SUFFIX);
    !ends_with_chars(v.as_slice(), suffix.as_slice()) && !str_eq(name, RESTART_MARKER)
}

/// Text whose characters are all ASCII, so that its first bytes are its
/// first characters.
pub open spec fn ascii_text(s: Seq<char>) -> bool {
    forall|i: int| 0 <= i < s.len() ==> (#[trigger] s[i]) < 128 as char
}

fn first_chars(v: &Vec<char>, n: usize) -> (r: Vec<char>)
    requires
        n <= v@.len(),
    ensures
        r@ == v@.take(n as int),
{
    let mut out: Vec<char> = Vec::new();
    let mut i: usize = 0;
    while i < n
        invariant
            i <= n <= v@.len(),
            out@ == v@.take(i as int),
        decreases n - i,
    {
        out.push(v[i]);
        assert(out@ =~= v@.take(i + 1));
        i += 1;
    }
    out
}

/// The name of a stored backup: `backup-<created>-<label>-<unique>.json`,
/// with the label made safe and the first eight characters of `unique`.
pub open spec fn stored_name(created_at: i64, label: Seq<char>, unique: Seq<char>) -> Seq<char> {
    BACKUP_NAME_PREFIX@ + int_decimal(created_at as int) + NAME_SEP@ + safe_label(label) + NAME_SEP@
        + unique.take(UNIQUE_CHARS as int) + BACKUP_NAME_SUFFIX@
}

/// The name of a stored backup.
pub fn stored_backup_name(created_at: i64, label: &str, unique: &str) -> (r: String)
    requires
        unique@.len() >= UNIQUE_CHARS,
        ascii_text(unique@),
    ensures
        r@ == stored_name(created_at, label@, unique@),
{
    let u = chars_of(unique);
    let mut name = owned(BACKUP_NAME_PREFIX);
    push_decimal(&mut name, created_at);
    push_str(&mut name, NAME_SEP);
    let safe = sanitize_label(label);
    push_str(&mut name, safe.as_str());
    push_str(&mut name, NAME_SEP);
    let head = first_chars(&u, UNIQUE_CHARS);
    push_chars(&mut name, head.as_slice());
    push_str(&mut name, BACKUP_NAME_SUFFIX);
    assert(head@ =~= unique@.take(UNIQUE_CHARS as int));
    name
}

/// The name of the snapshot taken before a restore:
/// `backup-<now>-pre-restore-<unique>.json`.
pub open spec fn snapshot_name(now: i64, unique: Seq<char>) -> Seq<char> {
    BACKUP_NAME_PREFIX@ + int_decimal(now as int) + PRE_RESTORE_MIDDLE@ + unique.take(UNIQUE_CHARS as int)
        + BACKUP_NAME_SUFFIX@
}

/// The name of the snapshot taken before a restore.
pub fn snapshot_backup_name(now: i64, unique: &str) -> (r: String)
    requires
        unique@.len() >= UNIQUE_CHARS,
        ascii_text(unique@),
    ensures
        r@ == snapshot_name(now, unique@),
{
    let u = chars_of(unique);
    let mut name = owned(BACKUP_NAME_PREFIX);
    push_decimal(&mut name, now);
    push_str(&mut name, PRE_RESTORE_MIDDLE);
    let head = first_chars(&u, UNIQUE_CHARS);
    push_chars(&mut name, head.as_slice());
    push_str(&mut name, BACKUP_NAME_SUFFIX);
    assert(head@ =~= unique@.take(UNIQUE_CHARS as int));
    name
}

/// `a` comes before `b` among stored backups: newer first, then by name
/// from last to first.
pub open spec fn stored_before(a: StoredBackup, b: StoredBackup) -> bool {
    a.modified_at > b.modified_at || (a.modified_at == b.modified_at && lex_lt(b.name@, a.name@))
}

/// No backup comes after one that it should precede.
pub open spec fn stored_order(s: Seq<StoredBackup>) -> bool {
    forall|i: int, j: int| 0 <= i < j < s.len() ==> !stored_before(#[trigger] s[j], #[trigger] s[i])
}

proof fn lemma_stored_before_transitive(a: StoredBackup, b: StoredBackup, c: StoredBackup)
    requires
        stored_before(a, b),
        stored_before(b, c),
    ensures
        stored_before(a, c),
{
    if a.modified_at == b.modified_at && b.modified_at == c.modified_at {
        lemma_lex_transitive(c.name@, b.name@, a.name@);
    }
}

proof fn lemma_stored_before_asymmetric(a: StoredBackup, b: StoredBackup)
    requires
        stored_before(a, b),
    ensures
        !stored_before(b, a),
{
    if a.modified_at == b.modified_at {
        lemma_lex_asymmetric(b.name@, a.name@);
    }
}

fn is_stored_before(a: &StoredBackup, b: &StoredBackup) -> (r: bool)
    ensures
        r == stored_before(*a, *b),
{
    a.modified_at > b.modified_at || (a.modified_at == b.modified_at && lex_less(b.name.as_str(), a.name.as_str()))
}

fn copy_stored(b: &StoredBackup) -> (r: StoredBackup)
    ensures
        r == *b,
{
    StoredBackup { name: b.name.clone(), size: b.size, modified_at: b.modified_at }
}

/// The stored backups, newest first and then by name from last to first,
/// as the backup folder lists them.
pub fn sort_stored_backups(backups: &Vec<StoredBackup>) -> (r: Vec<StoredBackup>)
    ensures
        r@.to_multiset() == backups@.to_multiset(),
        stored_order(r@),
{
    broadcast use vstd::seq_lib::group_to_multiset_ensures;

    let mut out: Vec<StoredBackup> = Vec::new();
    let mut i: usize = 0;
    assert(backups@.take(0) =~= seq![]);
    while i < backups.len()
        invariant
            i <= backups.len(),
            out@.to_multiset() == backups@.take(i as int).to_multiset(),
            stored_order(out@),
        decreases backups.len() - i,
    {
        let x = copy_stored(&backups[i]);
        let mut k: usize = 0;
        while k < out.len() && !is_stored_before(&x, &out[k])
            invariant
                k <= out.len(),
                forall|m: int| 0 <= m < k ==> !stored_before(x, #[trigger] out@[m]),
            decreases out.len() - k,
        {
            k += 1;
        }
        let ghost before = out@;
        out.insert(k, x);
        proof {
            assert(out@ =~= before.insert(k as int, x));
            vstd::seq_lib::to_multiset_insert(before, k as int, x);
            assert(backups@.take(i + 1) =~= backups@.take(i as int).push(backups@[i as int]));
            vstd::seq_lib::to_multiset_build(backups@.take(i as int), backups@[i as int]);
            assert forall|a: int, b: int| 0 <= a < b < out@.len() implies !stored_before(
                #[trigger] out@[b],
                #[trigger] out@[a],
            ) by {
                if b < k {
                    assert(out@[a] == before[a] && out@[b] == before[b]);
                } else if b == k {
                    assert(out@[a] == before[a]);
                } else if a < k {
                    assert(out@[a] == before[a] && out@[b] == before[b - 1]);
                    assert(!stored_before(before[b - 1], before[k as int]) || b - 1 == k);
                    if stored_before(before[b - 1], before[a]) {
                        assert(stored_before(x, before[k as int]));
                        if b - 1 == k {
                        } else {
                            if stored_before(before[b - 1], x) {
                                lemma_stored_before_transitive(before[b - 1], x, before[k as int]);
                            }
                        }
                    }
                } else if a == k {
                    assert(out@[b] == before[b - 1]);
                    assert(stored_before(x, before[k as int]));
                    if stored_before(before[b - 1], x) {
                        if b - 1 == k {
                            lemma_stored_before_asymmetric(x, before[k as int]);
                        } else {
                            lemma_stored_before_transitive(before[b - 1], x, before[k as int]);
                        }
                    }
                } else {
                    assert(out@[a] == before[a - 1] && out@[b] == before[b - 1]);
                }
            }
        }
        i += 1;
    }
    assert(backups@.take(backups.len() as int) =~= backups@);
    out
}

/// The names of the stored backups after the first `keep`, in order: those
/// a pruning removes.
pub fn backups_to_prune(sorted: &Vec<StoredBackup>, keep: usize) -> (r: Vec<String>)
    ensures
        r@.len() == if keep >= sorted@.len() {
            0
        } else {
            sorted@.len() - keep
        },
        forall|k: int| 0 <= k < r@.len() ==> (#[trigger] r@[k])@ == sorted@[keep + k].name@,
{
    let mut out: Vec<String> = Vec::new();
    let mut i: usize = keep;
    while i < sorted.len()
        invariant
            keep <= i,
            i >= sorted.len() ==> out@.len() == (if keep >= sorted@.len() {
                0
            } else {
                sorted@.len() - keep
            }),
            i < sorted.len() ==> out@.len() == i - keep,
            forall|k: int| 0 <= k < out@.len() ==> (#[trigger] out@[k])@ == sorted@[keep + k].name@,
        decreases sorted.len() - i,
    {
        out.push(sorted[i].name.clone());
        i += 1;
    }
    out
}

/// The sizes of the stored backups added up.
pub open spec fn sizes_total(backups: Seq<StoredBackup>) -> int
    decreases backups.len(),
{
    if backups.len() == 0 {
        0
    } else {
        sizes_total(backups.drop_last()) + backups.last().size
    }
}

proof fn lemma_sizes_total_grows(backups: Seq<StoredBackup>, i: int, j: int)
    requires
        0 <= i <= j <= backups.len(),
    ensures
        sizes_total(backups.take(i)) <= sizes_total(backups.take(j)),
    decreases j - i,
{
    if i < j {
        assert(backups.take(j).drop_last() =~= backups.take(j - 1));
        lemma_sizes_total_grows(backups, i, j - 1);
    }
}

/// The space the stored backups take.
pub fn backup_storage_size(backups: &Vec<StoredBackup>) -> (r: u64)
    requires
        sizes_total(backups@) <= u64::MAX,
    ensures
        r == sizes_total(backups@),
{
    let mut total: u64 = 0;
    let mut i: usize = 0;
    assert(backups@.take(0) =~= seq![]);
    while i < backups.len()
        invariant
            i <= backups.len(),
            sizes_total(backups@) <= u64::MAX,
            total == sizes_total(backups@.take(i as int)),
        decreases backups.len() - i,
    {
        assert(backups@.take(i + 1).drop_last() =~= backups@.take(i as int));
        proof {
            lemma_sizes_total_grows(backups@, i + 1, backups@.len() as int);
            assert(backups@.take(backups@.len() as int) =~= backups@);
        }
        total = total + backups[i].size;
        i += 1;
    }
    assert(backups@.take(backups.len() as int) =~= backups@);
    total
}

pub const MSG_STORAGE_BUDGET_PREFIX: &'static str = "备份存储预算不足：上限 ";
pub const MSG_STORAGE_BUDGET_SUFFIX: &'static str = " MiB";

/// Whether a new backup of `new_len` bytes would take the backup folder
/// beyond its budget.
pub fn storage_over_budget(stored: u64, new_len: usize, max_storage_bytes: u64) -> (r: bool)
    ensures
        r == (saturating_sum(stored as int, new_len as int) > max_storage_bytes),
{
    stored.saturating_add(new_len as u64) > max_storage_bytes
}

/// The refusal of a backup that does not fit the budget even after pruning.
pub fn storage_budget_error(max_storage_bytes: u64) -> (r: AppError)
    ensures
        r is RateLimited,
        r.message() == MSG_STORAGE_BUDGET_PREFIX@ + int_decimal((max_storage_bytes / BYTES_PER_MB) as int)
            + MSG_STORAGE_BUDGET_SUFFIX@,
{
    let mut m = owned(MSG_STORAGE_BUDGET_PREFIX);
    push_decimal(&mut m, (max_storage_bytes / BYTES_PER_MB) as i64);
    push_str(&mut m, MSG_STORAGE_BUDGET_SUFFIX);
    AppError::RateLimited(m)
}

// ---------------------------------------------------------------------------
// Restoring
// ---------------------------------------------------------------------------

pub const RESTORE_CONFIRMATION: &'static str = "RESTORE DATA";
pub const MSG_RESTORE_CONFIRMATION: &'static str = "恢复确认文本必须为 RESTORE DATA";
pub const MSG_RESTORED: &'static str = "数据已原子恢复；当前进程仍持有旧内存快照，请安全重启服务";

/// A restore goes ahead only when confirmed with `RESTORE DATA`.
pub fn check_restore_confirmation(confirmation: &str) -> (r: Result<(), AppError>)
    ensures
        confirmation@ == RESTORE_CONFIRMATION@ ==> r is Ok,
        confirmation@ != RESTORE_CONFIRMATION@ ==> (r matches Err(e) && invalid_with(e, MSG_RESTORE_CONFIRMATION@)),
{
    if str_eq(confirmation, RESTORE_CONFIRMATION) {
        Ok(())
    } else {
        Err(AppError::Validation(owned(MSG_RESTORE_CONFIRMATION)))
    }
}

/// What a finished restore reports: the files written, the snapshot taken
/// before, and that the service must restart.
pub fn restore_result(restored_files: usize, snapshot: String) -> (r: RestoreResult)
    ensures
        r.restored_files == restored_files,
        r.snapshot == snapshot,
        r.restart_required,
        r.message@ == MSG_RESTORED@,
{
    RestoreResult { restored_files, snapshot, restart_required: true, message: owned(MSG_RESTORED) }
}

// ---------------------------------------------------------------------------
// Laws of archive paths and round trips
// ---------------------------------------------------------------------------

proof fn lemma_split_without_sep(b: Seq<char>)
    requires
        !b.contains('/'),
    ensures
        split_char_seq(b, '/') == seq![b],
    decreases b.len(),
{
    if b.len() > 0 {
        assert(!b.drop_last().contains('/')) by {
            if b.drop_last().contains('/') {
                let j = choose|j: int| 0 <= j < b.drop_last().len() && b.drop_last()[j] == '/';
                assert(b[j] == '/');
            }
        }
        lemma_split_without_sep(b.drop_last());
        assert(b.last() != '/') by {
            assert(b[b.len() - 1] == b.last());
        }
        assert(b.drop_last().push(b.last()) =~= b);
        assert(seq![b.drop_last()].update(0, b.drop_last().push(b.last())) =~= seq![b]);
    } else {
        assert(b =~= Seq::<char>::empty());
    }
}

proof fn lemma_split_after_sep(s: Seq<char>, b: Seq<char>)
    requires
        !b.contains('/'),
    ensures
        split_char_seq(s + seq!['/'] + b, '/') == split_char_seq(s, '/').push(b),
    decreases b.len(),
{
    let t = s + seq!['/'] + b;
    if b.len() == 0 {
        assert(t.drop_last() =~= s);
        assert(t.last() == '/');
        assert(b =~= Seq::<char>::empty());
    } else {
        assert(!b.drop_last().contains('/')) by {
            if b.drop_last().contains('/') {
                let j = choose|j: int| 0 <= j < b.drop_last().len() && b.drop_last()[j] == '/';
                assert(b[j] == '/');
            }
        }
        lemma_split_after_sep(s, b.drop_last());
        assert(t.drop_last() =~= s + seq!['/'] + b.drop_last());
        assert(t.last() == b.last());
        assert(b.last() != '/') by {
            assert(b[b.len() - 1] == b.last());
        }
        let rest = split_char_seq(s, '/').push(b.drop_last());
        assert(b.drop_last().push(b.last()) =~= b);
        assert(rest.last() == b.drop_last());
        assert(rest.update(rest.len() - 1, rest.last().push(b.last())) =~= split_char_seq(s, '/').push(b));
    }
}

proof fn lemma_split_joined(names: Seq<Seq<char>>)
    requires
        names.len() > 0,
        forall|k: int| 0 <= k < names.len() ==> !(#[trigger] names[k]).contains('/'),
    ensures
        split_char_seq(joined(names, PATH_SEP@), '/') == names,
    decreases names.len(),
{
    reveal_strlit("/");
    assert(PATH_SEP@ =~= seq!['/']);
    if names.len() == 1 {
        assert(names[0] == names.last());
        lemma_split_without_sep(names[0]);
        assert(seq![names[0]] =~= names);
    } else {
        let init = names.drop_last();
        assert forall|k: int| 0 <= k < init.len() implies !(#[trigger] init[k]).contains('/') by {
            assert(init[k] == names[k]);
        }
        lemma_split_joined(init);
        assert(names[names.len() - 1] == names.last());
        lemma_split_after_sep(joined(init, PATH_SEP@), names.last());
        assert(init.push(names.last()) =~= names);
    }
}

proof fn lemma_split_pieces_have_no_sep(s: Seq<char>)
    ensures
        forall|k: int| 0 <= k < split_char_seq(s, '/').len() ==> !(#[trigger] split_char_seq(s, '/')[k]).contains('/'),
        split_char_seq(s, '/').len() > 0,
    decreases s.len(),
{
    if s.len() > 0 {
        lemma_split_pieces_have_no_sep(s.drop_last());
        let rest = split_char_seq(s.drop_last(), '/');
        if s.last() != '/' {
            let upd = rest.last().push(s.last());
            assert(!upd.contains('/')) by {
                assert(rest[rest.len() - 1] == rest.last());
                if upd.contains('/') {
                    let j = choose|j: int| 0 <= j < upd.len() && upd[j] == '/';
                    if j < rest.last().len() {
                        assert(rest.last()[j] == '/');
                    }
                }
            }
        } else {
            assert(!Seq::<char>::empty().contains('/'));
        }
    }
}

proof fn lemma_split_first_piece(s: Seq<char>)
    requires
        s.len() > 0,
        s[0] != '/',
    ensures
        split_char_seq(s, '/')[0].len() > 0,
        split_char_seq(s, '/')[0][0] == s[0],
    decreases s.len(),
{
    lemma_split_pieces_have_no_sep(s);
    if s.len() == 1 {
        assert(s.drop_last() =~= Seq::<char>::empty());
        assert(s.last() == s[0]);
    } else {
        assert(s.drop_last()[0] == s[0]);
        lemma_split_first_piece(s.drop_last());
        lemma_split_pieces_have_no_sep(s.drop_last());
    }
}

/// The names a path is made of are non-empty, neither `.` nor `..`, hold no
/// backslash and, where the pieces hold no `/`, no `/` either.
proof fn lemma_path_names_clean(pieces: Seq<Seq<char>>)
    requires
        path_names(pieces) is Ok,
    ensures
        forall|k: int| 0 <= k < path_names(pieces)->Ok_0.len() ==> {
            let n = #[trigger] path_names(pieces)->Ok_0[k];
            &&& n.len() > 0
            &&& n != seq!['.']
            &&& n != seq!['.', '.']
            &&& !n.contains('\\')
        },
        (forall|k: int| 0 <= k < pieces.len() ==> !(#[trigger] pieces[k]).contains('/')) ==> forall|k: int|
            0 <= k < path_names(pieces)->Ok_0.len() ==> !(#[trigger] path_names(pieces)->Ok_0[k]).contains('/'),
        pieces.len() > 0 && pieces[0].len() > 0 ==> path_names(pieces)->Ok_0.len() > 0 && path_names(pieces)->Ok_0[0]
            == pieces[0],
    decreases pieces.len(),
{
    if pieces.len() > 0 {
        let init = pieces.drop_last();
        lemma_path_names_clean(init);
        if pieces.len() > 1 {
            assert(init[0] == pieces[0]);
        }
        if forall|k: int| 0 <= k < pieces.len() ==> !(#[trigger] pieces[k]).contains('/') {
            assert forall|k: int| 0 <= k < init.len() implies !(#[trigger] init[k]).contains('/') by {
                assert(init[k] == pieces[k]);
            }
            assert(pieces[pieces.len() - 1] == pieces.last());
        }
    }
}

proof fn lemma_path_names_of_clean(names: Seq<Seq<char>>)
    requires
        forall|k: int| 0 <= k < names.len() ==> {
            let n = #[trigger] names[k];
            &&& n.len() > 0
            &&& n != seq!['.']
            &&& n != seq!['.', '.']
            &&& !n.contains('\\')
        },
    ensures
        path_names(names) == Ok::<Seq<Seq<char>>, Seq<char>>(names),
    decreases names.len(),
{
    if names.len() > 0 {
        let init = names.drop_last();
        assert forall|k: int| 0 <= k < init.len() implies {
            let n = #[trigger] init[k];
            &&& n.len() > 0
            &&& n != seq!['.']
            &&& n != seq!['.', '.']
            &&& !n.contains('\\')
        } by {
            assert(init[k] == names[k]);
        }
        lemma_path_names_of_clean(init);
        let p = names.last();
        assert(names[names.len() - 1] == p);
        assert(p.len() > 0 && p != seq!['.'] && p != seq!['.', '.'] && !p.contains('\\'));
        assert(init.push(p) =~= names);
    } else {
        assert(names =~= Seq::<Seq<char>>::empty());
    }
}

proof fn lemma_joined_starts_with_first(names: Seq<Seq<char>>)
    requires
        names.len() > 0,
        names[0].len() > 0,
    ensures
        joined(names, PATH_SEP@).len() > 0,
        joined(names, PATH_SEP@)[0] == names[0][0],
    decreases names.len(),
{
    if names.len() > 1 {
        assert(names.drop_last()[0] == names[0]);
        lemma_joined_starts_with_first(names.drop_last());
    }
}

/// A path an archive holds is safe as it stands: checking it again gives it
/// back unchanged.
pub proof fn safe_path_is_stable(path: Seq<char>)
    requires
        safe_path(path) is Ok,
    ensures
        safe_path(safe_path(path)->Ok_0) == safe_path(path),
{
    let pieces = split_char_seq(path, '/');
    lemma_split_pieces_have_no_sep(path);
    lemma_split_first_piece(path);
    lemma_path_names_clean(pieces);
    let names = path_names(pieces)->Ok_0;
    let rel = joined(names, PATH_SEP@);
    lemma_joined_starts_with_first(names);
    lemma_split_joined(names);
    lemma_path_names_of_clean(names);
}

/// Decoding what encoding wrote gives each file's bytes back.
pub open spec fn base64_round_trips(files: Seq<(String, Vec<u8>)>) -> bool {
    forall|i: int| 0 <= i < files.len() ==> base64_bytes(base64_text((#[trigger] files[i]).1@)) == Some(files[i].1@)
}

/// The paths of archived entries.
pub open spec fn entry_paths(entries: Seq<(Seq<char>, u64, Seq<char>, Seq<char>)>) -> Seq<Seq<char>> {
    entries.map_values(|e: (Seq<char>, u64, Seq<char>, Seq<char>)| e.0)
}

/// The previews a check makes of archived entries with the given store
/// schema versions.
pub open spec fn entry_previews(
    entries: Seq<(Seq<char>, u64, Seq<char>, Seq<char>)>,
    verdicts: Seq<Result<Option<u32>, AppError>>,
) -> Seq<(Seq<char>, u64, Option<u32>)> {
    Seq::new(entries.len(), |i: int| (entries[i].0, entries[i].1, verdicts[i]->Ok_0))
}

proof fn lemma_archive_scan(
    files: Seq<(String, Vec<u8>)>,
    stored: Seq<BackupFile>,
    verdicts: Seq<Result<Option<u32>, AppError>>,
    max_bytes: u64,
)
    requires
        archived_files(files, max_bytes) is Ok,
        file_views(stored) == archived_files(files, max_bytes)->Ok_0.0,
        archivable(files),
        base64_round_trips(files),
        entry_paths(archived_files(files, max_bytes)->Ok_0.0).no_duplicates(),
        verdicts.len() >= files.len(),
        forall|i: int| 0 <= i < files.len() ==> (#[trigger] verdicts[i]) is Ok,
    ensures
        scan_files(stored, verdicts, max_bytes) == Ok::<ArchiveScan, ArchiveFault>(
            ArchiveScan {
                paths: entry_paths(archived_files(files, max_bytes)->Ok_0.0),
                total: archived_files(files, max_bytes)->Ok_0.1,
                previews: entry_previews(archived_files(files, max_bytes)->Ok_0.0, verdicts),
            },
        ),
    decreases files.len(),
{
    let (entries, total) = archived_files(files, max_bytes)->Ok_0;
    assert(stored.len() == files.len()) by {
        assert(file_views(stored).len() == stored.len());
        lemma_archived_len(files, max_bytes);
    }
    if files.len() == 0 {
        assert(entry_paths(entries) =~= seq![]);
        assert(entry_previews(entries, verdicts) =~= seq![]);
    } else {
        let init = files.drop_last();
        let (path, bytes) = files.last();
        let (prev, prev_total) = archived_files(init, max_bytes)->Ok_0;
        let rel = safe_path(path@)->Ok_0;
        assert(entries == prev.push(
            (rel, bytes@.len() as u64, hex_lower(sha256_of(bytes@)), base64_text(bytes@)),
        ));
        let stored_init = stored.drop_last();
        assert(file_views(stored_init) =~= prev) by {
            assert(file_views(stored).drop_last() =~= file_views(stored_init));
        }
        assert forall|i: int| 0 <= i < init.len() implies base64_bytes(base64_text((#[trigger] init[i]).1@))
            == Some(init[i].1@) by {
            assert(init[i] == files[i]);
        }
        assert(entry_paths(prev) =~= entry_paths(entries).drop_last());
        assert(entry_paths(prev).no_duplicates());
        assert forall|i: int| 0 <= i < init.len() implies (#[trigger] init[i]).1@.len() <= MAX_DIGEST_INPUT
            && init[i].1@.len() <= usize::MAX / 2 by {
            assert(init[i] == files[i]);
        }
        assert(files[files.len() - 1].1@.len() <= MAX_DIGEST_INPUT);
        assert forall|i: int| 0 <= i < init.len() implies (#[trigger] verdicts[i]) is Ok by {
            assert(verdicts[i] == verdicts[i]);
        }
        lemma_archive_scan(init, stored_init, verdicts, max_bytes);
        let f = stored.last();
        assert(file_view(f) == file_views(stored)[stored.len() - 1]);
        assert(f.path@ == rel);
        safe_path_is_stable(path@);
        assert(!entry_paths(prev).contains(rel)) by {
            if entry_paths(prev).contains(rel) {
                let j = choose|j: int| 0 <= j < entry_paths(prev).len() && entry_paths(prev)[j] == rel;
                assert(entry_paths(entries)[j] == rel);
                assert(entry_paths(entries)[entries.len() - 1] == rel);
            }
        }
        assert(files[files.len() - 1] == files.last());
        assert(verdicts[files.len() - 1] is Ok);
        assert(f.size as int == bytes@.len());
        assert(entry_paths(entries) =~= entry_paths(prev).push(rel));
        assert(entry_previews(entries, verdicts) =~= entry_previews(prev, verdicts).push(
            (rel, bytes@.len() as u64, verdicts[files.len() - 1]->Ok_0),
        ));
    }
}

proof fn lemma_archived_len(files: Seq<(String, Vec<u8>)>, max_bytes: u64)
    requires
        archived_files(files, max_bytes) is Ok,
    ensures
        archived_files(files, max_bytes)->Ok_0.0.len() == files.len(),
    decreases files.len(),
{
    if files.len() > 0 {
        lemma_archived_len(files.drop_last(), max_bytes);
    }
}

/// An archive built from data files passes the check a restore makes, with
/// one preview per file, in order, and the same total size: given that the
/// files land on distinct paths, that decoding what encoding wrote gives
/// each file back, that the archive's schema is not newer than the current
/// one, and that every store check passes.
pub proof fn built_archive_passes_check(
    files: Seq<(String, Vec<u8>)>,
    max_bytes: u64,
    app_version: Seq<char>,
    schema_version: u32,
    created_at: i64,
    archive: BackupArchive,
    current_schema: u32,
    verdicts: Seq<Result<Option<u32>, AppError>>,
)
    requires
        archive_made(Ok(archive), files, max_bytes, app_version, schema_version, created_at),
        archivable(files),
        schema_version <= current_schema,
        base64_round_trips(files),
        archived_files(files, max_bytes) is Ok ==> entry_paths(archived_files(files, max_bytes)->Ok_0.0).no_duplicates(),
        verdicts.len() == files.len(),
        forall|i: int| 0 <= i < files.len() ==> (#[trigger] verdicts[i]) is Ok,
    ensures
        archived_files(files, max_bytes) is Ok,
        archive_check(archive, verdicts, max_bytes, current_schema) == Ok::<ArchiveScan, ArchiveFault>(
            ArchiveScan {
                paths: entry_paths(archived_files(files, max_bytes)->Ok_0.0),
                total: archived_files(files, max_bytes)->Ok_0.1,
                previews: entry_previews(archived_files(files, max_bytes)->Ok_0.0, verdicts),
            },
        ),
{
    lemma_archive_scan(files, archive.files@, verdicts, max_bytes);
    assert(archive.files@.len() == files.len()) by {
        lemma_archived_len(files, max_bytes);
        assert(file_views(archive.files@).len() == archive.files@.len());
    }
}

/// The files a restore writes for archived entries: each entry's path with
/// the bytes of the data file it was made from.
pub open spec fn entry_restores(
    entries: Seq<(Seq<char>, u64, Seq<char>, Seq<char>)>,
    files: Seq<(String, Vec<u8>)>,
) -> Seq<(Seq<char>, Seq<u8>)> {
    Seq::new(entries.len(), |i: int| (entries[i].0, files[i].1@))
}

proof fn lemma_archive_restore(files: Seq<(String, Vec<u8>)>, stored: Seq<BackupFile>, max_bytes: u64)
    requires
        archived_files(files, max_bytes) is Ok,
        file_views(stored) == archived_files(files, max_bytes)->Ok_0.0,
        base64_round_trips(files),
    ensures
        restored_files(stored) == Ok::<Seq<(Seq<char>, Seq<u8>)>, ArchiveFault>(
            entry_restores(archived_files(files, max_bytes)->Ok_0.0, files),
        ),
    decreases files.len(),
{
    let entries = archived_files(files, max_bytes)->Ok_0.0;
    lemma_archived_len(files, max_bytes);
    assert(file_views(stored).len() == stored.len());
    if files.len() == 0 {
        assert(entry_restores(entries, files) =~= seq![]);
    } else {
        let init = files.drop_last();
        let (path, bytes) = files.last();
        let prev = archived_files(init, max_bytes)->Ok_0.0;
        let rel = safe_path(path@)->Ok_0;
        let stored_init = stored.drop_last();
        assert(file_views(stored_init) =~= prev) by {
            assert(file_views(stored).drop_last() =~= file_views(stored_init));
        }
        assert forall|i: int| 0 <= i < init.len() implies base64_bytes(base64_text((#[trigger] init[i]).1@))
            == Some(init[i].1@) by {
            assert(init[i] == files[i]);
        }
        lemma_archive_restore(init, stored_init, max_bytes);
        lemma_archived_len(init, max_bytes);
        let f = stored.last();
        assert(file_view(f) == file_views(stored)[stored.len() - 1]);
        safe_path_is_stable(path@);
        assert(files[files.len() - 1] == files.last());
        assert(entry_restores(entries, files) =~= entry_restores(prev, init).push((rel, bytes@)));
    }
}

/// Restoring an archive built from data files writes each file back under
/// its path with the bytes it had, given that decoding what encoding wrote
/// gives each file back.
pub proof fn built_archive_restores_its_files(
    files: Seq<(String, Vec<u8>)>,
    max_bytes: u64,
    app_version: Seq<char>,
    schema_version: u32,
    created_at: i64,
    archive: BackupArchive,
)
    requires
        archive_made(Ok(archive), files, max_bytes, app_version, schema_version, created_at),
        base64_round_trips(files),
    ensures
        archived_files(files, max_bytes) is Ok,
        restored_files(archive.files@) == Ok::<Seq<(Seq<char>, Seq<u8>)>, ArchiveFault>(
            entry_restores(archived_files(files, max_bytes)->Ok_0.0, files),
        ),
{
    lemma_archive_restore(files, archive.files@, max_bytes);
}


proof fn lemma_archived_entry(files: Seq<(String, Vec<u8>)>, max_bytes: u64, i: int)
    requires
        archived_files(files, max_bytes) is Ok,
        0 <= i < files.len(),
    ensures
        archived_files(files, max_bytes)->Ok_0.0.len() == files.len(),
        archived_files(files, max_bytes)->Ok_0.0[i].3 == base64_text(files[i].1@),
    decreases files.len(),
{
    lemma_archived_len(files, max_bytes);
    if i < files.len() - 1 {
        let init = files.drop_last();
        lemma_archived_entry(init, max_bytes, i);
        assert(init[i] == files[i]);
    }
}

fn same_bytes(a: &[u8], b: &[u8]) -> (r: bool)
    ensures
        r == (a@ == b@),
{
    if a.len() != b.len() {
        return false;
    }
    let mut i: usize = 0;
    while i < a.len()
        invariant
            i <= a.len(),
            a@.len() == b@.len(),
            forall|j: int| 0 <= j < i ==> a@[j] == b@[j],
        decreases a.len() - i,
    {
        if a[i] != b[i] {
            return false;
        }
        i += 1;
    }
    assert(a@ =~= b@);
    true
}

/// Builds the archive of the data files (as [`archive_from_files`] does) and
/// reads each entry back: the archive, and whether decoding every entry gives
/// the bytes of the file it was made from. Where it does, restoring the
/// archive writes each file back under its path with the bytes it had.
pub fn archive_checked_by_decoding(
    files: &Vec<(String, Vec<u8>)>,
    max_bytes: u64,
    app_version: &str,
    schema_version: u32,
    created_at: i64,
) -> (r: Result<(BackupArchive, bool), AppError>)
    requires
        archivable(files@),
    ensures
        match r {
            Err(e) => archive_made(Err(e), files@, max_bytes, app_version@, schema_version, created_at),
            Ok((archive, back)) => {
                &&& archive_made(Ok(archive), files@, max_bytes, app_version@, schema_version, created_at)
                &&& back == base64_round_trips(files@)
                &&& back ==> restored_files(archive.files@) == Ok::<Seq<(Seq<char>, Seq<u8>)>, ArchiveFault>(
                    entry_restores(archived_files(files@, max_bytes)->Ok_0.0, files@),
                )
            },
        },
{
    let archive = match archive_from_files(files, max_bytes, app_version, schema_version, created_at) {
        Ok(a) => a,
        Err(e) => {
            return Err(e);
        },
    };
    proof {
        if files@.len() > MAX_FILES {
            assert(false);
        }
    }
    let ghost entries = archived_files(files@, max_bytes)->Ok_0.0;
    proof {
        lemma_archived_len(files@, max_bytes);
        assert(file_views(archive.files@).len() == archive.files@.len());
    }
    let mut i: usize = 0;
    while i < files.len()
        invariant
            i <= files.len(),
            archive_made(Ok(archive), files@, max_bytes, app_version@, schema_version, created_at),
            archived_files(files@, max_bytes) is Ok,
            entries == archived_files(files@, max_bytes)->Ok_0.0,
            file_views(archive.files@) == entries,
            archive.files@.len() == files@.len(),
            forall|j: int|
                0 <= j < i ==> base64_bytes(base64_text((#[trigger] files@[j]).1@)) == Some(files@[j].1@),
        decreases files.len() - i,
    {
        proof {
            lemma_archived_entry(files@, max_bytes, i as int);
            assert(file_view(archive.files@[i as int]) == file_views(archive.files@)[i as int]);
        }
        let back = match base64_decode(archive.files[i].content_base64.as_str()) {
            Some(b) => same_bytes(b.as_slice(), files[i].1.as_slice()),
            None => false,
        };
        if !back {
            proof {
                assert(base64_bytes(base64_text(files@[i as int].1@)) != Some(files@[i as int].1@));
                assert(!base64_round_trips(files@));
            }
            return Ok((archive, false));
        }
        i += 1;
    }
    proof {
        built_archive_restores_its_files(files@, max_bytes, app_version@, schema_version, created_at, archive);
    }
    Ok((archive, true))
}


/// Sorted stored backups come newest first, and among backups of the same
/// time the name that sorts last comes first; so the backups a pruning
/// removes are never newer than those it keeps.
pub proof fn stored_backups_newest_first(sorted: Seq<StoredBackup>, keep: int)
    requires
        stored_order(sorted),
    ensures
        forall|i: int, j: int|
            0 <= i < j < sorted.len() ==> (#[trigger] sorted[i]).modified_at >= (#[trigger] sorted[j]).modified_at,
        forall|i: int, j: int|
            0 <= i < j < sorted.len() && (#[trigger] sorted[i]).modified_at == (#[trigger] sorted[j]).modified_at
                ==> !lex_lt(sorted[i].name@, sorted[j].name@),
        forall|i: int, j: int|
            0 <= i < keep <= j < sorted.len() ==> (#[trigger] sorted[i]).modified_at >= (
            #[trigger] sorted[j]).modified_at,
{
    assert forall|i: int, j: int| 0 <= i < j < sorted.len() implies (#[trigger] sorted[i]).modified_at >= (
    #[trigger] sorted[j]).modified_at by {
        assert(!stored_before(sorted[j], sorted[i]));
    }
    assert forall|i: int, j: int|
        0 <= i < j < sorted.len() && (#[trigger] sorted[i]).modified_at == (#[trigger] sorted[j]).modified_at
            implies !lex_lt(sorted[i].name@, sorted[j].name@) by {
        assert(!stored_before(sorted[j], sorted[i]));
    }
}

} // verus!
