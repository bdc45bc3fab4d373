//! STRM files: the HTTP address a media server streams a cloud file from, the
//! names of the files, and the directories they are placed in.
use vstd::prelude::*;
use vstd::utf8::encode_utf8;
use vstd::string::StringSliceAdditionalSpecFns;
pub use vstd::hash_set::StringHashSet;
use crate::error::AppError;
use crate::model::{Settings, Subscription};
use crate::source_switch::{normalize_spaces, normalized};
use crate::text::{
    chars_of, file_stem_of, int_decimal, is_control, is_control_char, lemma_nat_decimal_injective,
    nat_decimal, opt_view, owned, path_file_stem, push_char, push_count, push_str, split_char_seq,
    split_chars, str_eq, string_of, trim_chars, trim_seq, trim_str, views,
};

verus! {

pub const STRM_ROUTE: &'static str = "/strm/quark/";
pub const TOKEN_QUERY: &'static str = "?token=";
pub const STRM_EXTENSION: &'static str = ".strm";
pub const UNNAMED: &'static str = "未命名";
pub const NO_BASE_URL: &'static str = "未配置 HTTPStrm 对外访问地址";
pub const NO_TOKEN: &'static str = "未配置 HTTPStrm 访问 Token";

/// A file written for a media server.
#[derive(Debug, Clone)]
pub struct StrmGeneratedFile {
    pub fid: String,
    pub file_name: String,
    pub strm_path: String,
    pub url: String,
}

/// What generating the STRM files of a subscription produced.
#[derive(Debug, Clone)]
pub struct StrmGenerationResult {
    pub generated_count: usize,
    pub skipped_count: usize,
    pub output_dir: String,
    pub files: Vec<StrmGeneratedFile>,
}

/// Whether STRM files are generated for a subscription: enabled globally and
/// for it.
pub fn strm_generation_enabled(settings: &Settings, sub: &Subscription) -> (r: bool)
    ensures
        r == (settings.strm_enabled && sub.strm_enabled),
{
    settings.strm_enabled && sub.strm_enabled
}

// ---------------------------------------------------------------------------
// Percent-encoding
// ---------------------------------------------------------------------------

/// Bytes left as they are: ASCII letters, digits, `-`, `_`, `.` and `~`.
pub open spec fn unreserved(b: u8) -> bool {
    (65 <= b <= 90) || (97 <= b <= 122) || (48 <= b <= 57) || b == 45 || b == 95 || b == 46 || b
        == 126
}

/// An upper-case hexadecimal digit.
pub open spec fn hex_digit(n: int) -> char {
    if n < 10 {
        (48 + n) as char
    } else {
        (55 + n) as char
    }
}

/// Bytes percent-encoded: unreserved bytes as characters, others as `%XX`.
pub open spec fn percent_encoded(bytes: Seq<u8>) -> Seq<char>
    decreases bytes.len(),
{
    if bytes.len() == 0 {
        seq![]
    } else {
        let rest = percent_encoded(bytes.drop_last());
        let b = bytes.last();
        if unreserved(b) {
            rest.push(b as char)
        } else {
            rest + seq!['%', hex_digit(b as int / 16), hex_digit(b as int % 16)]
        }
    }
}

/// A digit of a byte in upper-case hexadecimal.
fn hex_char(n: u8) -> (r: char)
    requires
        n < 16,
    ensures
        r == hex_digit(n as int),
{
    if n < 10 {
        (48 + n) as char
    } else {
        (55 + n) as char
    }
}

/// Percent-encodes the UTF-8 bytes of `value`.
fn percent_encode(value: &str) -> (r: String)
    ensures
        r@ == percent_encoded(encode_utf8(value@)),
{
    let bytes = value.as_bytes();
    let mut out = String::new();
    let mut i: usize = 0;
    assert(bytes@.take(0) =~= seq![]);
    while i < bytes.len()
        invariant
            i <= bytes.len(),
            out@ == percent_encoded(bytes@.take(i as int)),
        decreases bytes.len() - i,
    {
        let b = bytes[i];
        assert(bytes@.take(i + 1).drop_last() =~= bytes@.take(i as int));
        assert(bytes@.take(i + 1).last() == b);
        if (65 <= b && b <= 90) || (97 <= b && b <= 122) || (48 <= b && b <= 57) || b == 45 || b
            == 95 || b == 46 || b == 126 {
            push_char(&mut out, b as char);
        } else {
            let ghost before = out@;
            push_char(&mut out, '%');
            push_char(&mut out, hex_char(b / 16));
            push_char(&mut out, hex_char(b % 16));
            assert(out@ =~= before + seq!['%', hex_digit(b as int / 16), hex_digit(b as int % 16)]);
        }
        i = i + 1;
    }
    assert(bytes@.take(bytes.len() as int) =~= bytes@);
    out
}

/// A query value percent-encoded.
fn percent_encode_query_value(value: &str) -> (r: String)
    ensures
        r@ == percent_encoded(encode_utf8(value@)),
{
    percent_encode(value)
}

/// A path segment percent-encoded.
fn percent_encode_path_segment(value: &str) -> (r: String)
    ensures
        r@ == percent_encoded(encode_utf8(value@)),
{
    percent_encode(value)
}

// ---------------------------------------------------------------------------
// Addresses
// ---------------------------------------------------------------------------

/// `s` without trailing `c`s (`trim_end_matches`).
pub open spec fn strip_trailing(s: Seq<char>, c: char) -> Seq<char>
    decreases s.len(),
{
    if s.len() > 0 && s.last() == c {
        strip_trailing(s.drop_last(), c)
    } else {
        s
    }
}

/// The public base address: trimmed, without trailing slashes.
pub open spec fn strm_base(settings: Settings) -> Seq<char> {
    strip_trailing(trim_seq(settings.strm_public_base_url@), '/')
}

/// The address a media server streams cloud file `fid` named `file_name`
/// from, with the access token as query; an error where the base address or
/// the token is blank.
pub open spec fn strm_url_result(settings: Settings, fid: Seq<char>, file_name: Seq<char>) -> Result<
    Seq<char>,
    Seq<char>,
> {
    let base = strm_base(settings);
    let token = trim_seq(settings.strm_access_token@);
    if base.len() == 0 {
        Err(NO_BASE_URL@)
    } else if token.len() == 0 {
        Err(NO_TOKEN@)
    } else {
        Ok(
            base + STRM_ROUTE@ + percent_encoded(encode_utf8(fid)) + seq!['/'] + percent_encoded(
                encode_utf8(file_name),
            ) + TOKEN_QUERY@ + percent_encoded(encode_utf8(token)),
        )
    }
}

/// `v` without trailing `c`s.
fn strip_trailing_chars(v: &[char], c: char) -> (r: Vec<char>)
    ensures
        r@ == strip_trailing(v@, c),
{
    let mut j: usize = v.len();
    assert(v@.take(j as int) =~= v@);
    while j > 0 && v[j - 1] == c
        invariant
            j <= v.len(),
            strip_trailing(v@, c) == strip_trailing(v@.take(j as int), c),
        decreases j,
    {
        assert(v@.take(j as int).drop_last() =~= v@.take(j - 1));
        j = j - 1;
    }
    let mut out: Vec<char> = Vec::new();
    let mut k: usize = 0;
    while k < j
        invariant
            k <= j <= v.len(),
            out@ == v@.take(k as int),
        decreases j - k,
    {
        out.push(v[k]);
        assert(v@.take(k + 1) =~= v@.take(k as int).push(v@[k as int]));
        k = k + 1;
    }
    proof {
        if j > 0 {
            assert(v@.take(j as int).last() == v@[j - 1]);
        }
    }
    out
}

/// The address a media server streams a cloud file from.
pub fn httpstrm_url(settings: &Settings, fid: &str, file_name: &str) -> (r: Result<String, AppError>)
    ensures
        match strm_url_result(*settings, fid@, file_name@) {
            Ok(u) => r matches Ok(s) && s@ == u,
            Err(m) => r matches Err(e) && e is Validation && e.message() == m,
        },
{
    let trimmed = trim_str(settings.strm_public_base_url.as_str());
    let base = strip_trailing_chars(trimmed.as_slice(), '/');
    if base.len() == 0 {
        return Err(AppError::Validation(owned(NO_BASE_URL)));
    }
    let token_chars = trim_str(settings.strm_access_token.as_str());
    if token_chars.len() == 0 {
        return Err(AppError::Validation(owned(NO_TOKEN)));
    }
    let token = string_of(token_chars.as_slice());
    let mut url = string_of(base.as_slice());
    push_str(&mut url, STRM_ROUTE);
    let a = percent_encode_path_segment(fid);
    push_str(&mut url, a.as_str());
    push_char(&mut url, '/');
    let b = percent_encode_path_segment(file_name);
    push_str(&mut url, b.as_str());
    push_str(&mut url, TOKEN_QUERY);
    let c = percent_encode_query_value(token.as_str());
    push_str(&mut url, c.as_str());
    Ok(url)
}

// ---------------------------------------------------------------------------
// Names
// ---------------------------------------------------------------------------

/// Characters not allowed in a path segment.
pub open spec fn forbidden_in_segment(c: char) -> bool {
    c == '/' || c == '\\' || c == ':' || c == '*' || c == '?' || c == '"' || c == '<' || c == '>'
        || c == '|' || is_control(c)
}

/// A path segment: forbidden characters turned into spaces, spaces
/// normalized, and a placeholder when nothing is left.
pub open spec fn sanitized_segment(value: Seq<char>) -> Seq<char> {
    let mapped = value.map_values(
        |c: char|
            if forbidden_in_segment(c) {
                ' '
            } else {
                c
            },
    );
    let n = normalized(mapped);
    if n.len() == 0 {
        UNNAMED@
    } else {
        n
    }
}

/// Turns a value into a safe path segment.
pub fn sanitize_path_segment(value: &str) -> (r: String)
    ensures
        r@ == sanitized_segment(value@),
{
    let v = chars_of(value);
    let mut mapped: Vec<char> = Vec::new();
    let mut i: usize = 0;
    while i < v.len()
        invariant
            i <= v.len(),
            mapped@ == v@.take(i as int).map_values(
                |c: char|
                    if forbidden_in_segment(c) {
                        ' '
                    } else {
                        c
                    },
            ),
        decreases v.len() - i,
    {
        let c = v[i];
        let m = if c == '/' || c == '\\' || c == ':' || c == '*' || c == '?' || c == '"' || c == '<'
            || c == '>' || c == '|' || is_control_char(c) {
            ' '
        } else {
            c
        };
        mapped.push(m);
        assert(v@.take(i + 1) =~= v@.take(i as int).push(c));
        assert(mapped@ =~= v@.take(i + 1).map_values(
            |c: char|
                if forbidden_in_segment(c) {
                    ' '
                } else {
                    c
                },
        ));
        i = i + 1;
    }
    assert(v@.take(v.len() as int) =~= v@);
    let text = string_of(mapped.as_slice());
    let n = normalize_spaces(text.as_str());
    if n.as_str().is_empty() {
        owned(UNNAMED)
    } else {
        n
    }
}

/// The stem a STRM file is named by: the file stem where it is not blank,
/// else the whole name.
pub open spec fn strm_stem(file_name: Seq<char>) -> Seq<char> {
    match file_stem_of(file_name) {
        Some(stem) => if trim_seq(stem).len() > 0 {
            stem
        } else {
            file_name
        },
        None => file_name,
    }
}

/// The name of the STRM file for a cloud file.
pub open spec fn strm_name(file_name: Seq<char>) -> Seq<char> {
    sanitized_segment(strm_stem(file_name)) + STRM_EXTENSION@
}

/// The name of the STRM file for a cloud file: its sanitized stem and `.strm`.
pub fn strm_file_name(file_name: &str) -> (r: String)
    ensures
        r@ == strm_name(file_name@),
{
    let stem = match path_file_stem(file_name) {
        Some(stem) => {
            if trim_str(stem.as_str()).len() > 0 {
                stem
            } else {
                owned(file_name)
            }
        },
        None => owned(file_name),
    };
    let mut name = sanitize_path_segment(stem.as_str());
    push_str(&mut name, STRM_EXTENSION);
    name
}

pub const COUNTER_SEP: &'static str = ".";

/// The fallback STRM name of a file: its whole sanitized name and `.strm`.
pub open spec fn full_strm_name(file_name: Seq<char>) -> Seq<char> {
    sanitized_segment(file_name) + STRM_EXTENSION@
}

/// The STRM name of a file with counter `k`: its whole sanitized name,
/// `.k` and `.strm`.
pub open spec fn counted_strm_name(file_name: Seq<char>, k: nat) -> Seq<char> {
    sanitized_segment(file_name) + COUNTER_SEP@ + nat_decimal(k) + STRM_EXTENSION@
}

/// The STRM name a file gets among the names already used: its usual name,
/// else its whole name, else the first counted name that is free.
pub open spec fn chosen_strm_name(file_name: Seq<char>, used: Set<Seq<char>>, r: Seq<char>) -> bool {
    if !used.contains(strm_name(file_name)) {
        r == strm_name(file_name)
    } else if !used.contains(full_strm_name(file_name)) {
        r == full_strm_name(file_name)
    } else {
        exists|k: nat|
            k >= 1 && r == counted_strm_name(file_name, k) && !used.contains(r) && forall|j: nat|
                1 <= j < k ==> used.contains(#[trigger] counted_strm_name(file_name, j))
    }
}

proof fn lemma_counted_names_distinct(file_name: Seq<char>, a: nat, b: nat)
    requires
        counted_strm_name(file_name, a) == counted_strm_name(file_name, b),
    ensures
        a == b,
{
    let p = sanitized_segment(file_name) + COUNTER_SEP@;
    let x = counted_strm_name(file_name, a);
    let y = counted_strm_name(file_name, b);
    let da = nat_decimal(a);
    let db = nat_decimal(b);
    assert(x == p + da + STRM_EXTENSION@);
    assert(y == p + db + STRM_EXTENSION@);
    assert(da.len() == db.len());
    assert(da =~= x.subrange(p.len() as int, (p.len() + da.len()) as int));
    assert(db =~= y.subrange(p.len() as int, (p.len() + db.len()) as int));
    lemma_nat_decimal_injective(a, b);
}

proof fn lemma_counted_names_bounded(file_name: Seq<char>, used: Set<Seq<char>>, c: nat)
    requires
        used.finite(),
        forall|j: nat| 1 <= j <= c ==> used.contains(#[trigger] counted_strm_name(file_name, j)),
    ensures
        c <= used.len(),
{
    let cs = Seq::new(c, |i: int| counted_strm_name(file_name, (i + 1) as nat));
    assert(cs.no_duplicates()) by {
        assert forall|i: int, j: int| 0 <= i < cs.len() && 0 <= j < cs.len() && i != j implies cs[i]
            != cs[j] by {
            if cs[i] == cs[j] {
                lemma_counted_names_distinct(file_name, (i + 1) as nat, (j + 1) as nat);
            }
        }
    }
    cs.unique_seq_to_set();
    assert(cs.to_set().subset_of(used)) by {
        assert forall|x: Seq<char>| cs.to_set().contains(x) implies used.contains(x) by {
            let i = choose|i: int| 0 <= i < cs.len() && cs[i] == x;
            assert(used.contains(counted_strm_name(file_name, (i + 1) as nat)));
        }
    }
    vstd::set_lib::lemma_len_subset(cs.to_set(), used);
}

/// A STRM name for a file that no earlier file of the batch took: its usual
/// name, else its whole name (so `video.mp4` and `video.mkv` do not both
/// become `video.strm`), else the whole name with the first free counter.
/// The name is added to the used names.
pub fn unique_strm_file_name(file_name: &str, used_names: &mut StringHashSet) -> (r: String)
    requires
        old(used_names)@.finite(),
        old(used_names)@.len() < usize::MAX,
    ensures
        final(used_names)@ == old(used_names)@.insert(r@),
        !old(used_names)@.contains(r@),
        chosen_strm_name(file_name@, old(used_names)@, r@),
{
    let ghost used = used_names@;
    let primary = strm_file_name(file_name);
    if used_names.insert(primary.clone()) {
        return primary;
    }
    let full = sanitize_path_segment(file_name);
    let mut with_ext = full.clone();
    push_str(&mut with_ext, STRM_EXTENSION);
    if used_names.insert(with_ext.clone()) {
        return with_ext;
    }
    let mut counter: usize = 1;
    loop
        invariant
            used == used_names@,
            used == old(used_names)@,
            used.finite(),
            used.len() < usize::MAX,
            used.contains(strm_name(file_name@)),
            used.contains(full_strm_name(file_name@)),
            full@ == sanitized_segment(file_name@),
            1 <= counter <= used.len() + 1,
            forall|j: nat| 1 <= j < counter ==> used.contains(#[trigger] counted_strm_name(file_name@, j)),
        decreases used.len() + 1 - counter,
    {
        let mut candidate = full.clone();
        push_str(&mut candidate, COUNTER_SEP);
        push_count(&mut candidate, counter);
        push_str(&mut candidate, STRM_EXTENSION);
        assert(candidate@ == counted_strm_name(file_name@, counter as nat));
        if used_names.insert(candidate.clone()) {
            return candidate;
        }
        proof {
            lemma_counted_names_bounded(file_name@, used, counter as nat);
        }
        counter += 1;
    }
}

/// The kept parts of a relative path: split at `/` (and `\`), trimmed,
/// without empty, `.` and `..` parts, each sanitized.
pub open spec fn kept_parts(parts: Seq<Seq<char>>) -> Seq<Seq<char>>
    decreases parts.len(),
{
    if parts.len() == 0 {
        seq![]
    } else {
        let rest = kept_parts(parts.drop_last());
        let t = trim_seq(parts.last());
        if t.len() == 0 || t == seq!['.'] || t == seq!['.', '.'] {
            rest
        } else {
            rest.push(sanitized_segment(t))
        }
    }
}

/// The segments of a relative path, made safe.
pub open spec fn relative_parts(path: Seq<char>) -> Seq<Seq<char>> {
    kept_parts(
        split_char_seq(
            path.map_values(
                |c: char|
                    if c == '\\' {
                        '/'
                    } else {
                        c
                    },
            ),
            '/',
        ),
    )
}

/// The segments of a relative path, made safe.
pub fn normalized_relative_parts(path: &str) -> (r: Vec<String>)
    ensures
        views(r@) == relative_parts(path@),
{
    let v = chars_of(path);
    let mut slashed: Vec<char> = Vec::new();
    let mut i: usize = 0;
    while i < v.len()
        invariant
            i <= v.len(),
            slashed@ == v@.take(i as int).map_values(
                |c: char|
                    if c == '\\' {
                        '/'
                    } else {
                        c
                    },
            ),
        decreases v.len() - i,
    {
        let c = v[i];
        slashed.push(
            if c == '\\' {
                '/'
            } else {
                c
            },
        );
        assert(v@.take(i + 1) =~= v@.take(i as int).push(c));
        assert(slashed@ =~= v@.take(i + 1).map_values(
            |c: char|
                if c == '\\' {
                    '/'
                } else {
                    c
                },
        ));
        i = i + 1;
    }
    assert(v@.take(v.len() as int) =~= v@);
    let pieces = split_chars(slashed.as_slice(), '/');
    let ghost ps = pieces@.map_values(|x: Vec<char>| x@);
    let mut out: Vec<String> = Vec::new();
    let mut k: usize = 0;
    assert(ps.take(0) =~= seq![]);
    assert(views(out@) =~= seq![]);
    while k < pieces.len()
        invariant
            k <= pieces.len(),
            ps == pieces@.map_values(|x: Vec<char>| x@),
            views(out@) == kept_parts(ps.take(k as int)),
        decreases pieces.len() - k,
    {
        assert(ps.take(k + 1).drop_last() =~= ps.take(k as int));
        assert(ps.take(k + 1).last() == pieces@[k as int]@);
        let t = trim_chars(pieces[k].as_slice());
        let dot = t.len() == 1 && t[0] == '.';
        let dots = t.len() == 2 && t[0] == '.' && t[1] == '.';
        proof {
            if t.len() == 1 {
                assert(dot ==> t@ =~= seq!['.']);
                assert(t@ == seq!['.'] ==> t@[0] == '.');
            }
            if t.len() == 2 {
                assert(dots ==> t@ =~= seq!['.', '.']);
                assert(t@ == seq!['.', '.'] ==> t@[0] == '.' && t@[1] == '.');
            }
            assert(t@ == seq!['.'] ==> t.len() == 1);
            assert(t@ == seq!['.', '.'] ==> t.len() == 2);
        }
        if t.len() > 0 && !dot && !dots {
            let ghost before = views(out@);
            let segment = string_of(t.as_slice());
            out.push(sanitize_path_segment(segment.as_str()));
            assert(views(out@) =~= before.push(sanitized_segment(t@)));
        }
        k = k + 1;
    }
    assert(ps.take(pieces.len() as int) =~= ps);
    out
}

} // verus!
