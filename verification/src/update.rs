//! Self-update: recognising how the tool was installed and what to run to
//! update it.

use std::path::PathBuf;
use vstd::prelude::*;
use vstd::string::*;
use vstd::utf8::*;

use crate::paths::{path_from, path_from_text};
use crate::models::texts;
use crate::paths::joined;
use crate::text::{contains, contains_text, push_char};

verus! {

broadcast use vstd::utf8::encode_utf8_valid_utf8, vstd::utf8::is_char_boundary_iff_not_is_continuation_byte,
    vstd::utf8::is_char_boundary_start_end_of_seq;

// ---------------------------------------------------------------------------
// Percent decoding
// ---------------------------------------------------------------------------

/// The value of an ASCII hexadecimal digit.
pub open spec fn hex_value(b: u8) -> Option<u8> {
    if 0x30 <= b <= 0x39 {
        Some((b - 0x30) as u8)
    } else if 0x61 <= b <= 0x66 {
        Some((b - 0x61 + 10) as u8)
    } else if 0x41 <= b <= 0x46 {
        Some((b - 0x41 + 10) as u8)
    } else {
        None
    }
}

/// Two bytes read as a base-16 number the way `u8::from_str_radix` reads a
/// text: an optional `+` sign followed by hexadecimal digits only.
pub open spec fn radix16_pair(b1: u8, b2: u8) -> Option<u8> {
    if b1 == 0x2b {
        hex_value(b2)
    } else {
        match (hex_value(b1), hex_value(b2)) {
            (Some(h), Some(l)) => Some((h * 16 + l) as u8),
            _ => None,
        }
    }
}

/// Percent decoding of the bytes of a path: `%` followed by two more bytes
/// that read as a base-16 number stands for the character with that code;
/// every other byte stands for the character with the byte's code.
pub open spec fn percent_decoded(b: Seq<u8>) -> Seq<char>
    decreases b.len(),
{
    if b.len() == 0 {
        Seq::empty()
    } else if b[0] == 0x25 && 2 < b.len() && radix16_pair(b[1], b[2]) is Some {
        seq![radix16_pair(b[1], b[2])->0 as char] + percent_decoded(b.subrange(3, b.len() as int))
    } else {
        seq![b[0] as char] + percent_decoded(b.subrange(1, b.len() as int))
    }
}

/// Every `%` with two bytes after it is followed by exactly two bytes that
/// end on a character boundary, so that the two can be read as text.
pub open spec fn escapes_whole(b: Seq<u8>) -> bool {
    forall|i: int|
        0 <= i && i + 3 < b.len() && #[trigger] b[i] == 0x25 ==> !is_continuation_byte(b[i + 3])
}

/// The value of an ASCII hexadecimal digit.
fn hex_digit(b: u8) -> (r: Option<u8>)
    ensures
        r == hex_value(b),
{
    if 0x30 <= b && b <= 0x39 {
        Some(b - 0x30)
    } else if 0x61 <= b && b <= 0x66 {
        Some(b - 0x61 + 10)
    } else if 0x41 <= b && b <= 0x46 {
        Some(b - 0x41 + 10)
    } else {
        None
    }
}

/// The two bytes of an escape read as a base-16 number.
fn escape_value(b1: u8, b2: u8) -> (r: Option<u8>)
    ensures
        r == radix16_pair(b1, b2),
{
    if b1 == 0x2b {
        hex_digit(b2)
    } else {
        match (hex_digit(b1), hex_digit(b2)) {
            (Some(h), Some(l)) => Some(h * 16 + l),
            _ => None,
        }
    }
}

/// In valid UTF-8, the byte after an ASCII byte starts a character.
proof fn lemma_boundary_after_ascii(b: Seq<u8>, i: int)
    requires
        valid_utf8(b),
        0 <= i < b.len(),
        b[i] <= 0x7f,
    ensures
        is_char_boundary(b, i + 1),
{
    assert(!is_continuation_byte(b[i]));
    assert(is_char_boundary(b, i));
    valid_utf8_split(b, i);
    let s2 = b.subrange(i, b.len() as int);
    assert(valid_utf8(s2));
    assert(s2[0] == b[i]);
    assert(length_of_first_scalar(s2) == 1);
    let s3 = b.subrange(i + 1, b.len() as int);
    assert(pop_first_scalar(s2) =~= s3);
    assert(valid_utf8(s3));
    if i + 1 < b.len() {
        assert(valid_first_scalar(s3));
        assert(s3[0] == b[i + 1]);
        assert(!is_continuation_byte(b[i + 1]));
    } else {
        assert(is_char_boundary(b, b.len() as int));
    }
}

proof fn lemma_decoded_step(b: Seq<u8>, i: int, k: int)
    requires
        0 <= i,
        i + k <= b.len(),
        1 <= k <= 3,
    ensures
        b.subrange(i, b.len() as int).subrange(k, b.len() - i) =~= b.subrange(i + k, b.len() as int),
{
}

/// Percent-decodes the text of a path, byte by byte.
pub fn percent_decode_text(encoded: &str) -> (r: String)
    requires
        escapes_whole(encoded.spec_bytes()),
    ensures
        r@ == percent_decoded(encoded.spec_bytes()),
{
    let bytes = encoded.as_bytes();
    let ghost b = encoded.spec_bytes();
    let n = bytes.len();
    let mut out = String::new();
    let mut i: usize = 0;
    proof {
        assert(b.subrange(0, n as int) =~= b);
    }
    while i < n
        invariant
            bytes@ == b,
            b == encoded.spec_bytes(),
            valid_utf8(b),
            escapes_whole(b),
            n == b.len(),
            i <= n,
            percent_decoded(b) == out@ + percent_decoded(b.subrange(i as int, n as int)),
        decreases n - i,
    {
        let ghost rest = b.subrange(i as int, n as int);
        if bytes[i] == 0x25 && n - i > 2 {
            let v = escape_value(bytes[i + 1], bytes[i + 2]);
            if let Some(v) = v {
                proof {
                    lemma_decoded_step(b, i as int, 3);
                    assert(percent_decoded(rest) == seq![v as char] + percent_decoded(b.subrange(i + 3, n as int)));
                }
                push_char(&mut out, v as char);
                i = i + 3;
                continue;
            }
        }
        proof {
            lemma_decoded_step(b, i as int, 1);
        }
        push_char(&mut out, bytes[i] as char);
        i = i + 1;
    }
    out
}

/// Turns the percent-encoded text of a path into the path.
pub fn percent_decode_path(encoded: &str) -> (p: PathBuf)
    requires
        escapes_whole(encoded.spec_bytes()),
    ensures
        p == path_from_text(percent_decoded(encoded.spec_bytes())),
{
    path_from(percent_decode_text(encoded))
}

/// Whether every `%` in `b[lo..hi]` with three more bytes before `hi` is
/// followed, three bytes on, by the start of a character.
fn escapes_whole_in(b: &[u8], lo: usize, hi: usize) -> (r: bool)
    requires
        lo <= hi <= b@.len(),
    ensures
        r == escapes_whole(b@.subrange(lo as int, hi as int)),
{
    let ghost e = b@.subrange(lo as int, hi as int);
    let mut i: usize = lo;
    while i < hi
        invariant
            lo <= i <= hi <= b@.len(),
            e == b@.subrange(lo as int, hi as int),
            forall|k: int|
                0 <= k < i - lo && k + 3 < e.len() && #[trigger] e[k] == 0x25 ==> !is_continuation_byte(e[k + 3]),
        decreases hi - i,
    {
        if b[i] == 0x25 && hi - i > 3 {
            let c = b[i + 3];
            if 0x80 <= c && c <= 0xbf {
                assert(e[i - lo] == 0x25 && !(!is_continuation_byte(e[i - lo + 3])));
                return false;
            }
        }
        i = i + 1;
    }
    true
}

/// Whether a percent-encoded path text can be decoded without splitting a
/// character (what `percent_decode_text` and `percent_decode_path` ask).
pub fn escapes_whole_text(encoded: &str) -> (r: bool)
    ensures
        r == escapes_whole(encoded.spec_bytes()),
{
    let b = encoded.as_bytes();
    let r = escapes_whole_in(b, 0, b.len());
    assert(b@.subrange(0, b@.len() as int) =~= b@);
    r
}

// ---------------------------------------------------------------------------
// Reading `cargo install` records
// ---------------------------------------------------------------------------

/// The bytes of `cpos ` (the package name and a space).
pub open spec fn cpos_prefix() -> Seq<u8> {
    seq![0x63u8, 0x70, 0x6f, 0x73, 0x20]
}

/// The bytes of `(path+file://`, which opens the source of a path install.
pub open spec fn path_marker() -> Seq<u8> {
    seq![0x28u8, 0x70, 0x61, 0x74, 0x68, 0x2b, 0x66, 0x69, 0x6c, 0x65, 0x3a, 0x2f, 0x2f]
}

/// Whether `pat` occurs in `s` at byte `at`.
pub open spec fn bytes_at(s: Seq<u8>, pat: Seq<u8>, at: int) -> bool {
    0 <= at && at + pat.len() <= s.len() && s.subrange(at, at + pat.len()) == pat
}

/// The first position at or after `from` where `pat` occurs in `s`.
pub open spec fn first_match_from(s: Seq<u8>, pat: Seq<u8>, from: int) -> Option<int>
    decreases s.len() + 1 - from,
{
    if from < 0 || from + pat.len() > s.len() {
        None
    } else if bytes_at(s, pat, from) {
        Some(from)
    } else {
        first_match_from(s, pat, from + 1)
    }
}

/// The byte span of the still-encoded path in a `.crates2.json` package key
/// of this tool: the key starts with `cpos `, and the path runs from just
/// after the first `(path+file://` to the next `#` (or to the end).
pub open spec fn crate_key_span(key: Seq<u8>) -> Option<(int, int)> {
    if !bytes_at(key, cpos_prefix(), 0) {
        None
    } else {
        match first_match_from(key, path_marker(), 0) {
            None => None,
            Some(at) => {
                let start = at + 13;
                let rest = key.subrange(start, key.len() as int);
                match first_match_from(rest, seq![0x23u8], 0) {
                    Some(e) => Some((start, start + e)),
                    None => Some((start, key.len() as int)),
                }
            },
        }
    }
}

/// The still-encoded path bytes of a package key, when it is a path install of this tool.
pub open spec fn crate_key_encoded(key: Seq<u8>) -> Option<Seq<u8>> {
    match crate_key_span(key) {
        Some((a, b)) => Some(key.subrange(a, b)),
        None => None,
    }
}

/// The source path of a package key, when it is a path install of this tool.
pub open spec fn crate_key_path(key: Seq<u8>) -> Option<Seq<char>> {
    match crate_key_encoded(key) {
        Some(e) => Some(percent_decoded(e)),
        None => None,
    }
}

/// A package key whose path can be decoded without splitting a character.
pub open spec fn crate_key_decodable(key: Seq<u8>) -> bool {
    crate_key_encoded(key) matches Some(e) ==> escapes_whole(e)
}

proof fn lemma_first_match(s: Seq<u8>, pat: Seq<u8>, from: int)
    ensures
        first_match_from(s, pat, from) matches Some(i) ==> from <= i && bytes_at(s, pat, i),
    decreases s.len() + 1 - from,
{
    if from < 0 || from + pat.len() > s.len() {
    } else if bytes_at(s, pat, from) {
    } else {
        lemma_first_match(s, pat, from + 1);
    }
}

fn bytes_match_at(s: &[u8], pat: &[u8], at: usize) -> (r: bool)
    ensures
        r == bytes_at(s@, pat@, at as int),
{
    let sl = s.len();
    if at > sl || pat.len() > sl - at {
        return false;
    }
    let mut k: usize = 0;
    while k < pat.len()
        invariant
            sl == s@.len(),
            at + pat@.len() <= s@.len(),
            k <= pat@.len(),
            forall|j: int| 0 <= j < k ==> s@[at + j] == pat@[j],
        decreases pat.len() - k,
    {
        if s[at + k] != pat[k] {
            return false;
        }
        k = k + 1;
    }
    assert(s@.subrange(at as int, at + pat@.len()) =~= pat@);
    true
}

fn first_match(s: &[u8], pat: &[u8], from: usize) -> (r: Option<usize>)
    requires
        pat@.len() > 0,
    ensures
        match r {
            Some(i) => first_match_from(s@, pat@, from as int) == Some(i as int),
            None => first_match_from(s@, pat@, from as int) is None,
        },
{
    let mut i = from;
    while i <= s.len() && pat.len() <= s.len() - i
        invariant
            from <= i,
            pat@.len() > 0,
            first_match_from(s@, pat@, from as int) == first_match_from(s@, pat@, i as int),
        decreases s.len() + 1 - i,
    {
        if bytes_match_at(s, pat, i) {
            return Some(i);
        }
        i = i + 1;
    }
    None
}

/// Finds the span of the encoded path in the bytes of a package key.
fn key_span(b: &[u8]) -> (r: Option<(usize, usize)>)
    ensures
        match r {
            Some((x, y)) => {
                &&& crate_key_span(b@) == Some((x as int, y as int))
                &&& 13 <= x <= y <= b@.len()
                &&& b@[x - 1] == 0x2f
                &&& y < b@.len() ==> b@[y as int] == 0x23
            },
            None => crate_key_span(b@) is None,
        },
{
    let prefix = vec![0x63u8, 0x70, 0x6f, 0x73, 0x20];
    let marker = vec![0x28u8, 0x70, 0x61, 0x74, 0x68, 0x2b, 0x66, 0x69, 0x6c, 0x65, 0x3a, 0x2f, 0x2f];
    let hash = vec![0x23u8];
    assert(prefix@ =~= cpos_prefix());
    assert(marker@ =~= path_marker());
    let prefix_s = prefix.as_slice();
    assert(prefix_s@ == cpos_prefix());
    if !bytes_match_at(b, prefix_s, 0) {
        return None;
    }
    let marker_s = marker.as_slice();
    assert(marker_s@ == path_marker());
    let n = b.len();
    let at = match first_match(b, marker_s, 0) {
        Some(at) => at,
        None => return None,
    };
    proof {
        lemma_first_match(b@, marker_s@, 0);
        assert(b@.subrange(at as int, at + 13)[12] == b@[at + 12]);
    }
    let start = at + 13;
    let ghost rest = b@.subrange(start as int, b@.len() as int);
    let mut e: usize = start;
    while e < n && b[e] != 0x23
        invariant
            n == b@.len(),
            start <= e <= b@.len(),
            start <= b@.len(),
            rest == b@.subrange(start as int, b@.len() as int),
            first_match_from(rest, seq![0x23u8], 0) == first_match_from(rest, seq![0x23u8], e - start),
        decreases n - e,
    {
        proof {
            assert(rest[e - start] == b@[e as int]);
            assert(!bytes_at(rest, seq![0x23u8], e - start)) by {
                if bytes_at(rest, seq![0x23u8], e - start) {
                    assert(rest.subrange(e - start, e - start + 1)[0] == rest[e - start]);
                }
            }
        }
        e = e + 1;
    }
    proof {
        assert(hash@ =~= seq![0x23u8]);
        if e < b@.len() {
            assert(rest.subrange(e - start, e - start + 1) =~= seq![0x23u8]);
        }
    }
    Some((start, e))
}

/// The decoded path text of a package key, when it is a path install of this tool.
pub fn crate_key_path_text(key: &str) -> (r: Option<String>)
    requires
        crate_key_decodable(key.spec_bytes()),
    ensures
        match r {
            Some(t) => crate_key_path(key.spec_bytes()) == Some(t@),
            None => crate_key_path(key.spec_bytes()) is None,
        },
{
    let b = key.as_bytes();
    let (start, end) = match key_span(b) {
        Some(span) => span,
        None => return None,
    };
    let ghost kb = key.spec_bytes();
    proof {
        lemma_boundary_after_ascii(kb, start - 1);
    }
    let (_, rest) = key.split_at(start);
    let ghost rb = rest.spec_bytes();
    proof {
        assert(rb =~= kb.subrange(start as int, kb.len() as int));
        if end < kb.len() {
            assert(kb[end as int] == 0x23);
            assert(rb[end - start] == kb[end as int]);
            assert(!is_continuation_byte(rb[end - start]));
        }
        assert(is_char_boundary(rb, end - start));
    }
    let (encoded, _) = rest.split_at(end - start);
    proof {
        assert(encoded.spec_bytes() =~= kb.subrange(start as int, end as int));
    }
    Some(percent_decode_text(encoded))
}

/// The local source directory of a `cargo install --path` record of this
/// tool, e.g. `cpos 0.1.0 (path+file:///Users/dev/cpos#0.1.0)`; `None` for
/// any other record.
pub fn parse_path_from_crate_key(key: &str) -> (r: Option<PathBuf>)
    requires
        crate_key_decodable(key.spec_bytes()),
    ensures
        match crate_key_path(key.spec_bytes()) {
            Some(t) => r == Some(path_from_text(t)),
            None => r is None,
        },
{
    match crate_key_path_text(key) {
        Some(t) => Some(path_from(t)),
        None => None,
    }
}

/// Whether a package key can be decoded without splitting a character.
pub fn key_is_decodable(key: &str) -> (r: bool)
    ensures
        r == crate_key_decodable(key.spec_bytes()),
{
    let b = key.as_bytes();
    match key_span(b) {
        Some((start, end)) => escapes_whole_in(b, start, end),
        None => true,
    }
}

/// The keys of the object that is member `member` of the JSON document
/// `text`, in the order `serde_json` keeps them (sorted, as in a `BTreeMap`);
/// `None` when the text is not JSON or has no such object member.
pub uninterp spec fn json_object_keys(text: Seq<char>, member: Seq<char>) -> Option<Seq<Seq<char>>>;

/// `serde_json::from_str` on `text`, then `Value::get(member)`,
/// `Value::as_object` and the keys of that map. The keys are a function of
/// the text and the member name alone; how JSON is parsed is left to the name.
#[verifier::external_body]
fn member_keys(text: &str, member: &str) -> (r: Option<Vec<String>>)
    ensures
        match r {
            Some(v) => json_object_keys(text@, member@) == Some(texts(v@)),
            None => json_object_keys(text@, member@) is None,
        },
{
    let json: serde_json::Value = serde_json::from_str(text).ok()?;
    let object = json.get(member)?.as_object()?;
    Some(object.keys().cloned().collect())
}

/// The source paths of the path installs of this tool among package keys, in
/// key order.
pub open spec fn install_paths(keys: Seq<Seq<u8>>) -> Seq<Seq<char>>
    decreases keys.len(),
{
    if keys.len() == 0 {
        Seq::empty()
    } else {
        let earlier = install_paths(keys.drop_last());
        match crate_key_path(keys.last()) {
            Some(p) => earlier.push(p),
            None => earlier,
        }
    }
}

/// Every key can be decoded without splitting a character.
pub open spec fn all_decodable(keys: Seq<Seq<u8>>) -> bool {
    forall|i: int| 0 <= i < keys.len() ==> crate_key_decodable(#[trigger] keys[i])
}

/// The UTF-8 bytes of each key.
pub open spec fn key_bytes(keys: Seq<Seq<char>>) -> Seq<Seq<u8>> {
    keys.map_values(|k: Seq<char>| encode_utf8(k))
}

/// What `.crates2.json` records of the path installs of this tool.
#[derive(Debug, PartialEq, Eq)]
pub enum InstallRecords {
    /// The text is not JSON or has no `packages` object.
    Unreadable,
    /// The source paths of the path installs, in key order.
    Paths(Vec<String>),
    /// A key of this tool holds a `%` escape that would split a character.
    SplitEscape,
}

/// The source paths of the path installs of this tool recorded in
/// `.crates2.json`, in key order; or that the text has no `packages` object;
/// or that one of the keys holds an escape that would split a character.
pub fn crates2_install_paths(text: &str) -> (r: InstallRecords)
    ensures
        json_object_keys(text@, "packages"@) is None ==> r is Unreadable,
        json_object_keys(text@, "packages"@) matches Some(keys) ==> {
            &&& all_decodable(key_bytes(keys)) ==> (r matches InstallRecords::Paths(v) && texts(v@)
                == install_paths(key_bytes(keys)))
            &&& !all_decodable(key_bytes(keys)) ==> r is SplitEscape
        },
{
    let keys = match member_keys(text, "packages") {
        Some(k) => k,
        None => return InstallRecords::Unreadable,
    };
    let ghost kb = key_bytes(texts(keys@));
    let mut out: Vec<String> = Vec::new();
    let mut i: usize = 0;
    while i < keys.len()
        invariant
            i <= keys@.len(),
            kb == key_bytes(texts(keys@)),
            json_object_keys(text@, "packages"@) == Some(texts(keys@)),
            kb.len() == keys@.len(),
            forall|j: int| 0 <= j < i ==> crate_key_decodable(#[trigger] kb[j]),
            texts(out@) == install_paths(kb.subrange(0, i as int)),
        decreases keys.len() - i,
    {
        let key = keys[i].as_str();
        assert(key.spec_bytes() == kb[i as int]);
        if !key_is_decodable(key) {
            assert(!crate_key_decodable(key_bytes(texts(keys@))[i as int]));
            return InstallRecords::SplitEscape;
        }
        let found = crate_key_path_text(key);
        proof {
            assert(kb.subrange(0, i + 1).drop_last() =~= kb.subrange(0, i as int));
            assert(kb.subrange(0, i + 1).last() == kb[i as int]);
        }
        match found {
            Some(p) => {
                out.push(p);
                assert(texts(out@) =~= install_paths(kb.subrange(0, i as int)).push(crate_key_path(kb[i as int])->0));
            },
            None => {},
        }
        i = i + 1;
    }
    assert(kb.subrange(0, keys@.len() as int) =~= kb);
    InstallRecords::Paths(out)
}

/// Which of the recorded install paths to update from: the last one whose
/// directory holds a `Cargo.toml` (`has_manifest` says, for each path in
/// record order, whether it does).
pub fn last_with_manifest(has_manifest: &Vec<bool>) -> (r: Option<usize>)
    ensures
        r matches Some(k) ==> k < has_manifest@.len() && has_manifest@[k as int] && forall|j: int|
            k < j < has_manifest@.len() ==> !#[trigger] has_manifest@[j],
        r is None ==> forall|j: int| 0 <= j < has_manifest@.len() ==> !#[trigger] has_manifest@[j],
{
    let mut i: usize = has_manifest.len();
    while i > 0
        invariant
            i <= has_manifest@.len(),
            forall|j: int| i <= j < has_manifest@.len() ==> !#[trigger] has_manifest@[j],
        decreases i,
    {
        if has_manifest[i - 1] {
            return Some(i - 1);
        }
        i = i - 1;
    }
    None
}

// ---------------------------------------------------------------------------
// Choosing how to update
// ---------------------------------------------------------------------------

/// Where the update comes from.
#[derive(Debug)]
pub enum UpdateMethod {
    /// Installed from the GitHub repository.
    Git,
    /// Installed with `cargo install --path` from a local clone.
    LocalPath(String),
    /// Running from the `target` directory of a source tree.
    DevTree(String),
}

/// Picks the update method: a recorded path install wins, then a source tree
/// the executable runs from, then the GitHub repository.
pub fn detect_method(install_path: Option<String>, dev_tree: Option<String>) -> (m: UpdateMethod)
    ensures
        install_path matches Some(p) ==> m matches UpdateMethod::LocalPath(q) && q@ == p@,
        install_path is None ==> (dev_tree matches Some(d) ==> m matches UpdateMethod::DevTree(q) && q@ == d@),
        install_path is None && dev_tree is None ==> m matches UpdateMethod::Git,
{
    if let Some(p) = install_path {
        return UpdateMethod::LocalPath(p);
    }
    if let Some(d) = dev_tree {
        return UpdateMethod::DevTree(d);
    }
    UpdateMethod::Git
}

/// Whether an executable path lies under a `target` directory.
pub fn looks_like_build_output(exe: &str) -> (r: bool)
    ensures
        r == (contains_text(exe@, "/target/"@) || contains_text(exe@, "\\target\\"@)),
{
    contains(exe, "/target/") || contains(exe, "\\target\\")
}

/// Whether a `Cargo.toml` is this tool's manifest.
pub fn is_tool_manifest(manifest: &str) -> (r: bool)
    ensures
        r == contains_text(manifest@, "name = \"cpos\""@),
{
    contains(manifest, "name = \"cpos\"")
}

// ---------------------------------------------------------------------------
// What an update runs
// ---------------------------------------------------------------------------

/// The repository the tool is installed from.
pub const REPO: &'static str = "https://github.com/Soham109/cpos";

/// One step of an update.
#[derive(Debug)]
pub enum UpdateStep {
    /// Print a line on standard error.
    Say(String),
    /// `git -C <dir> pull --ff-only`, skipped when `<dir>/.git` is not a directory.
    GitPull(String),
    /// `cargo <args>`; when it fails, the error is wrapped with `context`.
    Cargo { args: Vec<String>, context: String },
}

/// The content of an [`UpdateStep`].
pub enum StepView {
    Say(Seq<char>),
    GitPull(Seq<char>),
    Cargo(Seq<Seq<char>>, Seq<char>),
}

impl View for UpdateStep {
    type V = StepView;

    open spec fn view(&self) -> StepView {
        match self {
            UpdateStep::Say(s) => StepView::Say(s@),
            UpdateStep::GitPull(d) => StepView::GitPull(d@),
            UpdateStep::Cargo { args, context } => StepView::Cargo(texts(args@), context@),
        }
    }
}

/// The contents of a list of steps.
pub open spec fn step_views(v: Seq<UpdateStep>) -> Seq<StepView> {
    v.map_values(|s: UpdateStep| s@)
}

fn owned(s: &str) -> (r: String)
    ensures
        r@ == s@,
{
    String::from_str(s)
}

fn concat2(a: &str, b: &str) -> (r: String)
    ensures
        r@ == a@ + b@,
{
    let mut r = String::from_str(a);
    r.append(b);
    r
}

/// The steps of an update from the GitHub repository.
pub open spec fn git_install_steps() -> Seq<StepView> {
    seq![StepView::Cargo(
        seq!["install"@, "--git"@, REPO@, "--force"@],
        "failed to update from GitHub — check your network and try again"@,
    )]
}

/// The steps of an update of a path install from the clone at `root`.
pub open spec fn path_install_steps(root: Seq<char>) -> Seq<StepView> {
    seq![
        StepView::Say("Detected local install at "@ + root),
        StepView::GitPull(root),
        StepView::Cargo(seq!["install"@, "--path"@, root, "--force"@], "failed to rebuild from local clone"@),
    ]
}

/// The steps of a rebuild of the source tree at `root`.
pub open spec fn dev_build_steps(root: Seq<char>) -> Seq<StepView> {
    seq![
        StepView::Say("Detected dev build in "@ + root),
        StepView::GitPull(root),
        StepView::Cargo(seq!["build"@, "--release"@], "failed to rebuild dev binary"@),
        StepView::Say("Built "@ + joined(root, "target/release/cpos"@)),
    ]
}

/// Reinstall from the GitHub repository.
pub fn git_install() -> (steps: Vec<UpdateStep>)
    ensures
        step_views(steps@) == git_install_steps(),
{
    let args = vec![owned("install"), owned("--git"), owned(REPO), owned("--force")];
    let steps = vec![UpdateStep::Cargo {
        args,
        context: owned("failed to update from GitHub — check your network and try again"),
    }];
    assert(texts(args@) =~= seq!["install"@, "--git"@, REPO@, "--force"@]);
    assert(step_views(steps@) =~= git_install_steps());
    steps
}

/// Pull the local clone at `root`, then reinstall from it.
pub fn path_install(root: &str) -> (steps: Vec<UpdateStep>)
    ensures
        step_views(steps@) == path_install_steps(root@),
{
    let args = vec![owned("install"), owned("--path"), owned(root), owned("--force")];
    let steps = vec![
        UpdateStep::Say(concat2("Detected local install at ", root)),
        UpdateStep::GitPull(owned(root)),
        UpdateStep::Cargo { args, context: owned("failed to rebuild from local clone") },
    ];
    assert(texts(args@) =~= seq!["install"@, "--path"@, root@, "--force"@]);
    assert(step_views(steps@) =~= path_install_steps(root@));
    steps
}

/// Pull the source tree at `root`, then rebuild it in release mode.
pub fn dev_build(root: &str) -> (steps: Vec<UpdateStep>)
    ensures
        step_views(steps@) == dev_build_steps(root@),
{
    let args = vec![owned("build"), owned("--release")];
    let built = crate::paths::join_text(root, "target/release/cpos");
    let steps = vec![
        UpdateStep::Say(concat2("Detected dev build in ", root)),
        UpdateStep::GitPull(owned(root)),
        UpdateStep::Cargo { args, context: owned("failed to rebuild dev binary") },
        UpdateStep::Say(concat2("Built ", built.as_str())),
    ];
    assert(texts(args@) =~= seq!["build"@, "--release"@]);
    assert(step_views(steps@) =~= dev_build_steps(root@));
    steps
}

/// The steps of an update by the given method.
pub open spec fn update_steps(m: UpdateMethod) -> Seq<StepView> {
    match m {
        UpdateMethod::Git => git_install_steps(),
        UpdateMethod::LocalPath(p) => path_install_steps(p@),
        UpdateMethod::DevTree(p) => dev_build_steps(p@),
    }
}

/// What an update by the given method runs, in order.
pub fn update_plan(method: &UpdateMethod) -> (steps: Vec<UpdateStep>)
    ensures
        step_views(steps@) == update_steps(*method),
{
    match method {
        UpdateMethod::Git => git_install(),
        UpdateMethod::LocalPath(p) => path_install(p.as_str()),
        UpdateMethod::DevTree(p) => dev_build(p.as_str()),
    }
}

/// The error when a `cargo` step fails: `cargo <first argument> failed`
/// (`command` when there are no arguments).
pub fn cargo_failure(args: &Vec<String>) -> (r: String)
    ensures
        args@.len() > 0 ==> r@ == "cargo "@ + args@[0]@ + " failed"@,
        args@.len() == 0 ==> r@ == "cargo command failed"@,
{
    if args.len() > 0 {
        let mut r = owned("cargo ");
        r.append(args[0].as_str());
        r.append(" failed");
        r
    } else {
        owned("cargo command failed")
    }
}

/// The root an update pulls and rebuilds: the clone of a path install or
/// the source tree of a dev build.
pub open spec fn source_root(m: UpdateMethod) -> Option<Seq<char>> {
    match m {
        UpdateMethod::Git => None,
        UpdateMethod::LocalPath(p) => Some(p@),
        UpdateMethod::DevTree(p) => Some(p@),
    }
}

/// An update pulls before it rebuilds, so that what is built is the pulled
/// source. Every update runs exactly one `cargo` step. From the repository
/// that is `cargo install --git <repo> --force` and nothing is pulled. From a
/// local clone or a source tree at `root`, the update first announces it,
/// then pulls `root` (its only pull), then runs `cargo install --path <root>
/// --force` for a path install or `cargo build --release` for a dev build;
/// a dev build then reports the built binary.
pub proof fn updates_pull_before_rebuilding(m: UpdateMethod)
    ensures
        forall|i: int, j: int|
            0 <= i < update_steps(m).len() && 0 <= j < update_steps(m).len() && #[trigger] update_steps(m)[i] is GitPull
                && #[trigger] update_steps(m)[j] is Cargo ==> i < j,
        forall|i: int|
            0 <= i < update_steps(m).len() && #[trigger] update_steps(m)[i] is GitPull ==> source_root(m) == Some(
                update_steps(m)[i]->GitPull_0,
            ),
        m is Git ==> update_steps(m) == seq![
            StepView::Cargo(
                seq!["install"@, "--git"@, REPO@, "--force"@],
                "failed to update from GitHub — check your network and try again"@,
            ),
        ],
        m matches UpdateMethod::LocalPath(p) ==> {
            &&& update_steps(m).len() == 3
            &&& update_steps(m)[0] == StepView::Say("Detected local install at "@ + p@)
            &&& update_steps(m)[1] == StepView::GitPull(p@)
            &&& update_steps(m)[2] == StepView::Cargo(
                seq!["install"@, "--path"@, p@, "--force"@],
                "failed to rebuild from local clone"@,
            )
        },
        m matches UpdateMethod::DevTree(p) ==> {
            &&& update_steps(m).len() == 4
            &&& update_steps(m)[0] == StepView::Say("Detected dev build in "@ + p@)
            &&& update_steps(m)[1] == StepView::GitPull(p@)
            &&& update_steps(m)[2] == StepView::Cargo(seq!["build"@, "--release"@], "failed to rebuild dev binary"@)
            &&& update_steps(m)[3] == StepView::Say("Built "@ + joined(p@, "target/release/cpos"@))
        },
        forall|i: int, j: int|
            0 <= i < j < update_steps(m).len() && #[trigger] update_steps(m)[i] is Cargo ==> !(
            #[trigger] update_steps(m)[j] is Cargo),
{
}

} // verus!
