//! Paths are composed as text and turned into a `PathBuf` at the end.

use std::path::PathBuf;
use vstd::prelude::*;
use vstd::string::*;

use crate::text::push_char;

verus! {

#[verifier::external_type_specification]
#[verifier::external_body]
pub struct ExPathBuf(PathBuf);

/// The path whose text is `text`.
pub uninterp spec fn path_from_text(text: Seq<char>) -> PathBuf;

/// `PathBuf::from(String)`: the path is made from the text and nothing else.
#[verifier::external_body]
pub(crate) fn path_from(text: String) -> (p: PathBuf)
    ensures
        p == path_from_text(text@),
{
    PathBuf::from(text)
}

/// `dirs::home_dir`, as text. What it returns depends on the environment of
/// the process; the contract promises nothing about it.
#[verifier::external_body]
pub(crate) fn home_dir_text() -> Option<String> {
    match dirs::home_dir() {
        Some(p) => Some(p.to_string_lossy().into_owned()),
        None => None,
    }
}

/// `dirs::config_dir`, as text. What it returns depends on the platform and
/// the environment; the contract promises nothing about it.
#[verifier::external_body]
pub(crate) fn config_dir_text() -> Option<String> {
    match dirs::config_dir() {
        Some(p) => Some(p.to_string_lossy().into_owned()),
        None => None,
    }
}

/// Appending `part` to the path `base` as `Path::join` does on Unix: an
/// absolute `part` replaces `base`; otherwise a `/` separates the two unless
/// `base` is empty or already ends with one.
pub open spec fn joined(base: Seq<char>, part: Seq<char>) -> Seq<char> {
    if part.len() > 0 && part[0] == '/' {
        part
    } else if base.len() > 0 && base.last() != '/' {
        base + seq!['/'] + part
    } else {
        base + part
    }
}

/// Text form of `Path::join`.
pub fn join_text(base: &str, part: &str) -> (r: String)
    ensures
        r@ == joined(base@, part@),
{
    let bn = base.unicode_len();
    let pn = part.unicode_len();
    if pn > 0 && part.get_char(0) == '/' {
        return String::from_str(part);
    }
    let mut r = String::from_str(base);
    if bn > 0 && base.get_char(bn - 1) != '/' {
        push_char(&mut r, '/');
    }
    r.append(part);
    r
}

/// `~/rest` with the home directory in front, as `expand_tilde` writes it:
/// an unknown home directory is taken to be `.`.
pub open spec fn home_or_dot(home: Option<Seq<char>>) -> Seq<char> {
    match home {
        Some(h) => h,
        None => seq!['.'],
    }
}

} // verus!
