//! Where solution files live on disk, and which template seeds them.
//!
//! The workspace holds one flat source file per problem, grouped by judge:
//! `codeforces/1095F.cpp`, `cses/WeirdAlgorithm.cpp`. Sample tests are kept
//! outside it, under the application's data directory.

use std::path::PathBuf;
use vstd::prelude::*;
use vstd::string::*;

use crate::config::Config;
use crate::models::{opt_text, Platform, Problem, ProblemView};
use crate::paths::{
    config_dir_text, home_dir_text, home_or_dot, join_text, joined, path_from, path_from_text,
};
use crate::text::{
    all_white_space, char_to_uppercase, is_alphanumeric, is_blank, is_whitespace, lowercase_of,
    push_char, str_equal, to_lowercase, unicode_alphanumeric, unicode_white_space, uppercase_of,
};

verus! {

// ---------------------------------------------------------------------------
// Home directory expansion and the workspace root
// ---------------------------------------------------------------------------

/// Whether a configured path starts with `~/`.
pub open spec fn starts_with_tilde(s: Seq<char>) -> bool {
    s.len() >= 2 && s[0] == '~' && s[1] == '/'
}

/// The path a configured text stands for: `~/rest` is `rest` under the home
/// directory, anything else is taken literally.
pub open spec fn expanded(s: Seq<char>, home: Option<Seq<char>>) -> Seq<char> {
    if starts_with_tilde(s) {
        joined(home_or_dot(home), s.subrange(2, s.len() as int))
    } else {
        s
    }
}

/// The root of the workspace: the configured directory when it is set and not
/// blank, otherwise `cpos` under the home directory.
pub open spec fn root_text(workspace_dir: Option<Seq<char>>, home: Option<Seq<char>>) -> Seq<char> {
    match workspace_dir {
        Some(d) if !all_white_space(d) => expanded(d, home),
        _ => joined(home_or_dot(home), "cpos"@),
    }
}

fn has_tilde_prefix(s: &str) -> (r: bool)
    ensures
        r == starts_with_tilde(s@),
{
    s.unicode_len() >= 2 && s.get_char(0) == '~' && s.get_char(1) == '/'
}

fn home_text_or_dot(home: Option<&str>) -> (r: String)
    ensures
        r@ == home_or_dot(match home { Some(h) => Some(h@), None => None }),
{
    match home {
        Some(h) => String::from_str(h),
        None => {
            let mut r = String::new();
            push_char(&mut r, '.');
            assert(r@ =~= seq!['.']);
            r
        },
    }
}

/// Expands a leading `~/` against the given home directory.
pub fn expand_tilde_with(s: &str, home: Option<&str>) -> (r: String)
    ensures
        r@ == expanded(s@, match home { Some(h) => Some(h@), None => None }),
{
    if has_tilde_prefix(s) {
        let base = home_text_or_dot(home);
        let rest = s.substring_char(2, s.unicode_len());
        join_text(base.as_str(), rest)
    } else {
        String::from_str(s)
    }
}

/// Expands a leading `~/` to the user's home directory (`.` when the home
/// directory is unknown).
pub fn expand_tilde(s: &str) -> (p: PathBuf)
    ensures
        !starts_with_tilde(s@) ==> p == path_from_text(s@),
        exists|h: Option<Seq<char>>| p == path_from_text(#[trigger] expanded(s@, h)),
{
    if has_tilde_prefix(s) {
        let home = home_dir_text();
        let text = match &home {
            Some(h) => expand_tilde_with(s, Some(h.as_str())),
            None => expand_tilde_with(s, None),
        };
        assert(text@ == expanded(s@, opt_text(home)));
        path_from(text)
    } else {
        let text = String::from_str(s);
        assert(text@ == expanded(s@, None));
        path_from(text)
    }
}

/// The workspace root for a given home directory.
pub fn root_with(config: &Config, home: Option<&str>) -> (r: String)
    ensures
        r@ == root_text(opt_text(config.workspace_dir), match home { Some(h) => Some(h@), None => None }),
{
    match &config.workspace_dir {
        Some(d) if !is_blank(d.as_str()) => expand_tilde_with(d.as_str(), home),
        _ => {
            let base = home_text_or_dot(home);
            join_text(base.as_str(), "cpos")
        },
    }
}

/// Root directory that holds all per-problem workspaces.
pub fn root(config: &Config) -> (p: PathBuf)
    ensures
        exists|h: Option<Seq<char>>| p == path_from_text(#[trigger] root_text(opt_text(config.workspace_dir), h)),
{
    let home = home_dir_text();
    let text = match &home {
        Some(h) => root_with(config, Some(h.as_str())),
        None => root_with(config, None),
    };
    assert(text@ == root_text(opt_text(config.workspace_dir), opt_text(home)));
    path_from(text)
}

// ---------------------------------------------------------------------------
// File names
// ---------------------------------------------------------------------------

/// The directory name used for a judge.
pub open spec fn platform_slug_text(platform: Platform) -> Seq<char> {
    match platform {
        Platform::Codeforces => "codeforces"@,
        Platform::Cses => "cses"@,
        Platform::AtCoder => "atcoder"@,
    }
}

pub fn platform_slug(platform: Platform) -> (r: &'static str)
    ensures
        r@ == platform_slug_text(platform),
{
    match platform {
        Platform::Codeforces => "codeforces",
        Platform::Cses => "cses",
        Platform::AtCoder => "atcoder",
    }
}

/// A character kept in a file name, or `_` in its place.
pub open spec fn safe_char(c: char) -> char {
    if unicode_alphanumeric(c) || c == '-' || c == '_' {
        c
    } else {
        '_'
    }
}

/// A file-system-safe form of a problem id: every character that is not
/// alphanumeric, `-` or `_` becomes `_`.
pub open spec fn safe_id_text(id: Seq<char>) -> Seq<char> {
    Seq::new(id.len(), |i: int| safe_char(id[i]))
}

pub fn safe_id(id: &str) -> (r: String)
    ensures
        r@ == safe_id_text(id@),
{
    let n = id.unicode_len();
    let mut r = String::new();
    let mut i: usize = 0;
    while i < n
        invariant
            n == id@.len(),
            i <= n,
            r@ =~= Seq::new(i as nat, |k: int| safe_char(id@[k])),
        decreases n - i,
    {
        let c = id.get_char(i);
        if is_alphanumeric(c) || c == '-' || c == '_' {
            push_char(&mut r, c);
        } else {
            push_char(&mut r, '_');
        }
        i = i + 1;
    }
    r
}

/// A word capitalised the way CSES file names are: its first character upper
/// case, the rest lower case.
pub open spec fn capitalized(w: Seq<char>) -> Seq<char> {
    if w.len() == 0 {
        Seq::empty()
    } else {
        uppercase_of(w[0]) + lowercase_of(w.subrange(1, w.len() as int))
    }
}

/// Reading a title left to right: the slug of the words already closed, and
/// the alphanumeric characters of the word being read. White space closes a
/// word; other characters that are not alphanumeric are dropped.
pub open spec fn slug_scan(s: Seq<char>) -> (Seq<char>, Seq<char>)
    decreases s.len(),
{
    if s.len() == 0 {
        (Seq::empty(), Seq::empty())
    } else {
        let (done, cur) = slug_scan(s.drop_last());
        let c = s.last();
        if unicode_white_space(c) {
            (done + capitalized(cur), Seq::empty())
        } else if unicode_alphanumeric(c) {
            (done, cur.push(c))
        } else {
            (done, cur)
        }
    }
}

/// The PascalCase slug of a title: its white-space separated words, each cut
/// down to its alphanumeric characters and capitalised, run together.
pub open spec fn slug_text(name: Seq<char>) -> Seq<char> {
    slug_scan(name).0 + capitalized(slug_scan(name).1)
}

fn capitalize(w: &str) -> (r: String)
    ensures
        r@ == capitalized(w@),
        r@.len() == 0 <==> w@.len() == 0,
{
    let n = w.unicode_len();
    if n == 0 {
        return String::new();
    }
    let mut r = char_to_uppercase(w.get_char(0));
    let rest = to_lowercase(w.substring_char(1, n));
    r.append(rest.as_str());
    r
}

/// A character that makes it into a slug: alphanumeric and not white space.
pub open spec fn slug_letter(c: char) -> bool {
    unicode_alphanumeric(c) && !unicode_white_space(c)
}

/// Whether a title has a character that makes it into a slug.
pub open spec fn has_slug_letter(s: Seq<char>) -> bool {
    exists|k: int| 0 <= k < s.len() && #[trigger] slug_letter(s[k])
}

proof fn lemma_has_slug_letter_push(s: Seq<char>, c: char)
    ensures
        has_slug_letter(s.push(c)) == (has_slug_letter(s) || slug_letter(c)),
{
    let t = s.push(c);
    if has_slug_letter(s) {
        let k = choose|k: int| 0 <= k < s.len() && #[trigger] slug_letter(s[k]);
        assert(t[k] == s[k]);
    }
    if slug_letter(c) {
        assert(t[s.len() as int] == c);
    }
    if has_slug_letter(t) {
        let k = choose|k: int| 0 <= k < t.len() && #[trigger] slug_letter(t[k]);
        if k < s.len() {
            assert(t[k] == s[k]);
        }
    }
}

/// Readable PascalCase slug from a problem title, used for CSES file names.
/// It is empty exactly when no character of the title makes it into a slug.
pub fn slug_from_name(name: &str) -> (r: String)
    ensures
        r@ == slug_text(name@),
        r@.len() == 0 <==> !has_slug_letter(name@),
{
    let n = name.unicode_len();
    let mut done = String::new();
    let mut cur = String::new();
    let mut i: usize = 0;
    proof {
        assert(!has_slug_letter(name@.subrange(0, 0)));
    }
    while i < n
        invariant
            n == name@.len(),
            i <= n,
            slug_scan(name@.subrange(0, i as int)) == (done@, cur@),
            (done@.len() > 0 || cur@.len() > 0) <==> has_slug_letter(name@.subrange(0, i as int)),
        decreases n - i,
    {
        let c = name.get_char(i);
        proof {
            assert(name@.subrange(0, i + 1).drop_last() =~= name@.subrange(0, i as int));
            assert(name@.subrange(0, i + 1) =~= name@.subrange(0, i as int).push(c));
            lemma_has_slug_letter_push(name@.subrange(0, i as int), c);
        }
        if is_whitespace(c) {
            let w = capitalize(cur.as_str());
            done.append(w.as_str());
            cur = String::new();
        } else if is_alphanumeric(c) {
            push_char(&mut cur, c);
        }
        i = i + 1;
    }
    proof {
        assert(name@.subrange(0, n as int) =~= name@);
    }
    let w = capitalize(cur.as_str());
    done.append(w.as_str());
    done
}

/// The file name of a problem's solution, without extension: the title slug
/// for CSES (the safe id when the slug is empty), the safe id elsewhere.
pub open spec fn basename_text(p: ProblemView) -> Seq<char> {
    match p.platform {
        Platform::Cses => if slug_text(p.name).len() == 0 {
            safe_id_text(p.id)
        } else {
            slug_text(p.name)
        },
        _ => safe_id_text(p.id),
    }
}

pub fn solution_basename(problem: &Problem) -> (r: String)
    ensures
        r@ == basename_text(problem@),
{
    match problem.platform {
        Platform::Cses => {
            let slug = slug_from_name(problem.name.as_str());
            if slug.unicode_len() == 0 {
                safe_id(problem.id.as_str())
            } else {
                slug
            }
        },
        _ => safe_id(problem.id.as_str()),
    }
}

// ---------------------------------------------------------------------------
// Solution and test paths
// ---------------------------------------------------------------------------

/// The directory of a judge's solutions under a workspace root.
pub open spec fn platform_dir_text(root: Seq<char>, platform: Platform) -> Seq<char> {
    joined(root, platform_slug_text(platform))
}

/// The solution file of a problem under a workspace root: `<judge>/<basename>.<ext>`.
pub open spec fn solution_path_text(root: Seq<char>, p: ProblemView, ext: Seq<char>) -> Seq<char> {
    joined(platform_dir_text(root, p.platform), basename_text(p) + seq!['.'] + ext)
}

/// The application's data directory: `cpos` under the platform's
/// configuration directory (`.` when that is unknown).
pub open spec fn data_dir_text(config_dir: Option<Seq<char>>) -> Seq<char> {
    joined(home_or_dot(config_dir), "cpos"@)
}

/// Where a problem's sample tests are cached:
/// `<data dir>/tests/<judge>/<safe id>.json`.
pub open spec fn tests_path_text(config_dir: Option<Seq<char>>, p: ProblemView) -> Seq<char> {
    joined(
        joined(joined(data_dir_text(config_dir), "tests"@), platform_slug_text(p.platform)),
        safe_id_text(p.id) + ".json"@,
    )
}

/// The directory of a judge's solutions, for a given home directory.
pub fn platform_dir_with(config: &Config, home: Option<&str>, platform: Platform) -> (r: String)
    ensures
        r@ == platform_dir_text(
            root_text(opt_text(config.workspace_dir), match home { Some(h) => Some(h@), None => None }),
            platform,
        ),
{
    let root = root_with(config, home);
    join_text(root.as_str(), platform_slug(platform))
}

/// Directory that holds a platform's flat list of solution files.
pub fn platform_dir(config: &Config, platform: Platform) -> (p: PathBuf)
    ensures
        exists|h: Option<Seq<char>>| p == path_from_text(
            #[trigger] platform_dir_text(root_text(opt_text(config.workspace_dir), h), platform),
        ),
{
    let home = home_dir_text();
    let text = match &home {
        Some(h) => platform_dir_with(config, Some(h.as_str()), platform),
        None => platform_dir_with(config, None, platform),
    };
    assert(text@ == platform_dir_text(root_text(opt_text(config.workspace_dir), opt_text(home)), platform));
    path_from(text)
}

/// The solution file of a problem, for a given home directory.
pub fn solution_path_with(config: &Config, home: Option<&str>, problem: &Problem, ext: &str) -> (r: String)
    ensures
        r@ == solution_path_text(
            root_text(opt_text(config.workspace_dir), match home { Some(h) => Some(h@), None => None }),
            problem@,
            ext@,
        ),
{
    let dir = platform_dir_with(config, home, problem.platform);
    let mut file = solution_basename(problem);
    push_char(&mut file, '.');
    file.append(ext);
    join_text(dir.as_str(), file.as_str())
}

/// Path to the solution source file for a problem in the given language: a
/// single flat file like `codeforces/1095F.cpp` or `cses/WeirdAlgorithm.cpp`.
pub fn solution_path(config: &Config, problem: &Problem, ext: &str) -> (p: PathBuf)
    ensures
        exists|h: Option<Seq<char>>| p == path_from_text(
            #[trigger] solution_path_text(root_text(opt_text(config.workspace_dir), h), problem@, ext@),
        ),
{
    let home = home_dir_text();
    let text = match &home {
        Some(h) => solution_path_with(config, Some(h.as_str()), problem, ext),
        None => solution_path_with(config, None, problem, ext),
    };
    assert(text@ == solution_path_text(root_text(opt_text(config.workspace_dir), opt_text(home)), problem@, ext@));
    path_from(text)
}

/// The application's data directory, for a given configuration directory.
pub fn data_dir_with(config_dir: Option<&str>) -> (r: String)
    ensures
        r@ == data_dir_text(match config_dir { Some(h) => Some(h@), None => None }),
{
    let base = home_text_or_dot(config_dir);
    join_text(base.as_str(), "cpos")
}

/// The application's data directory: `cpos` under the platform's
/// configuration directory. Build artifacts and cached tests live there.
pub fn data_dir() -> (p: PathBuf)
    ensures
        exists|d: Option<Seq<char>>| p == path_from_text(#[trigger] data_dir_text(d)),
{
    let dir = config_dir_text();
    let text = match &dir {
        Some(d) => data_dir_with(Some(d.as_str())),
        None => data_dir_with(None),
    };
    assert(text@ == data_dir_text(opt_text(dir)));
    path_from(text)
}

/// Where a problem's sample tests are cached, for a given configuration directory.
pub fn tests_path_with(config_dir: Option<&str>, problem: &Problem) -> (r: String)
    ensures
        r@ == tests_path_text(match config_dir { Some(h) => Some(h@), None => None }, problem@),
{
    let data = data_dir_with(config_dir);
    let tests = join_text(data.as_str(), "tests");
    let dir = join_text(tests.as_str(), platform_slug(problem.platform));
    let mut file = safe_id(problem.id.as_str());
    file.append(".json");
    join_text(dir.as_str(), file.as_str())
}

/// Path to the JSON file that caches sample tests, kept in the data
/// directory, outside the user's workspace.
pub fn tests_path(config: &Config, problem: &Problem) -> (p: PathBuf)
    ensures
        exists|d: Option<Seq<char>>| p == path_from_text(#[trigger] tests_path_text(d, problem@)),
{
    let _ = config;
    let dir = config_dir_text();
    let text = match &dir {
        Some(d) => tests_path_with(Some(d.as_str()), problem),
        None => tests_path_with(None, problem),
    };
    assert(text@ == tests_path_text(opt_text(dir), problem@));
    path_from(text)
}

/// A safe id has as many characters as the id, and only alphanumeric
/// characters, `-` and `_`: no path separator, colon or dot.
pub proof fn safe_ids_are_file_name_safe(id: Seq<char>)
    ensures
        safe_id_text(id).len() == id.len(),
        forall|i: int| 0 <= i < id.len() ==> {
            let c = #[trigger] safe_id_text(id)[i];
            &&& unicode_alphanumeric(c) || c == '-' || c == '_'
            &&& c != '/' && c != '\\' && c != ':' && c != '.'
        },
        forall|i: int| 0 <= i < id.len() ==> (unicode_alphanumeric(id[i]) || id[i] == '-' || id[i] == '_')
            ==> #[trigger] safe_id_text(id)[i] == id[i],
{
}

/// A solution file sits directly in its judge's directory under the
/// workspace root: `<root>/<judge>/<basename>.<ext>`, whatever the root.
/// (A base name cannot start with `/` when it is a safe id; for a CSES title
/// slug this rests on the upper-case mapping, which is not spelt out here.)
pub proof fn solution_is_flat_under_judge_dir(root: Seq<char>, p: ProblemView, ext: Seq<char>)
    requires
        root.len() > 0,
        root.last() != '/',
        basename_text(p).len() == 0 || basename_text(p)[0] != '/',
    ensures
        solution_path_text(root, p, ext) == root + seq!['/'] + platform_slug_text(p.platform) + seq!['/']
            + basename_text(p) + seq!['.'] + ext,
{
    reveal_strlit("codeforces");
    reveal_strlit("cses");
    reveal_strlit("atcoder");
    let dir = platform_dir_text(root, p.platform);
    let file = basename_text(p) + seq!['.'] + ext;
    let slug = platform_slug_text(p.platform);
    assert(slug.len() > 0 && slug[0] != '/' && slug.last() != '/');
    assert(dir == root + seq!['/'] + slug);
    assert(dir.last() == slug.last());
    if basename_text(p).len() > 0 {
        assert(file[0] == basename_text(p)[0]);
    } else {
        assert(file[0] == '.');
    }
    assert(solution_path_text(root, p, ext) == dir + seq!['/'] + file);
    assert(dir + seq!['/'] + file =~= root + seq!['/'] + slug + seq!['/'] + basename_text(p) + seq!['.'] + ext);
}

/// Sample tests are cached under the data directory, never in the
/// workspace: `<data dir>/tests/<judge>/<safe id>.json`, whatever the
/// configuration directory.
pub proof fn tests_live_under_data_dir(config_dir: Option<Seq<char>>, p: ProblemView)
    ensures
        tests_path_text(config_dir, p) == data_dir_text(config_dir) + "/tests/"@ + platform_slug_text(p.platform)
            + seq!['/'] + safe_id_text(p.id) + ".json"@,
{
    reveal_strlit("cpos");
    reveal_strlit("tests");
    reveal_strlit("/tests/");
    reveal_strlit(".json");
    reveal_strlit("codeforces");
    reveal_strlit("cses");
    reveal_strlit("atcoder");
    let base = home_or_dot(config_dir);
    let data = data_dir_text(config_dir);
    assert(data.len() > 0 && data.last() == 's');
    let tests = joined(data, "tests"@);
    assert(tests == data + seq!['/'] + "tests"@);
    assert(tests.last() == 's');
    let slug = platform_slug_text(p.platform);
    assert(slug.len() > 0 && slug[0] != '/' && slug.last() != '/');
    let dir = joined(tests, slug);
    assert(dir == tests + seq!['/'] + slug);
    assert(dir.last() == slug.last());
    let file = safe_id_text(p.id) + ".json"@;
    if p.id.len() > 0 {
        assert(file[0] == safe_id_text(p.id)[0]);
    } else {
        assert(file[0] == '.');
    }
    assert(tests_path_text(config_dir, p) == dir + seq!['/'] + file);
    assert(dir + seq!['/'] + file =~= data + "/tests/"@ + slug + seq!['/'] + safe_id_text(p.id) + ".json"@);
}

/// Outside CSES the base name is the safe id, which never starts with `/`.
pub proof fn non_cses_basename_has_no_leading_slash(p: ProblemView)
    requires
        p.platform != Platform::Cses,
    ensures
        basename_text(p).len() == 0 || basename_text(p)[0] != '/',
{
}

// ---------------------------------------------------------------------------
// Starter templates
// ---------------------------------------------------------------------------

pub const TEMPLATE_C: &'static str = "#include <stdio.h>\n\nint main(void) {\n\n    return 0;\n}\n";

pub const TEMPLATE_CPP: &'static str = "#include <bits/stdc++.h>\nusing namespace std;\n\nint main() {\n    ios::sync_with_stdio(false);\n    cin.tie(nullptr);\n\n    return 0;\n}\n";

pub const TEMPLATE_PYTHON: &'static str = "import sys\ninput = sys.stdin.readline\n\n\ndef main():\n    pass\n\n\nif __name__ == \"__main__\":\n    main()\n";

/// The class is package-private (no `public`), so the file may be named
/// anything, including a problem id that starts with a digit.
pub const TEMPLATE_JAVA: &'static str = "import java.util.*;\nimport java.io.*;\n\nclass Main {\n    public static void main(String[] args) throws IOException {\n        BufferedReader br = new BufferedReader(new InputStreamReader(System.in));\n\n    }\n}\n";

pub const TEMPLATE_RUST: &'static str = "use std::io::{self, Read, Write};\n\nfn main() {\n    let mut input = String::new();\n    io::stdin().read_to_string(&mut input).unwrap();\n    let mut it = input.split_whitespace();\n\n}\n";

pub const TEMPLATE_GO: &'static str = "package main\n\nimport (\n\t\"bufio\"\n\t\"fmt\"\n\t\"os\"\n)\n\nfunc main() {\n\treader := bufio.NewReader(os.Stdin)\n\twriter := bufio.NewWriter(os.Stdout)\n\tdefer writer.Flush()\n\t_ = reader\n\t_ = fmt.Fprintln\n}\n";

pub const TEMPLATE_KOTLIN: &'static str = "import java.io.BufferedReader\nimport java.io.InputStreamReader\n\nfun main() {\n    val br = BufferedReader(InputStreamReader(System.`in`))\n\n}\n";

pub const TEMPLATE_CSHARP: &'static str = "using System;\nusing System.IO;\n\nclass Main {\n    static void Main() {\n        var input = Console.In;\n\n    }\n}\n";

pub const TEMPLATE_JAVASCRIPT: &'static str = "const data = require('fs').readFileSync(0, 'utf8');\nconst lines = data.split('\\n');\nlet idx = 0;\nconst next = () => lines[idx++];\n\n";

pub const TEMPLATE_RUBY: &'static str = "# read input with gets / STDIN.read\n\n";

pub const TEMPLATE_HASKELL: &'static str = "import Data.List\n\nmain :: IO ()\nmain = do\n    contents <- getContents\n    let ws = words contents\n    return ()\n";

pub const TEMPLATE_PASCAL: &'static str = "program solution;\nbegin\n\nend.\n";

/// The built-in starter template of a language key; empty for unknown keys.
pub open spec fn template_text(lang: Seq<char>) -> Seq<char> {
    if lang == "c"@ {
        TEMPLATE_C@
    } else if lang == "cpp"@ {
        TEMPLATE_CPP@
    } else if lang == "python"@ || lang == "pypy"@ {
        TEMPLATE_PYTHON@
    } else if lang == "java"@ {
        TEMPLATE_JAVA@
    } else if lang == "rust"@ {
        TEMPLATE_RUST@
    } else if lang == "go"@ {
        TEMPLATE_GO@
    } else if lang == "kotlin"@ {
        TEMPLATE_KOTLIN@
    } else if lang == "csharp"@ {
        TEMPLATE_CSHARP@
    } else if lang == "javascript"@ {
        TEMPLATE_JAVASCRIPT@
    } else if lang == "ruby"@ {
        TEMPLATE_RUBY@
    } else if lang == "haskell"@ {
        TEMPLATE_HASKELL@
    } else if lang == "pascal"@ {
        TEMPLATE_PASCAL@
    } else {
        Seq::empty()
    }
}

/// A minimal starter template for the given language key.
pub fn template_for(lang: &str) -> (r: String)
    ensures
        r@ == template_text(lang@),
{
    let t: &str = if str_equal(lang, "c") {
        TEMPLATE_C
    } else if str_equal(lang, "cpp") {
        TEMPLATE_CPP
    } else if str_equal(lang, "python") || str_equal(lang, "pypy") {
        TEMPLATE_PYTHON
    } else if str_equal(lang, "java") {
        TEMPLATE_JAVA
    } else if str_equal(lang, "rust") {
        TEMPLATE_RUST
    } else if str_equal(lang, "go") {
        TEMPLATE_GO
    } else if str_equal(lang, "kotlin") {
        TEMPLATE_KOTLIN
    } else if str_equal(lang, "csharp") {
        TEMPLATE_CSHARP
    } else if str_equal(lang, "javascript") {
        TEMPLATE_JAVASCRIPT
    } else if str_equal(lang, "ruby") {
        TEMPLATE_RUBY
    } else if str_equal(lang, "haskell") {
        TEMPLATE_HASKELL
    } else if str_equal(lang, "pascal") {
        TEMPLATE_PASCAL
    } else {
        return String::new();
    };
    String::from_str(t)
}

/// Each language key gets its own language's starter template: `c`, `cpp`,
/// `java`, `rust`, `go`, `kotlin`, `csharp`, `javascript`, `ruby`,
/// `haskell` and `pascal` their own, `python` and `pypy` the Python one; any
/// other key gets none.
pub proof fn each_language_gets_its_own_template(lang: Seq<char>)
    ensures
        lang == "c"@ ==> template_text(lang) == TEMPLATE_C@,
        lang == "cpp"@ ==> template_text(lang) == TEMPLATE_CPP@,
        lang == "python"@ ==> template_text(lang) == TEMPLATE_PYTHON@,
        lang == "pypy"@ ==> template_text(lang) == TEMPLATE_PYTHON@,
        lang == "java"@ ==> template_text(lang) == TEMPLATE_JAVA@,
        lang == "rust"@ ==> template_text(lang) == TEMPLATE_RUST@,
        lang == "go"@ ==> template_text(lang) == TEMPLATE_GO@,
        lang == "kotlin"@ ==> template_text(lang) == TEMPLATE_KOTLIN@,
        lang == "csharp"@ ==> template_text(lang) == TEMPLATE_CSHARP@,
        lang == "javascript"@ ==> template_text(lang) == TEMPLATE_JAVASCRIPT@,
        lang == "ruby"@ ==> template_text(lang) == TEMPLATE_RUBY@,
        lang == "haskell"@ ==> template_text(lang) == TEMPLATE_HASKELL@,
        lang == "pascal"@ ==> template_text(lang) == TEMPLATE_PASCAL@,
        !known_language(lang) ==> template_text(lang).len() == 0,
{
    reveal_strlit("c");
    reveal_strlit("cpp");
    reveal_strlit("python");
    reveal_strlit("pypy");
    reveal_strlit("java");
    reveal_strlit("rust");
    reveal_strlit("go");
    reveal_strlit("kotlin");
    reveal_strlit("csharp");
    reveal_strlit("javascript");
    reveal_strlit("ruby");
    reveal_strlit("haskell");
    reveal_strlit("pascal");
    // Each key differs from the keys tried before it, in length or in a character.
    assert("c"@.len() != "cpp"@.len());
    assert("c"@.len() != "python"@.len() && "cpp"@.len() != "python"@.len());
    assert("c"@.len() != "pypy"@.len() && "cpp"@.len() != "pypy"@.len() && "python"@.len() != "pypy"@.len());
    assert("c"@.len() != "java"@.len() && "cpp"@.len() != "java"@.len() && "python"@.len() != "java"@.len() && "pypy"@[0] != "java"@[0]);
    assert("c"@.len() != "rust"@.len() && "cpp"@.len() != "rust"@.len() && "python"@.len() != "rust"@.len() && "pypy"@[0] != "rust"@[0] && "java"@[0] != "rust"@[0]);
    assert("c"@.len() != "go"@.len() && "cpp"@.len() != "go"@.len() && "python"@.len() != "go"@.len() && "pypy"@.len() != "go"@.len() && "java"@.len() != "go"@.len() && "rust"@.len() != "go"@.len());
    assert("c"@.len() != "kotlin"@.len() && "cpp"@.len() != "kotlin"@.len() && "python"@[0] != "kotlin"@[0] && "pypy"@.len() != "kotlin"@.len() && "java"@.len() != "kotlin"@.len() && "rust"@.len() != "kotlin"@.len() && "go"@.len() != "kotlin"@.len());
    assert("c"@.len() != "csharp"@.len() && "cpp"@.len() != "csharp"@.len() && "python"@[0] != "csharp"@[0] && "pypy"@.len() != "csharp"@.len() && "java"@.len() != "csharp"@.len() && "rust"@.len() != "csharp"@.len() && "go"@.len() != "csharp"@.len() && "kotlin"@[0] != "csharp"@[0]);
    assert("c"@.len() != "javascript"@.len() && "cpp"@.len() != "javascript"@.len() && "python"@.len() != "javascript"@.len() && "pypy"@.len() != "javascript"@.len() && "java"@.len() != "javascript"@.len() && "rust"@.len() != "javascript"@.len() && "go"@.len() != "javascript"@.len() && "kotlin"@.len() != "javascript"@.len() && "csharp"@.len() != "javascript"@.len());
    assert("c"@.len() != "ruby"@.len() && "cpp"@.len() != "ruby"@.len() && "python"@.len() != "ruby"@.len() && "pypy"@[0] != "ruby"@[0] && "java"@[0] != "ruby"@[0] && "rust"@[2] != "ruby"@[2] && "go"@.len() != "ruby"@.len() && "kotlin"@.len() != "ruby"@.len() && "csharp"@.len() != "ruby"@.len() && "javascript"@.len() != "ruby"@.len());
    assert("c"@.len() != "haskell"@.len() && "cpp"@.len() != "haskell"@.len() && "python"@.len() != "haskell"@.len() && "pypy"@.len() != "haskell"@.len() && "java"@.len() != "haskell"@.len() && "rust"@.len() != "haskell"@.len() && "go"@.len() != "haskell"@.len() && "kotlin"@.len() != "haskell"@.len() && "csharp"@.len() != "haskell"@.len() && "javascript"@.len() != "haskell"@.len() && "ruby"@.len() != "haskell"@.len());
    assert("c"@.len() != "pascal"@.len() && "cpp"@.len() != "pascal"@.len() && "python"@[1] != "pascal"@[1] && "pypy"@.len() != "pascal"@.len() && "java"@.len() != "pascal"@.len() && "rust"@.len() != "pascal"@.len() && "go"@.len() != "pascal"@.len() && "kotlin"@[0] != "pascal"@[0] && "csharp"@[0] != "pascal"@[0] && "javascript"@.len() != "pascal"@.len() && "ruby"@.len() != "pascal"@.len() && "haskell"@.len() != "pascal"@.len());
}

/// The language keys with a built-in template.
pub open spec fn known_language(lang: Seq<char>) -> bool {
    ||| lang == "c"@
    ||| lang == "cpp"@
    ||| lang == "python"@
    ||| lang == "pypy"@
    ||| lang == "java"@
    ||| lang == "rust"@
    ||| lang == "go"@
    ||| lang == "kotlin"@
    ||| lang == "csharp"@
    ||| lang == "javascript"@
    ||| lang == "ruby"@
    ||| lang == "haskell"@
    ||| lang == "pascal"@
}

/// The file configured as the template source, when one is set and not blank.
pub open spec fn configured_template(template_file: Option<Seq<char>>) -> Option<Seq<char>> {
    match template_file {
        Some(f) if !all_white_space(f) => Some(f),
        _ => None,
    }
}

/// The file to read the user's template from: the configured template file,
/// with `~/` expanded, when it is set and not blank.
pub fn template_source(config: &Config) -> (r: Option<PathBuf>)
    ensures
        configured_template(opt_text(config.template_file)) is None ==> r is None,
        configured_template(opt_text(config.template_file)) matches Some(f) ==> (r matches Some(p)
            && exists|h: Option<Seq<char>>| p == path_from_text(#[trigger] expanded(f, h))),
{
    match &config.template_file {
        Some(f) if !is_blank(f.as_str()) => Some(expand_tilde(f.as_str())),
        _ => None,
    }
}

/// The template to scaffold with, given what reading the configured template
/// file gave (`None` when no file is configured or it could not be read):
/// that content, otherwise the built-in template of the language.
pub fn template_content_from(read: Option<String>, lang: &str) -> (r: String)
    ensures
        read matches Some(c) ==> r@ == c@,
        read is None ==> r@ == template_text(lang@),
{
    match read {
        Some(content) => content,
        None => template_for(lang),
    }
}

} // verus!
