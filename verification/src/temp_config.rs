//! The configuration file a session works on: reading its path from the
//! environment, naming a fresh temporary file, and deciding when an old
//! temporary file is to be removed.
use vstd::prelude::*;
use rand::Rng;
use crate::text::{chars_of, push_char};

verus! {

/// Name of the environment variable that holds the current configuration path.
pub const TEMP_CONFIG_ENV_KEY: &'static str = "MAXWELL_TEMP_CONFIG_PATH";
/// File names of generated temporary configurations start with this.
pub const TEMP_CONFIG_PREFIX: &'static str = "maxwell_temp_config_";
/// Number of random characters in a generated file name.
pub const TEMP_CONFIG_SUFFIX_LEN: usize = 8;
/// Extension of configuration files.
pub const TOML_EXTENSION: &'static str = ".toml";

/// An ASCII letter or digit.
pub open spec fn is_ascii_alphanumeric(c: char) -> bool {
    ('A' <= c <= 'Z') || ('a' <= c <= 'z') || ('0' <= c <= '9')
}

/// `name` is the name of a generated temporary configuration: the prefix,
/// `TEMP_CONFIG_SUFFIX_LEN` ASCII letters or digits, then `.toml`.
pub open spec fn is_temp_config_file_name(name: Seq<char>) -> bool {
    let p = TEMP_CONFIG_PREFIX@.len();
    let n = TEMP_CONFIG_SUFFIX_LEN as int;
    &&& name.len() == p + n + TOML_EXTENSION@.len()
    &&& name.take(p as int) == TEMP_CONFIG_PREFIX@
    &&& name.skip(p + n) == TOML_EXTENSION@
    &&& forall|i: int| p <= i < p + n ==> is_ascii_alphanumeric(#[trigger] name[i])
}

/// `len` characters drawn at random (with rand's thread-local generator)
/// from `Alphanumeric`: A-Z, a-z and 0-9. Which characters come out is left
/// open.
#[verifier::external_body]
fn random_alphanumeric(len: usize) -> (r: Vec<char>)
    ensures
        r@.len() == len,
        forall|i: int| 0 <= i < r@.len() ==> is_ascii_alphanumeric(#[trigger] r@[i]),
{
    rand::thread_rng().sample_iter(&rand::distributions::Alphanumeric).take(len).map(char::from).collect()
}

/// The file name of a temporary configuration with the given random part.
pub fn temp_config_file_name(suffix: &[char]) -> (r: String)
    ensures
        r@ == TEMP_CONFIG_PREFIX@ + suffix@ + TOML_EXTENSION@,
{
    let mut r = String::from_str(TEMP_CONFIG_PREFIX);
    let n = suffix.len();
    for i in 0..n
        invariant
            n == suffix@.len(),
            r@ == TEMP_CONFIG_PREFIX@ + suffix@.take(i as int),
    {
        push_char(&mut r, suffix[i]);
        assert(suffix@.take(i + 1) =~= suffix@.take(i as int).push(suffix@[i as int]));
        assert(r@ =~= TEMP_CONFIG_PREFIX@ + suffix@.take(i + 1));
    }
    assert(suffix@.take(n as int) =~= suffix@);
    r.append(TOML_EXTENSION);
    r
}

/// A fresh file name for a temporary configuration, with a random part.
pub fn new_temp_config_file_name() -> (r: String)
    ensures
        is_temp_config_file_name(r@),
{
    let suffix = random_alphanumeric(TEMP_CONFIG_SUFFIX_LEN);
    let r = temp_config_file_name(suffix.as_slice());
    proof {
        let p = TEMP_CONFIG_PREFIX@.len() as int;
        assert(r@.take(p) =~= TEMP_CONFIG_PREFIX@);
        assert(r@.skip(p + 8) =~= TOML_EXTENSION@);
        assert forall|i: int| p <= i < p + 8 implies is_ascii_alphanumeric(#[trigger] r@[i]) by {
            assert(r@[i] == suffix@[i - p]);
        }
    }
    r
}

/// The configuration path recorded in the environment variable: its value
/// when it is set and not empty.
pub fn config_path_from_env(value: Option<String>) -> (r: Option<String>)
    ensures
        r == match value {
            Some(v) => if v@.len() > 0 {
                Some(v)
            } else {
                None
            },
            None => None,
        },
{
    match value {
        Some(v) => if v.as_str().is_empty() {
            None
        } else {
            Some(v)
        },
        None => None,
    }
}

/// What `Path::starts_with` answers: `base` is a prefix of `path` component
/// by component, with the path syntax of the platform the crate is built for.
pub uninterp spec fn path_starts_with(path: Seq<char>, base: Seq<char>) -> bool;

/// What `Path::file_name` returns: the last component of `path` when it is a
/// normal name, `None` otherwise (path syntax of the build platform).
pub uninterp spec fn path_file_name(path: Seq<char>) -> Option<Seq<char>>;

/// What `==` on `Path` answers: the two paths have the same components
/// (path syntax of the build platform).
pub uninterp spec fn same_path(a: Seq<char>, b: Seq<char>) -> bool;

/// What `Path::join` returns: `path` adjoined to `base` (path syntax of the
/// build platform).
pub uninterp spec fn joined_path(base: Seq<char>, path: Seq<char>) -> Seq<char>;

/// `Path::new(path).starts_with(base)`, compared component by component.
#[verifier::external_body]
fn starts_with_path(path: &str, base: &str) -> (r: bool)
    ensures
        r == path_starts_with(path@, base@),
{
    std::path::Path::new(path).starts_with(base)
}

/// `Path::new(path).file_name()`, as text (a `&str` path has a UTF-8 name).
#[verifier::external_body]
fn file_name_of(path: &str) -> (r: Option<String>)
    ensures
        r matches Some(n) ==> path_file_name(path@) == Some(n@),
        r is None ==> path_file_name(path@) is None,
{
    std::path::Path::new(path).file_name().and_then(|n| n.to_str()).map(|n| n.to_string())
}

/// `Path::new(a) == Path::new(b)`.
#[verifier::external_body]
fn paths_equal(a: &str, b: &str) -> (r: bool)
    ensures
        r == same_path(a@, b@),
{
    std::path::Path::new(a) == std::path::Path::new(b)
}

/// A character of a plain file name: an ASCII letter or digit, `_` or `.`.
pub open spec fn is_plain_name_char(c: char) -> bool {
    is_ascii_alphanumeric(c) || c == '_' || c == '.'
}

/// A file name that is one normal path component on every platform: it
/// starts with an ASCII letter or digit and holds only ASCII letters,
/// digits, `_` and `.` (no separator, no prefix, not `.` or `..`).
pub open spec fn is_plain_file_name(name: Seq<char>) -> bool {
    &&& name.len() > 0
    &&& is_ascii_alphanumeric(name[0])
    &&& forall|i: int| 0 <= i < name.len() ==> is_plain_name_char(#[trigger] name[i])
}

/// `Path::new(base).join(path)`, as text. Joining a relative path extends
/// `base` by it (`PathBuf::push`), so when `path` is a plain file name the
/// result starts with `base`, component by component, its file name is
/// `path`, and it is not empty. What the joined text is in general is left
/// to the name.
#[verifier::external_body]
fn join_path(base: &str, path: &str) -> (r: String)
    ensures
        r@ == joined_path(base@, path@),
        is_plain_file_name(path@) ==> path_starts_with(r@, base@) && path_file_name(r@) == Some(path@),
        is_plain_file_name(path@) ==> r@.len() > 0,
{
    std::path::Path::new(base).join(path).to_string_lossy().into_owned()
}

fn has_prefix(s: &[char], prefix: &[char]) -> (r: bool)
    ensures
        r == (prefix@.len() <= s@.len() && s@.take(prefix@.len() as int) == prefix@),
{
    if prefix.len() > s.len() {
        return false;
    }
    let n = prefix.len();
    for i in 0..n
        invariant
            n == prefix@.len(),
            n <= s@.len(),
            forall|j: int| 0 <= j < i ==> s@[j] == prefix@[j],
    {
        if s[i] != prefix[i] {
            assert(s@.take(n as int)[i as int] != prefix@[i as int]);
            return false;
        }
    }
    assert(s@.take(n as int) =~= prefix@);
    true
}

/// `path` was generated by this program as a temporary configuration: it
/// lies in the temporary directory and its file name has the prefix of
/// generated names.
pub open spec fn spec_is_generated_temp_config(path: Seq<char>, temp_dir: Seq<char>) -> bool {
    &&& path_starts_with(path, temp_dir)
    &&& match path_file_name(path) {
        Some(name) => TEMP_CONFIG_PREFIX@.len() <= name.len() && name.take(
            TEMP_CONFIG_PREFIX@.len() as int,
        ) == TEMP_CONFIG_PREFIX@,
        None => false,
    }
}

/// Whether `path` is a temporary configuration generated by this program,
/// `temp_dir` being the system's temporary directory.
pub fn is_generated_temp_config(path: &str, temp_dir: &str) -> (r: bool)
    ensures
        r == spec_is_generated_temp_config(path@, temp_dir@),
{
    if !starts_with_path(path, temp_dir) {
        return false;
    }
    match file_name_of(path) {
        Some(name) => {
            let n = chars_of(name.as_str());
            let p = chars_of(TEMP_CONFIG_PREFIX);
            has_prefix(n.as_slice(), p.as_slice())
        },
        None => false,
    }
}

/// Whether the configuration at `old_path` is to be deleted when the
/// session moves to `new_path`: it is another file, generated by this
/// program, and it exists.
pub fn should_remove_previous(old_path: &str, new_path: &str, temp_dir: &str, old_exists: bool) -> (r: bool)
    ensures
        r == (!same_path(old_path@, new_path@) && spec_is_generated_temp_config(old_path@, temp_dir@)
            && old_exists),
{
    !paths_equal(old_path, new_path) && is_generated_temp_config(old_path, temp_dir) && old_exists
}

/// Where the session's configuration lives.
pub enum ConfigPathChoice {
    /// The path already recorded; nothing to record.
    Existing(String),
    /// A fresh temporary file; its path is to be recorded.
    Fresh(String),
}

/// The recorded configuration path if there is one, otherwise a fresh
/// temporary file in `temp_dir` whose name has a random part. A fresh path is
/// not empty, so once recorded it passes `config_path_from_env` and is the
/// path chosen on the next call.
pub fn choose_config_path(current: Option<String>, temp_dir: &str) -> (r: ConfigPathChoice)
    ensures
        current matches Some(c) ==> r == ConfigPathChoice::Existing(c),
        current is None ==> (r matches ConfigPathChoice::Fresh(p) && p@.len() > 0
            && spec_is_generated_temp_config(p@, temp_dir@) && exists|name: Seq<char>|
            is_temp_config_file_name(name) && p@ == joined_path(temp_dir@, name)),
{
    match current {
        Some(c) => ConfigPathChoice::Existing(c),
        None => {
            let name = new_temp_config_file_name();
            proof {
                lemma_temp_config_file_name_is_plain(name@);
            }
            let p = join_path(temp_dir, name.as_str());
            ConfigPathChoice::Fresh(p)
        },
    }
}

/// A generated temporary file name is a plain file name that starts with the
/// prefix of generated names.
pub proof fn lemma_temp_config_file_name_is_plain(name: Seq<char>)
    requires
        is_temp_config_file_name(name),
    ensures
        is_plain_file_name(name),
        TEMP_CONFIG_PREFIX@.len() <= name.len(),
        name.take(TEMP_CONFIG_PREFIX@.len() as int) == TEMP_CONFIG_PREFIX@,
{
    reveal_strlit("maxwell_temp_config_");
    reveal_strlit(".toml");
    let p = TEMP_CONFIG_PREFIX@;
    let e = TOML_EXTENSION@;
    assert forall|i: int| 0 <= i < p.len() implies is_plain_name_char(#[trigger] p[i]) by {
        assert(i == 0 || i == 1 || i == 2 || i == 3 || i == 4 || i == 5 || i == 6 || i == 7 || i == 8 || i == 9 || i == 10 || i == 11 || i == 12 || i == 13 || i == 14 || i == 15 || i == 16 || i == 17 || i == 18 || i == 19);
    }
    assert forall|i: int| 0 <= i < e.len() implies is_plain_name_char(#[trigger] e[i]) by {
        assert(i == 0 || i == 1 || i == 2 || i == 3 || i == 4);
    }
    assert forall|i: int| 0 <= i < name.len() implies is_plain_name_char(#[trigger] name[i]) by {
        if i < p.len() {
            assert(name[i] == name.take(p.len() as int)[i]);
            assert(is_plain_name_char(p[i]));
        } else if i >= p.len() + 8 {
            assert(name[i] == name.skip(p.len() + 8int)[i - p.len() - 8]);
            assert(is_plain_name_char(e[i - p.len() - 8]));
        }
    }
    assert(name[0] == p[0]);
}

} // verus!
