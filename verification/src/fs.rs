//! Path rules shared by the config file and credential storage: the base
//! directory of a user, and what may stand in a path.
use crate::text;
use vstd::prelude::*;
use vstd::string::*;

verus! {

/// A character that no path component may hold: a separator, a character that
/// some file system forbids, or an ASCII control character.
pub open spec fn is_forbidden(c: char) -> bool {
    ||| c == '/'
    ||| c == '\\'
    ||| c == ':'
    ||| c == '*'
    ||| c == '?'
    ||| c == '"'
    ||| c == '<'
    ||| c == '>'
    ||| c == '|'
    ||| c < ' '
    ||| c == '\u{7f}'
}

/// A device name of Windows, in any case.
pub open spec fn is_reserved(stem: Seq<char>) -> bool {
    let name = text::ascii_upper_spec(stem);
    ||| name == "CON"@
    ||| name == "PRN"@
    ||| name == "AUX"@
    ||| name == "NUL"@
    ||| name.len() == 4 && (name.take(3) == "COM"@ || name.take(3) == "LPT"@) && text::is_digit(
        name[3],
    )
}

/// A single path component that names an entry of a directory on every
/// platform. A device name of Windows is none, whatever extensions it has.
pub open spec fn is_safe_spec(s: Seq<char>) -> bool {
    &&& s.len() > 0
    &&& forall|i: int| 0 <= i < s.len() ==> !is_forbidden(#[trigger] s[i])
    &&& s[0] != ' '
    &&& s.last() != '.'
    &&& s.last() != ' '
    &&& !is_reserved(text::split_spec(s, '.')[0])
}

/// Tells whether a name without its extensions is a device name of Windows.
fn reserved(stem: &str) -> (r: bool)
    ensures
        r == is_reserved(stem@),
{
    let upper = text::to_ascii_upper(stem);
    let name = upper.as_str();
    if text::str_eq(name, "CON") || text::str_eq(name, "PRN") || text::str_eq(name, "AUX")
        || text::str_eq(name, "NUL") {
        return true;
    }
    let v = text::chars_of(name);
    if v.len() != 4 {
        return false;
    }
    let device = text::substring_of(&v, 0, 3);
    assert(v@.subrange(0, 3) =~= name@.take(3));
    (text::str_eq(device.as_str(), "COM") || text::str_eq(device.as_str(), "LPT")) && '0' <= v[3]
        && v[3] <= '9'
}

/// Tells whether `s` is a single, non-traversal path component that is valid
/// on all supported platforms.
pub fn is_safe_path_component(s: &str) -> (r: bool)
    ensures
        r == is_safe_spec(s@),
{
    let v = text::chars_of(s);
    if v.len() == 0 {
        return false;
    }
    let mut i: usize = 0;
    while i < v.len()
        invariant
            v@ == s@,
            i <= v@.len(),
            forall|k: int| 0 <= k < i ==> !is_forbidden(#[trigger] v@[k]),
        decreases v@.len() - i,
    {
        let c = v[i];
        if c == '/' || c == '\\' || c == ':' || c == '*' || c == '?' || c == '"' || c == '<' || c
            == '>' || c == '|' || c < ' ' || c == '\u{7f}' {
            assert(is_forbidden(s@[i as int]));
            return false;
        }
        i = i + 1;
    }
    if v[0] == ' ' || v[v.len() - 1] == '.' || v[v.len() - 1] == ' ' {
        return false;
    }
    let parts = text::split_char(s, '.');
    proof {
        text::lemma_split_nonempty(s@, '.');
    }
    !reserved(parts[0].as_str())
}

/// A safe component is never empty, never `.` or `..`, and holds no separator:
/// joined to a directory it names an entry of that directory.
pub proof fn law_safe_component_stays_inside(s: Seq<char>)
    requires
        is_safe_spec(s),
    ensures
        s.len() > 0,
        s != seq!['.'],
        s != seq!['.', '.'],
        !s.contains('/'),
        !s.contains('\\'),
{
    assert(seq!['.'].last() == '.');
    assert(seq!['.', '.'].last() == '.');
}

/// Two path texts with one separator between them.
pub open spec fn join_spec(base: Seq<char>, name: Seq<char>) -> Seq<char> {
    if base.len() == 0 || base.last() == '/' {
        base + name
    } else {
        base.push('/') + name
    }
}

/// Joins a relative name to a path.
pub fn join_path(base: &str, name: &str) -> (r: String)
    ensures
        r@ == join_spec(base@, name@),
{
    let mut r = base.to_owned();
    proof {
        reveal_strlit("/");
        assert("/"@ =~= seq!['/']);
        assert(seq!['/'].is_suffix_of(base@) <==> base@.len() > 0 && base@.last() == '/') by {
            if base@.len() > 0 {
                assert(base@.subrange(base@.len() - 1, base@.len() as int) =~= seq![base@.last()]);
                assert(seq![base@.last()][0] == base@.last());
                assert(seq!['/'][0] == '/');
            }
        }
    }
    if !base.is_empty() && !text::ends_with(base, "/") {
        r.push('/');
    }
    r.append(name);
    r
}

/// The path, unless it is empty.
pub open spec fn set_path(value: Option<Seq<char>>) -> Option<Seq<char>> {
    match value {
        Some(path) => if path.len() > 0 {
            Some(path)
        } else {
            None
        },
        None => None,
    }
}

/// The text of an optional string slice.
pub open spec fn str_text(value: Option<&str>) -> Option<Seq<char>> {
    match value {
        Some(s) => Some(s@),
        None => None,
    }
}

/// The `.config` directory of a home directory.
pub open spec fn home_config_spec(home: Option<Seq<char>>) -> Option<Seq<char>> {
    match set_path(home) {
        Some(path) => Some(join_spec(path, ".config"@)),
        None => None,
    }
}

/// A path that does not depend on the working directory. On Windows it names a
/// drive and its root, or a share of a server.
pub open spec fn is_absolute_spec(path: Seq<char>, windows: bool) -> bool {
    if windows {
        ||| path.len() >= 3 && is_letter(path[0]) && path[1] == ':' && is_separator(path[2])
        ||| path.len() >= 3 && path[0] == '\\' && path[1] == '\\' && !is_separator(path[2])
    } else {
        path.len() > 0 && path[0] == '/'
    }
}

/// An ASCII letter.
pub open spec fn is_letter(c: char) -> bool {
    'a' <= c <= 'z' || 'A' <= c <= 'Z'
}

/// What separates the components of a path on Windows.
pub open spec fn is_separator(c: char) -> bool {
    c == '/' || c == '\\'
}

/// Tells whether a path does not depend on the working directory.
pub fn is_absolute_path(path: &str, windows: bool) -> (r: bool)
    ensures
        r == is_absolute_spec(path@, windows),
{
    let v = text::chars_of(path);
    if !windows {
        return v.len() > 0 && v[0] == '/';
    }
    if v.len() < 3 {
        return false;
    }
    let separates = v[2] == '/' || v[2] == '\\';
    let letter = ('a' <= v[0] && v[0] <= 'z') || ('A' <= v[0] && v[0] <= 'Z');
    (letter && v[1] == ':' && separates) || (v[0] == '\\' && v[1] == '\\' && !separates)
}

/// The base directory that the environment names: `xdg`, else the `.config`
/// directory of `home` or `app_data`, whichever is preferred; only where it is
/// an absolute path. `APPDATA` is preferred on Windows.
pub open spec fn base_dir_spec(
    xdg: Option<Seq<char>>,
    home: Option<Seq<char>>,
    app_data: Option<Seq<char>>,
    prefer_app_data: bool,
) -> Option<Seq<char>> {
    let first = if prefer_app_data {
        set_path(app_data)
    } else {
        home_config_spec(home)
    };
    let second = if prefer_app_data {
        home_config_spec(home)
    } else {
        set_path(app_data)
    };
    let chosen = if set_path(xdg) is Some {
        set_path(xdg)
    } else if first is Some {
        first
    } else {
        second
    };
    match chosen {
        Some(path) => if is_absolute_spec(path, prefer_app_data) {
            Some(path)
        } else {
            None
        },
        None => None,
    }
}

/// The path, unless it is empty.
fn nonempty_path(value: Option<&str>) -> (r: Option<String>)
    ensures
        match r {
            Some(path) => set_path(str_text(value)) == Some(path@),
            None => set_path(str_text(value)) is None,
        },
{
    match value {
        Some(path) => if path.is_empty() {
            None
        } else {
            Some(path.to_owned())
        },
        None => None,
    }
}

/// The `.config` directory of a home directory.
fn home_config_dir(home: Option<&str>) -> (r: Option<String>)
    ensures
        match r {
            Some(path) => home_config_spec(str_text(home)) == Some(path@),
            None => home_config_spec(str_text(home)) is None,
        },
{
    match nonempty_path(home) {
        Some(path) => Some(join_path(path.as_str(), ".config")),
        None => None,
    }
}

/// Resolves the per-user base directory for an application's config and data
/// files from the values of `XDG_CONFIG_HOME`, `HOME` and `APPDATA`. Windows
/// keeps such files under `APPDATA` and prefers it to `HOME`.
pub fn config_base_dir(
    xdg: Option<&str>,
    home: Option<&str>,
    app_data: Option<&str>,
    prefer_app_data: bool,
) -> (r: Option<String>)
    ensures
        match r {
            Some(path) => base_dir_spec(
                str_text(xdg),
                str_text(home),
                str_text(app_data),
                prefer_app_data,
            ) == Some(path@),
            None => base_dir_spec(
                str_text(xdg),
                str_text(home),
                str_text(app_data),
                prefer_app_data,
            ) is None,
        },
{
    let chosen = match nonempty_path(xdg) {
        Some(path) => Some(path),
        None => {
            if prefer_app_data {
                match nonempty_path(app_data) {
                    Some(path) => Some(path),
                    None => home_config_dir(home),
                }
            } else {
                match home_config_dir(home) {
                    Some(path) => Some(path),
                    None => nonempty_path(app_data),
                }
            }
        },
    };
    match chosen {
        Some(path) => {
            if is_absolute_path(path.as_str(), prefer_app_data) {
                Some(path)
            } else {
                None
            }
        },
        None => None,
    }
}

/// A base directory is always an absolute path.
pub proof fn law_base_dir_is_absolute(
    xdg: Option<Seq<char>>,
    home: Option<Seq<char>>,
    app_data: Option<Seq<char>>,
    prefer_app_data: bool,
)
    ensures
        base_dir_spec(xdg, home, app_data, prefer_app_data) matches Some(path) ==> is_absolute_spec(
            path,
            prefer_app_data,
        ),
{
}

/// A base directory that is set outright comes first. Else the home directory
/// gives its `.config` directory, and on Windows the application data come
/// before it.
pub proof fn law_base_dir_is_chosen_in_order(
    xdg: Seq<char>,
    home: Option<Seq<char>>,
    app_data: Option<Seq<char>>,
    windows: bool,
    path: Seq<char>,
)
    ensures
        xdg.len() > 0 && is_absolute_spec(xdg, windows) ==> base_dir_spec(
            Some(xdg),
            home,
            app_data,
            windows,
        ) == Some(xdg),
        base_dir_spec(Some(Seq::empty()), home, app_data, windows) == base_dir_spec(
            None,
            home,
            app_data,
            windows,
        ),
        path.len() > 0 && path[0] == '/' ==> base_dir_spec(None, Some(path), app_data, false)
            == Some(join_spec(path, ".config"@)),
        path.len() > 0 && is_absolute_spec(path, true) ==> base_dir_spec(
            None,
            home,
            Some(path),
            true,
        ) == Some(path),
        base_dir_spec(None, None, None, windows) is None,
{
    if path.len() > 0 && path[0] == '/' {
        assert(join_spec(path, ".config"@)[0] == '/');
    }
}

/// A joined path begins with the base and ends with the name, and at most one
/// slash is put between.
pub proof fn law_joined_path(base: Seq<char>, name: Seq<char>)
    ensures
        join_spec(base, name).take(base.len() as int) == base,
        join_spec(base, name).skip(join_spec(base, name).len() - name.len()) == name,
        base.len() > 0 && base.last() != '/' ==> join_spec(base, name) == base + "/"@ + name,
        base.len() == 0 || base.last() == '/' ==> join_spec(base, name) == base + name,
{
    reveal_strlit("/");
    assert(join_spec(base, name).take(base.len() as int) =~= base);
    assert(join_spec(base, name).skip(join_spec(base, name).len() - name.len()) =~= name);
    if base.len() > 0 && base.last() != '/' {
        assert(join_spec(base, name) =~= base + "/"@ + name);
    }
}

/// A name of small letters and hyphens is a safe component, as long as it is not
/// that of a device.
pub proof fn law_plain_names_are_safe(s: Seq<char>)
    requires
        s.len() > 4,
        forall|i: int| 0 <= i < s.len() ==> 'a' <= #[trigger] s[i] <= 'z' || s[i] == '-',
    ensures
        is_safe_spec(s),
{
    assert('a' <= s[0] <= 'z' || s[0] == '-');
    assert('a' <= s[s.len() - 1] <= 'z' || s[s.len() - 1] == '-');
    assert forall|i: int| 0 <= i < s.len() implies !is_forbidden(#[trigger] s[i]) by {
        assert('a' <= s[i] <= 'z' || s[i] == '-');
    }
    if s.contains('.') {
        let i = choose|i: int| 0 <= i < s.len() && s[i] == '.';
        assert('a' <= s[i] <= 'z' || s[i] == '-');
    }
    text::lemma_split_whole(s, '.');
    let upper = text::ascii_upper_spec(s);
    reveal_strlit("CON");
    reveal_strlit("PRN");
    reveal_strlit("AUX");
    reveal_strlit("NUL");
    assert(upper.len() == s.len());
    assert("CON"@.len() == 3 && "PRN"@.len() == 3 && "AUX"@.len() == 3 && "NUL"@.len() == 3);
}

/// A path is absolute on Windows with a drive and its root, and not without;
/// elsewhere with a slash at its start, and not without.
pub proof fn law_absolute_paths(path: Seq<char>, rest: Seq<char>)
    ensures
        is_absolute_spec("C:\\"@ + rest, true),
        is_absolute_spec("/"@ + rest, false),
        !is_absolute_spec("/"@ + rest, true) || (rest.len() > 0 && rest[0] == '\\'),
        path.len() == 0 || path[0] != '/' ==> !is_absolute_spec(path, false),
        path.len() < 3 ==> !is_absolute_spec(path, true),
{
    reveal_strlit("C:\\");
    reveal_strlit("/");
    let drive = "C:\\"@ + rest;
    assert(drive[0] == 'C' && drive[1] == ':' && drive[2] == '\\');
    assert(("/"@ + rest)[0] == '/');
}

} // verus!
