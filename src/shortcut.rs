//! Shortcut repair: reading a shortcut's game and icon, the icon's remote
//! address, whether the shared icon cache needs a download, and the outcome
//! reported for each shortcut file.
use vstd::prelude::*;
use vstd::string::StringExecFns;
use crate::keyvalue::is_separator;
use crate::text::{chars_of, string_of, take_chars};

verus! {

/// The text of the first capture group of the leftmost-first match of the
/// regular expression `pattern` in `text`; none where the pattern does not
/// compile, nothing matches, or the group takes no part in the match.
pub uninterp spec fn regex_first_group(pattern: Seq<char>, text: Seq<char>) -> Option<Seq<char>>;

/// `s` without leading and trailing Unicode white space.
pub uninterp spec fn trimmed(s: Seq<char>) -> Seq<char>;

pub open spec fn opt_view(o: Option<String>) -> Option<Seq<char>> {
    match o {
        Some(s) => Some(s@),
        None => None,
    }
}

/// Relies on `regex::Regex::new`, `Regex::captures` and `Captures::get`: the
/// first capture group of the first match, as `regex_first_group` names it.
#[verifier::external_body]
fn first_group(pattern: &str, text: &str) -> (r: Option<String>)
    ensures
        opt_view(r) == regex_first_group(pattern@, text@),
{
    let re = regex::Regex::new(pattern).ok()?;
    re.captures(text).and_then(|c| c.get(1)).map(|m| m.as_str().to_string())
}

/// Relies on `str::trim`: white space removed at both ends.
#[verifier::external_body]
fn trim(s: &str) -> (r: String)
    ensures
        r@ == trimmed(s@),
{
    s.trim().to_string()
}

pub open spec fn game_id_pattern() -> Seq<char> {
    "URL=steam://rungameid/(\\d+)"@
}

pub open spec fn icon_pattern() -> Seq<char> {
    "IconFile=(.+\\.ico)"@
}

pub open spec fn hash_pattern() -> Seq<char> {
    "([a-f0-9]+)\\.ico"@
}

pub open spec fn icon_url_prefix() -> Seq<char> {
    "https://cdn.cloudflare.steamstatic.com/steamcommunity/public/images/apps/"@
}

/// The remote address of the icon with hash `hash` of game `game_id`.
pub open spec fn icon_url_of(game_id: Seq<char>, hash: Seq<char>) -> Seq<char> {
    icon_url_prefix() + game_id + "/"@ + hash + ".ico"@
}

pub open spec fn err_not_steam() -> Seq<char> {
    "Not a Steam game shortcut"@
}

pub open spec fn err_no_icon() -> Seq<char> {
    "No icon path found"@
}

pub open spec fn err_no_file_name() -> Seq<char> {
    "Could not extract icon filename"@
}

pub open spec fn err_no_hash() -> Seq<char> {
    "Could not extract icon hash"@
}

/// The text after the last `/` or `\` of `p` (all of `p` where it has none).
pub open spec fn last_component(p: Seq<char>) -> Seq<char>
    decreases p.len(),
{
    if p.len() == 0 {
        p
    } else if is_separator(p.last()) {
        Seq::empty()
    } else {
        last_component(p.drop_last()).push(p.last())
    }
}

/// The file name that a path ends in; none where it ends in a separator.
pub open spec fn file_name_of(p: Seq<char>) -> Option<Seq<char>> {
    if last_component(p).len() == 0 {
        None
    } else {
        Some(last_component(p))
    }
}

/// The index of the last `.` of `n`, or -1.
pub open spec fn last_dot(n: Seq<char>) -> int
    decreases n.len(),
{
    if n.len() == 0 {
        -1
    } else if n.last() == '.' {
        n.len() - 1
    } else {
        last_dot(n.drop_last())
    }
}

/// A file name without its extension; a leading dot starts no extension.
pub open spec fn stem_of(n: Seq<char>) -> Seq<char> {
    if last_dot(n) > 0 {
        n.take(last_dot(n))
    } else {
        n
    }
}

/// The file name has the extension `url`, in any ASCII case.
pub open spec fn has_url_extension(n: Seq<char>) -> bool {
    let d = last_dot(n);
    &&& d > 0
    &&& n.len() == d + 4
    &&& (n[d + 1] == 'u' || n[d + 1] == 'U')
    &&& (n[d + 2] == 'r' || n[d + 2] == 'R')
    &&& (n[d + 3] == 'l' || n[d + 3] == 'L')
}

/// What the repair needs of one shortcut.
#[derive(Debug)]
pub struct ShortcutPlan {
    pub game_id: String,
    pub icon_file_name: String,
    pub icon_url: String,
}

pub struct PlanView {
    pub game_id: Seq<char>,
    pub icon_file_name: Seq<char>,
    pub icon_url: Seq<char>,
}

impl View for ShortcutPlan {
    type V = PlanView;

    open spec fn view(&self) -> PlanView {
        PlanView { game_id: self.game_id@, icon_file_name: self.icon_file_name@, icon_url: self.icon_url@ }
    }
}

pub open spec fn plan_result_view(r: Result<ShortcutPlan, String>) -> Result<PlanView, Seq<char>> {
    match r {
        Ok(p) => Ok(p@),
        Err(e) => Err(e@),
    }
}

/// The plan from what was read of a shortcut: its game identifier, its icon
/// path (trimmed), and the hash read from the icon's file name; the first
/// missing piece decides the error.
pub open spec fn plan_of_parts(
    game_id: Option<Seq<char>>,
    icon_path: Option<Seq<char>>,
    hash: Option<Seq<char>>,
) -> Result<PlanView, Seq<char>> {
    match game_id {
        None => Err(err_not_steam()),
        Some(id) => match icon_path {
            None => Err(err_no_icon()),
            Some(p) => match file_name_of(p) {
                None => Err(err_no_file_name()),
                Some(f) => match hash {
                    None => Err(err_no_hash()),
                    Some(h) => Ok(PlanView { game_id: id, icon_file_name: f, icon_url: icon_url_of(id, h) }),
                },
            },
        },
    }
}

/// The plan for a shortcut file's text.
pub open spec fn shortcut_plan_of(content: Seq<char>) -> Result<PlanView, Seq<char>> {
    let icon_path = match regex_first_group(icon_pattern(), content) {
        Some(p) => Some(trimmed(p)),
        None => None,
    };
    let hash = match icon_path {
        Some(p) => match file_name_of(p) {
            Some(f) => regex_first_group(hash_pattern(), f),
            None => None,
        },
        None => None,
    };
    plan_of_parts(regex_first_group(game_id_pattern(), content), icon_path, hash)
}

pub fn last_component_chars(p: &[char]) -> (r: Vec<char>)
    ensures
        r@ == last_component(p@),
{
    let n = p.len();
    let mut i = n;
    assert(p@.take(n as int) =~= p@);
    assert(p@.subrange(n as int, n as int) =~= Seq::<char>::empty());
    while i > 0 && !(p[i - 1] == '/' || p[i - 1] == '\\')
        invariant
            i <= n == p@.len(),
            last_component(p@) == last_component(p@.take(i as int)) + p@.subrange(i as int, n as int),
        decreases i,
    {
        assert(p@.take(i as int).drop_last() =~= p@.take(i - 1));
        assert(p@.subrange(i - 1, n as int) =~= seq![p@[i - 1]] + p@.subrange(i as int, n as int));
        assert(last_component(p@.take(i as int)) == last_component(p@.take(i - 1)).push(p@[i - 1]));
        assert(last_component(p@.take(i - 1)).push(p@[i - 1]) + p@.subrange(i as int, n as int)
            =~= last_component(p@.take(i - 1)) + p@.subrange(i - 1, n as int));
        i = i - 1;
    }
    assert(last_component(p@.take(i as int)) =~= Seq::<char>::empty());
    let mut r: Vec<char> = Vec::new();
    for j in i..n
        invariant
            i <= n == p@.len(),
            r@ == p@.subrange(i as int, j as int),
    {
        r.push(p[j]);
        assert(r@ =~= p@.subrange(i as int, j + 1));
    }
    assert(r@ =~= last_component(p@));
    r
}

/// The file name that a path ends in.
pub fn file_name(path: &str) -> (r: Option<String>)
    ensures
        opt_view(r) == file_name_of(path@),
{
    let cs = chars_of(path);
    let last = last_component_chars(cs.as_slice());
    if last.len() == 0 {
        None
    } else {
        Some(string_of(last.as_slice()))
    }
}

pub fn last_dot_index(n: &[char]) -> (r: Option<usize>)
    ensures
        match r {
            Some(d) => last_dot(n@) == d && d < n@.len(),
            None => last_dot(n@) == -1,
        },
{
    let mut i = n.len();
    assert(n@.take(i as int) =~= n@);
    while i > 0
        invariant
            i <= n@.len(),
            last_dot(n@) == last_dot(n@.take(i as int)),
        decreases i,
    {
        if n[i - 1] == '.' {
            return Some(i - 1);
        }
        assert(n@.take(i as int).drop_last() =~= n@.take(i - 1));
        i = i - 1;
    }
    None
}

/// The file name without its extension.
pub fn file_stem(name: &str) -> (r: String)
    ensures
        r@ == stem_of(name@),
{
    let cs = chars_of(name);
    match last_dot_index(cs.as_slice()) {
        Some(d) if d > 0 => {
            let prefix = take_chars(cs.as_slice(), d);
            string_of(prefix.as_slice())
        },
        _ => string_of(cs.as_slice()),
    }
}

/// Whether a file name is that of a shortcut: its extension is `url` in any
/// ASCII case.
pub fn is_shortcut_file(name: &str) -> (r: bool)
    ensures
        r == has_url_extension(name@),
{
    let cs = chars_of(name);
    match last_dot_index(cs.as_slice()) {
        Some(d) => {
            d > 0 && cs.len() - d == 4 && (cs[d + 1] == 'u' || cs[d + 1] == 'U') && (cs[d + 2] == 'r'
                || cs[d + 2] == 'R') && (cs[d + 3] == 'l' || cs[d + 3] == 'L')
        },
        None => false,
    }
}

/// The remote address of an icon.
pub fn icon_url(game_id: &str, hash: &str) -> (r: String)
    ensures
        r@ == icon_url_of(game_id@, hash@),
{
    let mut u = String::from_str("https://cdn.cloudflare.steamstatic.com/steamcommunity/public/images/apps/");
    u.append(game_id);
    u.append("/");
    u.append(hash);
    u.append(".ico");
    u
}

/// The plan from what was read of a shortcut (see `plan_of_parts`).
pub fn plan_from_parts(game_id: Option<String>, icon_path: Option<String>, hash: Option<String>) -> (r: Result<
    ShortcutPlan,
    String,
>)
    ensures
        plan_result_view(r) == plan_of_parts(opt_view(game_id), opt_view(icon_path), opt_view(hash)),
{
    let id = match game_id {
        None => return Err(String::from_str("Not a Steam game shortcut")),
        Some(id) => id,
    };
    let path = match icon_path {
        None => return Err(String::from_str("No icon path found")),
        Some(p) => p,
    };
    let name = match file_name(path.as_str()) {
        None => return Err(String::from_str("Could not extract icon filename")),
        Some(f) => f,
    };
    let h = match hash {
        None => return Err(String::from_str("Could not extract icon hash")),
        Some(h) => h,
    };
    let url = icon_url(id.as_str(), h.as_str());
    Ok(ShortcutPlan { game_id: id, icon_file_name: name, icon_url: url })
}

/// Reads a shortcut file's text: its game, its icon's file name, and the
/// icon's remote address.
pub fn plan_shortcut(content: &str) -> (r: Result<ShortcutPlan, String>)
    ensures
        plan_result_view(r) == shortcut_plan_of(content@),
{
    let game_id = first_group("URL=steam://rungameid/(\\d+)", content);
    let icon_path = match first_group("IconFile=(.+\\.ico)", content) {
        Some(p) => Some(trim(p.as_str())),
        None => None,
    };
    let hash = match &icon_path {
        Some(p) => match file_name(p.as_str()) {
            Some(f) => first_group("([a-f0-9]+)\\.ico", f.as_str()),
            None => None,
        },
        None => None,
    };
    plan_from_parts(game_id, icon_path, hash)
}

} // verus!
