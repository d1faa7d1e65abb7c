//! Manifest files: the three flat keys they are read for, and the game record
//! they yield.
use vstd::prelude::*;
use crate::keyvalue::{quoted_value, quoted_value_chars};
use crate::text::{
    chars_of, contains_chars, contains_seq, ends_with_chars, ends_with_seq, lines, lines_of, rows_view,
    starts_with_chars, starts_with_seq, string_of,
};

verus! {

#[derive(Clone, Copy, Debug, PartialEq, Eq, Structural)]
pub enum GameStatus {
    Ready,
}

/// One installed game.
#[derive(Debug)]
pub struct GameRecord {
    pub name: String,
    pub app_id: String,
    pub path: String,
    pub status: GameStatus,
}

pub struct GameView {
    pub name: Seq<char>,
    pub app_id: Seq<char>,
    pub path: Seq<char>,
    pub status: GameStatus,
}

impl View for GameRecord {
    type V = GameView;

    open spec fn view(&self) -> GameView {
        GameView { name: self.name@, app_id: self.app_id@, path: self.path@, status: self.status }
    }
}

/// The values a manifest gives for its three keys; empty where it gives none.
#[derive(Debug)]
pub struct ManifestFields {
    pub app_id: String,
    pub name: String,
    pub install_dir: String,
}

pub struct FieldsView {
    pub app_id: Seq<char>,
    pub name: Seq<char>,
    pub install_dir: Seq<char>,
}

impl View for ManifestFields {
    type V = FieldsView;

    open spec fn view(&self) -> FieldsView {
        FieldsView { app_id: self.app_id@, name: self.name@, install_dir: self.install_dir@ }
    }
}

#[derive(Debug, PartialEq, Eq)]
pub enum ManifestError {
    /// The manifest file could not be read; the message says why.
    ReadError(String),
    /// A key is missing or empty, or the install directory does not exist.
    InvalidManifest,
}

pub open spec fn appid_key() -> Seq<char> {
    "\"appid\""@
}

pub open spec fn name_key() -> Seq<char> {
    "\"name\""@
}

pub open spec fn installdir_key() -> Seq<char> {
    "\"installdir\""@
}

/// One line applied to the fields read so far: the first of the three keys
/// that the line mentions decides which field its value (if any) replaces.
pub open spec fn apply_line(f: FieldsView, l: Seq<char>) -> FieldsView {
    if contains_seq(l, appid_key()) {
        match quoted_value(l) {
            Some(v) => FieldsView { app_id: v, ..f },
            None => f,
        }
    } else if contains_seq(l, name_key()) {
        match quoted_value(l) {
            Some(v) => FieldsView { name: v, ..f },
            None => f,
        }
    } else if contains_seq(l, installdir_key()) {
        match quoted_value(l) {
            Some(v) => FieldsView { install_dir: v, ..f },
            None => f,
        }
    } else {
        f
    }
}

/// The fields after a scan of `lines` in order: the last value of a key wins.
pub open spec fn scan_fields(lines: Seq<Seq<char>>) -> FieldsView
    decreases lines.len(),
{
    if lines.len() == 0 {
        FieldsView { app_id: Seq::empty(), name: Seq::empty(), install_dir: Seq::empty() }
    } else {
        apply_line(scan_fields(lines.drop_last()), lines.last())
    }
}

pub open spec fn manifest_fields_of(content: Seq<char>) -> FieldsView {
    scan_fields(lines_of(content))
}

/// The outcome of parsing a manifest whose fields are `f`, where `dir_exists`
/// tells whether the install directory it names exists.
pub open spec fn manifest_outcome(f: FieldsView, dir_exists: bool) -> Option<GameView> {
    if f.app_id.len() > 0 && f.name.len() > 0 && f.install_dir.len() > 0 && dir_exists {
        Some(GameView { name: f.name, app_id: f.app_id, path: f.install_dir, status: GameStatus::Ready })
    } else {
        None
    }
}

/// Reads the `appid`, `name` and `installdir` values of a manifest's text.
pub fn read_manifest_fields(content: &str) -> (r: ManifestFields)
    ensures
        r@ == manifest_fields_of(content@),
{
    let cs = chars_of(content);
    let ls = lines(cs.as_slice());
    let ka = chars_of("\"appid\"");
    let kn = chars_of("\"name\"");
    let ki = chars_of("\"installdir\"");
    let mut f = ManifestFields { app_id: String::new(), name: String::new(), install_dir: String::new() };
    let ghost all = rows_view(ls@);
    assert(all.take(0) =~= Seq::<Seq<char>>::empty());
    for i in 0..ls.len()
        invariant
            all == rows_view(ls@),
            ka@ == appid_key(),
            kn@ == name_key(),
            ki@ == installdir_key(),
            f@ == scan_fields(all.take(i as int)),
    {
        let l = ls[i].as_slice();
        assert(all.take(i + 1).drop_last() =~= all.take(i as int));
        assert(all.take(i + 1).last() == l@);
        if contains_chars(l, ka.as_slice()) {
            if let Some(v) = quoted_value_chars(l) {
                f.app_id = string_of(v.as_slice());
            }
        } else if contains_chars(l, kn.as_slice()) {
            if let Some(v) = quoted_value_chars(l) {
                f.name = string_of(v.as_slice());
            }
        } else if contains_chars(l, ki.as_slice()) {
            if let Some(v) = quoted_value_chars(l) {
                f.install_dir = string_of(v.as_slice());
            }
        }
    }
    assert(all.take(all.len() as int) =~= all);
    f
}

/// Accepts the manifest's fields as a game when all three are non-empty and
/// its install directory exists (`dir_exists`); rejects it otherwise.
pub fn parse_manifest(fields: ManifestFields, dir_exists: bool) -> (r: Result<GameRecord, ManifestError>)
    ensures
        match r {
            Ok(g) => manifest_outcome(fields@, dir_exists) == Some(g@),
            Err(e) => manifest_outcome(fields@, dir_exists) is None && e == ManifestError::InvalidManifest,
        },
{
    if fields.app_id.unicode_len() > 0 && fields.name.unicode_len() > 0
        && fields.install_dir.unicode_len() > 0 && dir_exists {
        Ok(GameRecord { name: fields.name, app_id: fields.app_id, path: fields.install_dir, status: GameStatus::Ready })
    } else {
        Err(ManifestError::InvalidManifest)
    }
}

/// A file of a library root that holds a manifest: `appmanifest_*.acf`.
pub open spec fn is_manifest_name(name: Seq<char>) -> bool {
    starts_with_seq(name, "appmanifest_"@) && ends_with_seq(name, ".acf"@)
}

/// Whether a file name is that of a manifest (case-sensitive).
pub fn is_manifest_file(name: &str) -> (r: bool)
    ensures
        r == is_manifest_name(name@),
{
    let cs = chars_of(name);
    let prefix = chars_of("appmanifest_");
    let suffix = chars_of(".acf");
    starts_with_chars(cs.as_slice(), prefix.as_slice()) && ends_with_chars(cs.as_slice(), suffix.as_slice())
}

} // verus!
