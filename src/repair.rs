//! The per-shortcut steps of a repair run: whether the icon must be
//! downloaded, and the result reported for the shortcut whatever happened.
use vstd::prelude::*;
use vstd::string::StringExecFns;
use crate::shortcut::{
    file_name, file_name_of, file_stem, opt_view, plan_of_parts, plan_result_view, stem_of,
    err_not_steam, PlanView, ShortcutPlan,
};

verus! {

/// What to do about a planned shortcut's icon.
#[derive(Debug)]
pub enum RepairAction {
    /// The icon is in the cache already: nothing to fetch.
    UseCached,
    /// Fetch `url` and store the body in the cache under `cache_file`.
    Download { url: String, cache_file: String },
}

pub enum ActionView {
    UseCached,
    Download { url: Seq<char>, cache_file: Seq<char> },
}

impl View for RepairAction {
    type V = ActionView;

    open spec fn view(&self) -> ActionView {
        match self {
            RepairAction::UseCached => ActionView::UseCached,
            RepairAction::Download { url, cache_file } => ActionView::Download {
                url: url@,
                cache_file: cache_file@,
            },
        }
    }
}

pub open spec fn action_of(plan: PlanView, cached: bool) -> ActionView {
    if cached {
        ActionView::UseCached
    } else {
        ActionView::Download { url: plan.icon_url, cache_file: plan.icon_file_name }
    }
}

/// The outcome reported for one shortcut file.
#[derive(Debug)]
pub struct ShortcutFix {
    pub name: String,
    pub game_id: String,
    pub icon_url: String,
    pub location: String,
    pub success: bool,
    pub error: Option<String>,
}

pub struct FixView {
    pub name: Seq<char>,
    pub game_id: Seq<char>,
    pub icon_url: Seq<char>,
    pub location: Seq<char>,
    pub success: bool,
    pub error: Option<Seq<char>>,
}

impl View for ShortcutFix {
    type V = FixView;

    open spec fn view(&self) -> FixView {
        FixView {
            name: self.name@,
            game_id: self.game_id@,
            icon_url: self.icon_url@,
            location: self.location@,
            success: self.success,
            error: opt_view(self.error),
        }
    }
}

pub open spec fn failed_fix(file: Seq<char>, location: Seq<char>, error: Seq<char>) -> FixView {
    FixView {
        name: file,
        game_id: Seq::empty(),
        icon_url: Seq::empty(),
        location,
        success: false,
        error: Some(error),
    }
}

/// The outcome for the shortcut file named `file` in the location labelled
/// `location`, given its plan and, where the plan succeeded, whether its icon
/// is now in the cache (`Ok`) or the download failed (`Err`).
pub open spec fn fix_of(
    file: Seq<char>,
    location: Seq<char>,
    plan: Result<PlanView, Seq<char>>,
    fetched: Result<(), Seq<char>>,
) -> FixView {
    match plan {
        Err(e) => failed_fix(file, location, e),
        Ok(p) => match fetched {
            Err(e) => failed_fix(file, location, e),
            Ok(_) => FixView {
                name: stem_of(file),
                game_id: p.game_id,
                icon_url: p.icon_url,
                location,
                success: true,
                error: None,
            },
        },
    }
}

pub open spec fn unit_result_view(r: Result<(), String>) -> Result<(), Seq<char>> {
    match r {
        Ok(u) => Ok(u),
        Err(e) => Err(e@),
    }
}

/// Whether the planned icon must be downloaded: only where the cache does not
/// hold its file.
pub fn next_action(plan: &ShortcutPlan, cached: bool) -> (r: RepairAction)
    ensures
        r@ == action_of(plan@, cached),
{
    if cached {
        RepairAction::UseCached
    } else {
        RepairAction::Download { url: plan.icon_url.clone(), cache_file: plan.icon_file_name.clone() }
    }
}

/// The outcome reported for one shortcut file (see `fix_of`).
pub fn shortcut_outcome(
    file: &str,
    location: &str,
    plan: Result<ShortcutPlan, String>,
    fetched: Result<(), String>,
) -> (r: ShortcutFix)
    ensures
        r@ == fix_of(file@, location@, plan_result_view(plan), unit_result_view(fetched)),
{
    match plan {
        Err(e) => ShortcutFix {
            name: String::from_str(file),
            game_id: String::new(),
            icon_url: String::new(),
            location: String::from_str(location),
            success: false,
            error: Some(e),
        },
        Ok(p) => match fetched {
            Err(e) => ShortcutFix {
                name: String::from_str(file),
                game_id: String::new(),
                icon_url: String::new(),
                location: String::from_str(location),
                success: false,
                error: Some(e),
            },
            Ok(_) => ShortcutFix {
                name: file_stem(file),
                game_id: p.game_id,
                icon_url: p.icon_url,
                location: String::from_str(location),
                success: true,
                error: None,
            },
        },
    }
}

pub open spec fn location_label_of(dir: Seq<char>) -> Seq<char> {
    match file_name_of(dir) {
        Some(n) => n,
        None => "Unknown"@,
    }
}

/// The label of a shortcut location: its directory's name.
pub fn location_label(dir: &str) -> (r: String)
    ensures
        r@ == location_label_of(dir@),
{
    match file_name(dir) {
        Some(n) => n,
        None => String::from_str("Unknown"),
    }
}

/// An icon already in the cache is never fetched, and the shortcut is still
/// reported repaired, with the address a cold cache would have fetched.
pub proof fn lemma_cached_icon_not_fetched(plan: PlanView, file: Seq<char>, location: Seq<char>)
    ensures
        action_of(plan, true) == ActionView::UseCached,
        action_of(plan, false) matches ActionView::Download { url, .. } && url == plan.icon_url,
        fix_of(file, location, Ok(plan), Ok(())).success,
        fix_of(file, location, Ok(plan), Ok(())).icon_url == plan.icon_url,
        fix_of(file, location, Ok(plan), Ok(())).error is None,
{
}

/// A shortcut without a game line is reported failed, with no identifier and
/// a non-empty error, whatever else it holds.
pub proof fn lemma_missing_game_id_reported(
    icon_path: Option<Seq<char>>,
    hash: Option<Seq<char>>,
    file: Seq<char>,
    location: Seq<char>,
    fetched: Result<(), Seq<char>>,
)
    ensures
        !fix_of(file, location, plan_of_parts(None, icon_path, hash), fetched).success,
        fix_of(file, location, plan_of_parts(None, icon_path, hash), fetched).game_id.len() == 0,
        fix_of(file, location, plan_of_parts(None, icon_path, hash), fetched).error matches Some(e) && e.len() > 0,
{
    reveal_strlit("Not a Steam game shortcut");
    assert(err_not_steam().len() > 0);
}

} // verus!
