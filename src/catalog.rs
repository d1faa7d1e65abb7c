//! The game catalog: parse outcomes in discovery order, one record per
//! identifier, the first one seen kept.
use vstd::prelude::*;
use crate::manifest::{GameRecord, GameView, ManifestError};

verus! {

pub open spec fn outcome_view(o: Result<GameRecord, ManifestError>) -> Option<GameView> {
    match o {
        Ok(g) => Some(g@),
        Err(_) => None,
    }
}

pub open spec fn outcomes_view(v: Seq<Result<GameRecord, ManifestError>>) -> Seq<Option<GameView>> {
    v.map_values(|o: Result<GameRecord, ManifestError>| outcome_view(o))
}

pub open spec fn games_view(v: Seq<GameRecord>) -> Seq<GameView> {
    v.map_values(|g: GameRecord| g@)
}

pub open spec fn has_id(c: Seq<GameView>, id: Seq<char>) -> bool {
    exists|k: int| 0 <= k < c.len() && (#[trigger] c[k]).app_id == id
}

pub open spec fn unique_ids(c: Seq<GameView>) -> bool {
    forall|i: int, j: int| 0 <= i < j < c.len() ==> (#[trigger] c[i]).app_id != (#[trigger] c[j]).app_id
}

/// The catalog after one more outcome: a record whose identifier is new is
/// appended; anything else leaves the catalog as it was.
pub open spec fn catalog_step(c: Seq<GameView>, o: Option<GameView>) -> Seq<GameView> {
    match o {
        Some(g) => if has_id(c, g.app_id) {
            c
        } else {
            c.push(g)
        },
        None => c,
    }
}

/// The catalog built from parse outcomes in discovery order.
pub open spec fn catalog_of(outs: Seq<Option<GameView>>) -> Seq<GameView>
    decreases outs.len(),
{
    if outs.len() == 0 {
        Seq::empty()
    } else {
        catalog_step(catalog_of(outs.drop_last()), outs.last())
    }
}

/// The first record among the outcomes with identifier `id`.
pub open spec fn first_with_id(outs: Seq<Option<GameView>>, id: Seq<char>) -> Option<GameView>
    decreases outs.len(),
{
    if outs.len() == 0 {
        None
    } else {
        match first_with_id(outs.drop_last(), id) {
            Some(g) => Some(g),
            None => match outs.last() {
                Some(g) => if g.app_id == id {
                    Some(g)
                } else {
                    None
                },
                None => None,
            },
        }
    }
}

/// A catalog never holds two records with one identifier; it holds a record
/// for exactly the identifiers that some successful outcome carries, and for
/// each the record of the earliest such outcome.
pub proof fn lemma_catalog_first_wins(outs: Seq<Option<GameView>>)
    ensures
        unique_ids(catalog_of(outs)),
        forall|k: int|
            0 <= k < catalog_of(outs).len() ==> first_with_id(outs, (#[trigger] catalog_of(outs)[k]).app_id)
                == Some(catalog_of(outs)[k]),
        forall|id: Seq<char>| #[trigger] has_id(catalog_of(outs), id) <==> first_with_id(outs, id) is Some,
    decreases outs.len(),
{
    if outs.len() > 0 {
        let pre = outs.drop_last();
        lemma_catalog_first_wins(pre);
        let c0 = catalog_of(pre);
        let c = catalog_of(outs);
        match outs.last() {
            Some(g) => {
                if !has_id(c0, g.app_id) {
                    assert(c == c0.push(g));
                    assert forall|id: Seq<char>| #[trigger] has_id(c, id) <==> first_with_id(outs, id) is Some by {
                        if has_id(c, id) {
                            let k = choose|k: int| 0 <= k < c.len() && (#[trigger] c[k]).app_id == id;
                            if k < c0.len() {
                                assert(c0[k] == c[k]);
                                assert(has_id(c0, id));
                            }
                        }
                        if first_with_id(outs, id) is Some {
                            if first_with_id(pre, id) is Some {
                                assert(has_id(c0, id));
                                let k = choose|k: int| 0 <= k < c0.len() && (#[trigger] c0[k]).app_id == id;
                                assert(c[k] == c0[k]);
                            } else {
                                assert(c[c0.len() as int] == g);
                            }
                        }
                    }
                    assert forall|k: int| 0 <= k < c.len() implies first_with_id(outs, (#[trigger] c[k]).app_id)
                        == Some(c[k]) by {
                        if k < c0.len() {
                            assert(c0[k] == c[k]);
                        } else {
                            assert(c[k] == g);
                            if first_with_id(pre, g.app_id) is Some {
                                assert(has_id(c0, g.app_id));
                            }
                        }
                    }
                    assert forall|i: int, j: int| 0 <= i < j < c.len() implies (#[trigger] c[i]).app_id
                        != (#[trigger] c[j]).app_id by {
                        if j == c0.len() {
                            assert(c[i] == c0[i]);
                        } else {
                            assert(c[i] == c0[i]);
                            assert(c[j] == c0[j]);
                        }
                    }
                } else {
                    assert(c == c0);
                    assert forall|id: Seq<char>| #[trigger] has_id(c, id) <==> first_with_id(outs, id) is Some by {
                        if first_with_id(outs, id) is Some && first_with_id(pre, id) is None {
                            assert(id == g.app_id);
                        }
                    }
                    assert forall|k: int| 0 <= k < c.len() implies first_with_id(outs, (#[trigger] c[k]).app_id)
                        == Some(c[k]) by {
                        assert(has_id(c0, c0[k].app_id));
                    }
                }
            },
            None => {
                assert(c == c0);
                assert forall|k: int| 0 <= k < c.len() implies first_with_id(outs, (#[trigger] c[k]).app_id)
                    == Some(c[k]) by {
                    assert(has_id(c0, c0[k].app_id));
                }
            },
        }
    }
}

/// Every record of a catalog is that of a successful outcome: a rejected
/// manifest, which yields no record, contributes nothing.
pub proof fn lemma_catalog_only_accepted(outs: Seq<Option<GameView>>)
    ensures
        forall|k: int|
            0 <= k < catalog_of(outs).len() ==> exists|i: int|
                0 <= i < outs.len() && outs[i] == Some(#[trigger] catalog_of(outs)[k]),
    decreases outs.len(),
{
    if outs.len() > 0 {
        let pre = outs.drop_last();
        lemma_catalog_only_accepted(pre);
        let c0 = catalog_of(pre);
        let c = catalog_of(outs);
        assert forall|k: int| 0 <= k < c.len() implies exists|i: int|
            0 <= i < outs.len() && outs[i] == Some(#[trigger] c[k]) by {
            if k < c0.len() {
                assert(c[k] == c0[k]);
                let i = choose|i: int| 0 <= i < pre.len() && pre[i] == Some(#[trigger] c0[k]);
                assert(outs[i] == pre[i]);
            } else {
                assert(outs[outs.len() - 1] == Some(c[k]));
            }
        }
    }
}

/// Records in discovery order, one per identifier.
pub struct GameCatalog {
    games: Vec<GameRecord>,
}

impl View for GameCatalog {
    type V = Seq<GameView>;

    closed spec fn view(&self) -> Seq<GameView> {
        games_view(self.games@)
    }
}

impl GameCatalog {
    /// No identifier is held twice.
    pub open spec fn wf(&self) -> bool {
        unique_ids(self@)
    }

    pub fn new() -> (r: GameCatalog)
        ensures
            r@ == Seq::<GameView>::empty(),
            r.wf(),
    {
        let r = GameCatalog { games: Vec::new() };
        assert(r@ =~= Seq::<GameView>::empty());
        r
    }

    pub fn len(&self) -> (r: usize)
        ensures
            r == self@.len(),
    {
        self.games.len()
    }

    /// Whether a record with identifier `id` is held.
    pub fn contains_id(&self, id: &String) -> (r: bool)
        ensures
            r == has_id(self@, id@),
    {
        let ghost c = self@;
        for k in 0..self.games.len()
            invariant
                c == games_view(self.games@),
                forall|m: int| 0 <= m < k ==> (#[trigger] c[m]).app_id != id@,
        {
            assert(c[k as int] == self.games@[k as int]@);
            if self.games[k].app_id == *id {
                return true;
            }
        }
        false
    }

    /// Adds `game` unless a record with its identifier is already held;
    /// tells whether it was added.
    pub fn insert(&mut self, game: GameRecord) -> (added: bool)
        requires
            old(self).wf(),
        ensures
            added == !has_id(old(self)@, game@.app_id),
            final(self)@ == catalog_step(old(self)@, Some(game@)),
            final(self).wf(),
    {
        if self.contains_id(&game.app_id) {
            false
        } else {
            let ghost c0 = self@;
            let ghost g = game@;
            self.games.push(game);
            assert(self@ =~= c0.push(g));
            assert forall|i: int, j: int| 0 <= i < j < self@.len() implies (#[trigger] self@[i]).app_id
                != (#[trigger] self@[j]).app_id by {
                if j < c0.len() {
                    assert(self@[i] == c0[i]);
                    assert(self@[j] == c0[j]);
                } else {
                    assert(self@[i] == c0[i]);
                }
            }
            true
        }
    }

    /// Adds the record of a successful parse; a failed one is skipped.
    pub fn add_outcome(&mut self, outcome: Result<GameRecord, ManifestError>)
        requires
            old(self).wf(),
        ensures
            final(self)@ == catalog_step(old(self)@, outcome_view(outcome)),
            final(self).wf(),
    {
        match outcome {
            Ok(g) => {
                self.insert(g);
            },
            Err(_) => {},
        }
    }

    /// The records, in discovery order.
    pub fn into_games(self) -> (r: Vec<GameRecord>)
        requires
            self.wf(),
        ensures
            games_view(r@) == self@,
            unique_ids(games_view(r@)),
    {
        self.games
    }
}

/// The catalog of a scan, from its parse outcomes in discovery order.
pub fn build_catalog(outcomes: Vec<Result<GameRecord, ManifestError>>) -> (r: Vec<GameRecord>)
    ensures
        games_view(r@) == catalog_of(outcomes_view(outcomes@)),
        unique_ids(games_view(r@)),
{
    let ghost all = outcomes_view(outcomes@);
    let mut rest = outcomes;
    let mut catalog = GameCatalog::new();
    let ghost n = all.len();
    assert(all.take(0) =~= Seq::<Option<GameView>>::empty());
    while rest.len() > 0
        invariant
            all.len() == n,
            rest@.len() <= n,
            outcomes_view(rest@) == all.skip(n - rest@.len()),
            catalog@ == catalog_of(all.take(n - rest@.len())),
            catalog.wf(),
        decreases rest@.len(),
    {
        let ghost i = n - rest@.len();
        let ghost before = rest@;
        assert(outcomes_view(before)[0] == all.skip(i)[0]);
        let o = rest.remove(0);
        assert(outcome_view(o) == all[i]);
        assert forall|k: int| 0 <= k < rest@.len() implies #[trigger] outcomes_view(rest@)[k] == all.skip(i + 1)[k] by {
            assert(rest@[k] == before[k + 1]);
            assert(outcomes_view(before)[k + 1] == all.skip(i)[k + 1]);
        }
        assert(outcomes_view(rest@) =~= all.skip(i + 1));
        assert(all.take(i + 1).drop_last() =~= all.take(i));
        catalog.add_outcome(o);
    }
    assert(all.take(n as int) =~= all);
    catalog.into_games()
}

} // verus!
