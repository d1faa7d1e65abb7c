//! Library roots: the primary root and the roots that its descriptor file
//! lists.
use vstd::prelude::*;
use crate::keyvalue::{join_chars, join_path, quoted_value, quoted_value_chars};
use crate::text::{chars_of, contains_chars, contains_seq, lines, lines_of, rows_view, split_on, string_of, strings_view};

verus! {

pub open spec fn path_key() -> Seq<char> {
    "\"path\""@
}

pub open spec fn installed_dir_name() -> Seq<char> {
    "steamapps"@
}

/// The roots that descriptor lines name, in order: for each line holding a
/// `"path"` key with a non-empty value, that value's installed-items folder.
pub open spec fn listed_roots(lines: Seq<Seq<char>>) -> Seq<Seq<char>>
    decreases lines.len(),
{
    if lines.len() == 0 {
        Seq::empty()
    } else {
        let before = listed_roots(lines.drop_last());
        let l = lines.last();
        if contains_seq(l, path_key()) {
            match quoted_value(l) {
                Some(v) => if v.len() > 0 {
                    before.push(join_path(v, installed_dir_name()))
                } else {
                    before
                },
                None => before,
            }
        } else {
            before
        }
    }
}

pub open spec fn descriptor_roots_of(descriptor: Seq<char>) -> Seq<Seq<char>> {
    listed_roots(lines_of(descriptor))
}

/// The candidates that are kept: those present on disk and other than `root`.
pub open spec fn kept_roots(candidates: Seq<Seq<char>>, present: Seq<bool>, root: Seq<char>) -> Seq<Seq<char>>
    decreases candidates.len(),
{
    if candidates.len() == 0 {
        Seq::empty()
    } else {
        let n = candidates.len() - 1;
        let before = kept_roots(candidates.drop_last(), present.take(n), root);
        if present[n] && candidates[n] != root {
            before.push(candidates[n])
        } else {
            before
        }
    }
}

pub open spec fn library_roots_of(root: Seq<char>, candidates: Seq<Seq<char>>, present: Seq<bool>) -> Seq<
    Seq<char>,
> {
    seq![root] + kept_roots(candidates, present, root)
}

/// The candidate roots that a descriptor file's text lists, in file order.
pub fn descriptor_roots(descriptor: &str) -> (r: Vec<String>)
    ensures
        strings_view(r@) == descriptor_roots_of(descriptor@),
{
    let cs = chars_of(descriptor);
    let ls = lines(cs.as_slice());
    let key = chars_of("\"path\"");
    let dir = chars_of("steamapps");
    let mut out: Vec<String> = Vec::new();
    let ghost all = rows_view(ls@);
    assert(all.take(0) =~= Seq::<Seq<char>>::empty());
    assert(strings_view(out@) =~= Seq::<Seq<char>>::empty());
    for i in 0..ls.len()
        invariant
            all == rows_view(ls@),
            key@ == path_key(),
            dir@ == installed_dir_name(),
            strings_view(out@) == listed_roots(all.take(i as int)),
    {
        let l = ls[i].as_slice();
        assert(all.take(i + 1).drop_last() =~= all.take(i as int));
        assert(all.take(i + 1).last() == l@);
        let ghost before = strings_view(out@);
        if contains_chars(l, key.as_slice()) {
            if let Some(v) = quoted_value_chars(l) {
                if v.len() > 0 {
                    let p = join_chars(v.as_slice(), dir.as_slice());
                    out.push(string_of(p.as_slice()));
                    assert(strings_view(out@) =~= before.push(join_path(v@, installed_dir_name())));
                }
            }
        }
    }
    assert(all.take(all.len() as int) =~= all);
    out
}

/// The library roots: `root` first, then each candidate that is present
/// (`present[i]` for `candidates[i]`) and is not `root` itself, in order.
pub fn library_roots(root: &str, candidates: &Vec<String>, present: &Vec<bool>) -> (r: Vec<String>)
    requires
        candidates@.len() == present@.len(),
    ensures
        strings_view(r@) == library_roots_of(root@, strings_view(candidates@), present@),
        r@.len() >= 1,
        r@[0]@ == root@,
{
    let mut out: Vec<String> = Vec::new();
    out.push(String::from_str(root));
    let ghost cs = strings_view(candidates@);
    let rc = chars_of(root);
    for i in 0..candidates.len()
        invariant
            cs == strings_view(candidates@),
            candidates@.len() == present@.len(),
            rc@ == root@,
            out@.len() >= 1,
            out@[0]@ == root@,
            strings_view(out@) == seq![root@] + kept_roots(cs.take(i as int), present@.take(i as int), root@),
    {
        let ghost before = strings_view(out@);
        assert(cs.take(i + 1).drop_last() =~= cs.take(i as int));
        assert(present@.take(i + 1).take(i as int) =~= present@.take(i as int));
        let c = &candidates[i];
        let cc = chars_of(c.as_str());
        let same = cc.len() == rc.len() && contains_chars(cc.as_slice(), rc.as_slice());
        proof {
            if cc@.len() == rc@.len() {
                if contains_seq(cc@, rc@) {
                    let k = choose|k: int| crate::text::occurs_at(cc@, rc@, k);
                    assert(k == 0);
                    assert(cc@.subrange(0, cc@.len() as int) =~= cc@);
                }
                if cc@ == rc@ {
                    assert(cc@.subrange(0, cc@.len() as int) =~= cc@);
                    assert(crate::text::occurs_at(cc@, rc@, 0));
                }
            }
        }
        if present[i] && !same {
            out.push(String::from_str(c.as_str()));
            assert(strings_view(out@) =~= before.push(cs[i as int]));
        }
        assert(strings_view(out@) =~= seq![root@] + kept_roots(cs.take(i + 1), present@.take(i + 1), root@));
    }
    assert(cs.take(cs.len() as int) =~= cs);
    assert(present@.take(present@.len() as int) =~= present@);
    out
}

/// The primary root always comes first, whether or not the descriptor lists
/// anything, and an empty descriptor lists nothing.
pub proof fn lemma_root_first(root: Seq<char>, candidates: Seq<Seq<char>>, present: Seq<bool>)
    ensures
        library_roots_of(root, candidates, present).len() >= 1,
        library_roots_of(root, candidates, present)[0] == root,
        descriptor_roots_of(Seq::empty()) == Seq::<Seq<char>>::empty(),
        library_roots_of(root, descriptor_roots_of(Seq::empty()), Seq::empty()) == seq![root],
{
    assert(split_on(Seq::<char>::empty(), '\n') == seq![Seq::<char>::empty()]);
    assert(lines_of(Seq::empty()) =~= Seq::<Seq<char>>::empty());
    assert(library_roots_of(root, Seq::empty(), Seq::empty()) =~= seq![root]);
}

} // verus!
