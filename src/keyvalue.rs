//! Quoted key/value lines (`"key"  "value"`) and path joining.
use vstd::prelude::*;
use crate::text::{chars_of, rows_view, split_chars, split_on, string_of};

verus! {

/// `s` with every non-overlapping `\\` pair, read left to right, collapsed to
/// one backslash.
pub open spec fn collapse_backslashes(s: Seq<char>) -> Seq<char>
    decreases s.len(),
{
    if s.len() == 0 {
        s
    } else if s.len() >= 2 && s[0] == '\\' && s[1] == '\\' {
        seq!['\\'] + collapse_backslashes(s.skip(2))
    } else {
        seq![s[0]] + collapse_backslashes(s.skip(1))
    }
}

/// The value of a `"key" "value"` line: the text between the third and the
/// fourth double quote (or the line's end), unescaped; none when the line has
/// fewer than three double quotes.
pub open spec fn quoted_value(line: Seq<char>) -> Option<Seq<char>> {
    let parts = split_on(line, '"');
    if parts.len() >= 4 {
        Some(collapse_backslashes(parts[3]))
    } else {
        None
    }
}

pub fn collapse_chars(s: &[char]) -> (r: Vec<char>)
    ensures
        r@ == collapse_backslashes(s@),
{
    let mut r: Vec<char> = Vec::new();
    let mut i: usize = 0;
    assert(s@.skip(0) =~= s@);
    while i < s.len()
        invariant
            i <= s@.len(),
            r@ + collapse_backslashes(s@.skip(i as int)) == collapse_backslashes(s@),
        decreases s@.len() - i,
    {
        let ghost rest = s@.skip(i as int);
        if i + 1 < s.len() && s[i] == '\\' && s[i + 1] == '\\' {
            r.push('\\');
            assert(rest.skip(2) =~= s@.skip(i + 2));
            assert(r@ + collapse_backslashes(s@.skip(i + 2)) =~= collapse_backslashes(s@));
            i = i + 2;
        } else {
            r.push(s[i]);
            assert(rest.skip(1) =~= s@.skip(i + 1));
            assert(r@ + collapse_backslashes(s@.skip(i + 1)) =~= collapse_backslashes(s@));
            i = i + 1;
        }
    }
    assert(s@.skip(i as int) =~= Seq::<char>::empty());
    assert(r@ =~= r@ + collapse_backslashes(s@.skip(i as int)));
    r
}

pub fn quoted_value_chars(line: &[char]) -> (r: Option<Vec<char>>)
    ensures
        match r {
            Some(v) => quoted_value(line@) == Some(v@),
            None => quoted_value(line@) is None,
        },
{
    let parts = split_chars(line, '"');
    if parts.len() >= 4 {
        assert(rows_view(parts@)[3] == parts@[3]@);
        Some(collapse_chars(parts[3].as_slice()))
    } else {
        None
    }
}

/// The value of one `"key" "value"` line; absence is a normal outcome.
pub fn extract_value(line: &str) -> (r: Option<String>)
    ensures
        match r {
            Some(v) => quoted_value(line@) == Some(v@),
            None => quoted_value(line@) is None,
        },
{
    let cs = chars_of(line);
    match quoted_value_chars(cs.as_slice()) {
        Some(v) => Some(string_of(v.as_slice())),
        None => None,
    }
}

pub open spec fn is_separator(c: char) -> bool {
    c == '/' || c == '\\'
}

/// `name` below the directory `base`, joined with the separator that `base`
/// already uses (a backslash where it holds one, a slash otherwise), and with
/// none added where `base` is empty or already ends in a separator.
pub open spec fn join_path(base: Seq<char>, name: Seq<char>) -> Seq<char> {
    if base.len() == 0 || is_separator(base.last()) {
        base + name
    } else if base.contains('\\') {
        base.push('\\') + name
    } else {
        base.push('/') + name
    }
}

pub fn join_chars(base: &[char], name: &[char]) -> (r: Vec<char>)
    ensures
        r@ == join_path(base@, name@),
{
    let mut r: Vec<char> = Vec::new();
    let mut has_backslash = false;
    for i in 0..base.len()
        invariant
            r@ == base@.take(i as int),
            has_backslash == base@.take(i as int).contains('\\'),
    {
        let c = base[i];
        r.push(c);
        assert(r@ =~= base@.take(i + 1));
        if c == '\\' {
            has_backslash = true;
            assert(base@.take(i + 1)[i as int] == '\\');
        } else {
            assert(forall|k: int| 0 <= k < i + 1 ==> #[trigger] base@.take(i + 1)[k] == (
            if k < i {
                base@.take(i as int)[k]
            } else {
                c
            }));
        }
    }
    assert(base@.take(base@.len() as int) =~= base@);
    let n = base.len();
    if !(n == 0 || base[n - 1] == '/' || base[n - 1] == '\\') {
        if has_backslash {
            r.push('\\');
        } else {
            r.push('/');
        }
    }
    let ghost mid = r@;
    for i in 0..name.len()
        invariant
            r@ == mid + name@.take(i as int),
    {
        r.push(name[i]);
        assert(r@ =~= mid + name@.take(i + 1));
    }
    assert(name@.take(name@.len() as int) =~= name@);
    assert(r@ =~= join_path(base@, name@));
    r
}

/// `name` below the directory `base` (see `join_path`).
pub fn join(base: &str, name: &str) -> (r: String)
    ensures
        r@ == join_path(base@, name@),
{
    let b = chars_of(base);
    let n = chars_of(name);
    let j = join_chars(b.as_slice(), n.as_slice());
    string_of(j.as_slice())
}

} // verus!
