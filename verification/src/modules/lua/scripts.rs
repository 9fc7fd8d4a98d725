//! Which script files a script asks to have loaded: paths are kept
//! inside the scripts' directory, and some stand for many files.

use crate::text::{
    has_at, joined, matches_at, split, split_chars, str_eq,
    string_of, to_chars,
};
use vstd::prelude::*;

verus! {

/// Whether a piece of a path is kept: every name is; a single dot only
/// at the very start of the path; nothing and two dots never. So a path
/// can neither start at the root nor climb.
pub open spec fn kept(pieces: Seq<Seq<char>>, i: int) -> bool {
    let piece = pieces[i];
    if piece.len() == 0 {
        false
    } else if piece == seq!['.'] {
        i == 0
    } else if piece == seq!['.', '.'] {
        false
    } else {
        true
    }
}

/// The pieces of `pieces[..n]` that are kept.
pub open spec fn kept_pieces(pieces: Seq<Seq<char>>, n: int) -> Seq<Seq<char>>
    decreases n,
{
    if n <= 0 {
        Seq::empty()
    } else if kept(pieces, n - 1) {
        kept_pieces(pieces, n - 1).push(pieces[n - 1])
    } else {
        kept_pieces(pieces, n - 1)
    }
}

/// What a path is made of once the root, the climbs and the empty steps
/// are taken out.
pub open spec fn components(path: Seq<char>) -> Seq<Seq<char>> {
    let pieces = split(path, '/');
    kept_pieces(pieces, pieces.len() as int)
}

/// A path without its root and its climbs.
pub open spec fn cleaned(path: Seq<char>) -> Seq<char> {
    joined(components(path), seq!['/'])
}

/// The pieces of a path that are kept, in order.
pub fn path_components(path: &str) -> (r: Vec<String>)
    ensures
        r.deep_view() == components(path@),
{
    let chars = to_chars(path);
    let pieces = split_chars(&chars, '/');
    let mut out: Vec<String> = Vec::new();
    let mut i: usize = 0;
    assert(out.deep_view() =~= Seq::<Seq<char>>::empty());
    while i < pieces.len()
        invariant
            i <= pieces.len(),
            pieces.deep_view() == split(path@, '/'),
            out.deep_view() == kept_pieces(pieces.deep_view(), i as int),
        decreases pieces.len() - i,
    {
        let piece = &pieces[i];
        assert(pieces.deep_view()[i as int] == piece@);
        proof {
            reveal_strlit(".");
            reveal_strlit("..");
            reveal_strlit("");
            assert("."@ =~= seq!['.']);
            assert(".."@ =~= seq!['.', '.']);
        }
        let keep = if str_eq(piece.as_str(), "") {
            false
        } else if str_eq(piece.as_str(), ".") {
            i == 0
        } else if str_eq(piece.as_str(), "..") {
            false
        } else {
            true
        };
        assert(keep == kept(pieces.deep_view(), i as int)) by {
            if piece@.len() == 0 {
                assert(piece@ =~= ""@);
            }
        }
        if keep {
            let ghost before = out.deep_view();
            out.push(piece.clone());
            assert(out.deep_view() =~= before.push(piece@));
        }
        i += 1;
    }
    out
}

/// Takes the root and the climbs out of a path, so that it names
/// something inside the directory that it is joined to.
pub fn remove_upwards_components(path: &str) -> (r: String)
    ensures
        r@ == cleaned(path@),
{
    let parts = path_components(path);
    let mut slash: Vec<char> = Vec::new();
    slash.push('/');
    assert(slash@ =~= seq!['/']);
    string_of(&crate::text::join(&parts, &slash))
}

/// Whether a piece of a path stands for many: two stars, or a star and a
/// dot at its start.
pub open spec fn is_wildcard(piece: Seq<char>) -> bool {
    piece == seq!['*', '*'] || matches_at(piece, seq!['*', '.'], 0)
}

/// Whether one of the pieces stands for many.
pub open spec fn has_wildcard(pieces: Seq<Seq<char>>) -> bool {
    exists|i: int| 0 <= i < pieces.len() && is_wildcard(#[trigger] pieces[i])
}

/// What a request to load scripts asks for.
#[derive(Clone, Debug, PartialEq, Eq)]
pub enum ScriptPlan {
    /// The one file of this path below the scripts' directory; what it
    /// gives is handed back.
    File(String),
    /// Every file below the scripts' directory that this pattern fits;
    /// nothing is handed back.
    Pattern(String),
}

/// What a request to load scripts asks for: many files if a piece of its
/// cleaned path stands for many, else one.
pub fn plan_scripts(path: &str) -> (r: ScriptPlan)
    ensures
        has_wildcard(components(path@)) ==> (r matches ScriptPlan::Pattern(p) && p@ == cleaned(
            path@,
        )),
        !has_wildcard(components(path@)) ==> (r matches ScriptPlan::File(p) && p@ == cleaned(
            path@,
        )),
{
    let parts = path_components(path);
    let clean = remove_upwards_components(path);
    let mut star_dot: Vec<char> = Vec::new();
    star_dot.push('*');
    star_dot.push('.');
    assert(star_dot@ =~= seq!['*', '.']);
    let mut i: usize = 0;
    while i < parts.len()
        invariant
            i <= parts.len(),
            star_dot@ == seq!['*', '.'],
            clean@ == cleaned(path@),
            parts.deep_view() == components(path@),
            forall|k: int| 0 <= k < i ==> !is_wildcard(#[trigger] parts.deep_view()[k]),
        decreases parts.len() - i,
    {
        let piece = to_chars(parts[i].as_str());
        assert(parts.deep_view()[i as int] == piece@);
        proof {
            reveal_strlit("**");
            assert("**"@ =~= seq!['*', '*']);
        }
        if str_eq(parts[i].as_str(), "**") || has_at(&piece, 0, &star_dot) {
            assert(is_wildcard(parts.deep_view()[i as int]));
            return ScriptPlan::Pattern(clean);
        }
        i += 1;
    }
    ScriptPlan::File(clean)
}

/// The pieces of `pieces[..n]` that are steps of the path: all but the
/// empty ones and the single dots behind the first piece.
pub open spec fn steps(pieces: Seq<Seq<char>>, n: int) -> Seq<Seq<char>>
    decreases n,
{
    if n <= 0 {
        Seq::empty()
    } else if pieces[n - 1].len() == 0 || (pieces[n - 1] == seq!['.'] && n - 1 > 0) {
        steps(pieces, n - 1)
    } else {
        steps(pieces, n - 1).push(pieces[n - 1])
    }
}

/// What a path names at its end: its last step, unless that is a dot or
/// two.
pub open spec fn file_name_of(path: Seq<char>) -> Option<Seq<char>> {
    let pieces = split(path, '/');
    let all = steps(pieces, pieces.len() as int);
    if all.len() == 0 || all.last() == seq!['.'] || all.last() == seq!['.', '.'] {
        None
    } else {
        Some(all.last())
    }
}

/// The index of the last dot in `name`, if there is one.
pub open spec fn last_dot(name: Seq<char>, n: int) -> Option<int>
    decreases n,
{
    if n <= 0 {
        None
    } else if name[n - 1] == '.' {
        Some(n - 1)
    } else {
        last_dot(name, n - 1)
    }
}

/// The ending of a file's name: what follows its last dot. A name
/// without a dot has none, and neither has one whose only dot stands
/// first.
pub open spec fn ending_of(name: Seq<char>) -> Option<Seq<char>> {
    match last_dot(name, name.len() as int) {
        None => None,
        Some(dot) => if dot == 0 {
            None
        } else {
            Some(name.subrange(dot + 1, name.len() as int))
        },
    }
}

/// The ending of the name of the file that a path names.
pub open spec fn extension_of(path: Seq<char>) -> Option<Seq<char>> {
    match file_name_of(path) {
        Some(name) => ending_of(name),
        None => None,
    }
}

/// What a path names at its end.
pub fn file_name(path: &str) -> (r: Option<String>)
    ensures
        r is Some == file_name_of(path@) is Some,
        r matches Some(name) ==> Some(name@) == file_name_of(path@),
{
    let chars = to_chars(path);
    let pieces = split_chars(&chars, '/');
    let mut last: Option<usize> = None;
    let mut i: usize = 0;
    let ghost all = pieces.deep_view();
    while i < pieces.len()
        invariant
            i <= pieces.len(),
            all == pieces.deep_view(),
            all == split(path@, '/'),
            last is None == (steps(all, i as int).len() == 0),
            last matches Some(k) ==> k < i && steps(all, i as int).last() == all[k as int],
        decreases pieces.len() - i,
    {
        let piece = &pieces[i];
        assert(all[i as int] == piece@);
        proof {
            reveal_strlit(".");
            reveal_strlit("");
            assert("."@ =~= seq!['.']);
            if piece@.len() == 0 {
                assert(piece@ =~= ""@);
            }
        }
        if !(str_eq(piece.as_str(), "") || (str_eq(piece.as_str(), ".") && i > 0)) {
            last = Some(i);
        }
        i += 1;
    }
    match last {
        None => None,
        Some(k) => {
            let piece = &pieces[k];
            assert(all[k as int] == piece@);
            proof {
                reveal_strlit(".");
                reveal_strlit("..");
                assert("."@ =~= seq!['.']);
                assert(".."@ =~= seq!['.', '.']);
            }
            if str_eq(piece.as_str(), ".") || str_eq(piece.as_str(), "..") {
                None
            } else {
                Some(piece.clone())
            }
        },
    }
}

/// The ending of the name of the file that a path names.
pub fn extension(path: &str) -> (r: Option<String>)
    ensures
        r is Some == extension_of(path@) is Some,
        r matches Some(ending) ==> Some(ending@) == extension_of(path@),
{
    match file_name(path) {
        None => None,
        Some(name) => {
            let chars = to_chars(name.as_str());
            let mut n: usize = chars.len();
            while n > 0 && chars[n - 1] != '.'
                invariant
                    n <= chars.len(),
                    last_dot(chars@, n as int) == last_dot(chars@, chars@.len() as int),
                decreases n,
            {
                n -= 1;
            }
            if n <= 1 {
                None
            } else {
                Some(crate::text::from_chars(&chars, n, chars.len()))
            }
        },
    }
}

} // verus!
