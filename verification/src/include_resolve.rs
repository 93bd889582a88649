//! Resolution of shader include paths to asset paths.
//!
//! An include directive names either another crate's asset
//! (`crate_name::asset_name`), an absolute asset within the including
//! crate (`/path`), or an asset relative to the including file's folder.
//! The folder arithmetic of the relative case is done by the
//! `relative_path` crate.

use vstd::prelude::*;

use relative_path::RelativePath;
use relative_path::RelativePathBuf;

verus! {

/// The location of an asset: the crate that owns it and the path within
/// that crate.
#[derive(Debug)]
pub struct AssetPath {
    pub crate_name: String,
    pub asset_name: String,
}

/// What `RelativePathBuf::pop` truncates a path to: its parent component
/// range.  The exact component arithmetic lives in the `relative_path`
/// crate; this names its result.
pub uninterp spec fn rel_parent_of(s: Seq<char>) -> Seq<char>;

/// What joining `b` onto `a` yields: one leading separator of `b` is
/// dropped, and a separator is inserted when `a` is nonempty and does not
/// already end with one.
pub open spec fn spec_rel_join(a: Seq<char>, b: Seq<char>) -> Seq<char> {
    let stripped = if b.len() > 0 && b[0] == '/' {
        b.skip(1)
    } else {
        b
    };
    if a.len() > 0 && a[a.len() - 1] != '/' {
        a + seq!['/'] + stripped
    } else {
        a + stripped
    }
}

/// Relies on `relative_path::RelativePathBuf::pop`, which truncates the
/// path to its parent: the result is a function of the path's characters
/// alone.
#[verifier::external_body]
fn rel_parent(s: &str) -> (r: String)
    ensures
        r@ == rel_parent_of(s@),
{
    let mut buf = RelativePathBuf::from(s);
    buf.pop();
    buf.into_string()
}

/// Relies on `relative_path::RelativePath::join`, which appends `b` to `a`
/// with exactly the separator handling that [`spec_rel_join`] states.
#[verifier::external_body]
fn rel_join(a: &str, b: &str) -> (r: String)
    ensures
        r@ == spec_rel_join(a@, b@),
{
    RelativePath::new(a).join(b).into_string()
}

/// The position of the first `::` in `s`, if any.
pub open spec fn find_double_colon(s: Seq<char>) -> Option<int>
    decreases s.len(),
{
    if s.len() < 2 {
        None
    } else if s[0] == ':' && s[1] == ':' {
        Some(0)
    } else {
        match find_double_colon(s.skip(1)) {
            Some(i) => Some(i + 1),
            None => None,
        }
    }
}

/// Searching from position `i` onward finds the first `::` of the whole
/// string, provided none starts before `i`.
proof fn lemma_find_double_colon_skip(s: Seq<char>, i: int)
    requires
        0 <= i <= s.len(),
        forall|k: int| 0 <= k < i && k + 1 < s.len() ==> !((#[trigger] s[k]) == ':' && s[k + 1] == ':'),
    ensures
        find_double_colon(s) == match find_double_colon(s.skip(i)) {
            Some(j) => Some(i + j),
            None => None::<int>,
        },
    decreases i,
{
    if i > 0 {
        if s.len() < 2 {
            assert(s.skip(i).len() < 2);
        } else {
            assert(s.skip(1).skip(i - 1) =~= s.skip(i));
            assert forall|k: int|
                0 <= k < i - 1 && k + 1 < s.skip(1).len() implies !((#[trigger] s.skip(1)[k])
                == ':' && s.skip(1)[k + 1] == ':') by {
                assert(s.skip(1)[k] == s[k + 1]);
                assert(s.skip(1)[k + 1] == s[k + 2]);
            }
            lemma_find_double_colon_skip(s.skip(1), i - 1);
            assert(!(s[0] == ':' && s[1] == ':'));
            assert(s.skip(1)[0] == s[1]);
        }
    } else {
        assert(s.skip(0) =~= s);
    }
}

/// Turns an include directive into the asset path it names: a
/// `crate::asset` directive selects that crate, a leading `/` addresses
/// the including crate's root, and anything else is taken relative to the
/// including file's folder.
pub fn include_path(path: &str, context: &AssetPath) -> (r: AssetPath)
    ensures
        match find_double_colon(path@) {
            Some(i) => {
                &&& r.crate_name@ == path@.take(i)
                &&& r.asset_name@ == path@.skip(i + 2)
            },
            None => {
                &&& r.crate_name@ == context.crate_name@
                &&& r.asset_name@ == if path@.len() > 0 && path@[0] == '/' {
                    path@.skip(1)
                } else {
                    spec_rel_join(rel_parent_of(context.asset_name@), path@)
                }
            },
        },
{
    let n = path.unicode_len();
    let mut i: usize = 0;
    while n >= 1 && i < n - 1
        invariant
            n == path@.len(),
            i <= n,
            forall|k: int|
                0 <= k < i && k + 1 < n ==> !((#[trigger] path@[k]) == ':' && path@[k + 1] == ':'),
        decreases n - i,
    {
        if path.get_char(i) == ':' && path.get_char(i + 1) == ':' {
            proof {
                lemma_find_double_colon_skip(path@, i as int);
                assert(path@.skip(i as int)[0] == path@[i as int]);
                assert(path@.skip(i as int)[1] == path@[i as int + 1]);
                assert(find_double_colon(path@) == Some(i as int));
            }
            let crate_name = path.substring_char(0, i).to_owned();
            let asset_name = path.substring_char(i + 2, n).to_owned();
            proof {
                assert(path@.subrange(0, i as int) =~= path@.take(i as int));
                assert(path@.subrange(i as int + 2, n as int) =~= path@.skip(i as int + 2));
            }
            return AssetPath { crate_name, asset_name };
        }
        i = i + 1;
    }
    proof {
        lemma_find_double_colon_skip(path@, i as int);
        assert(path@.skip(i as int).len() < 2);
        assert(find_double_colon(path@) is None);
    }
    if n > 0 && path.get_char(0) == '/' {
        let asset_name = path.substring_char(1, n).to_owned();
        proof {
            assert(path@.subrange(1, n as int) =~= path@.skip(1));
        }
        AssetPath { crate_name: context.crate_name.clone(), asset_name }
    } else {
        let folder = rel_parent(context.asset_name.as_str());
        let asset_name = rel_join(folder.as_str(), path);
        AssetPath { crate_name: context.crate_name.clone(), asset_name }
    }
}

} // verus!
