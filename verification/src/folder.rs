//! Paths of folders, and when two of them are the same.
use vstd::prelude::*;

verus! {

/// What lies between the slashes of a path.
pub open spec fn pieces(path: Seq<char>) -> Seq<Seq<char>>
    decreases path.len(),
{
    if path.len() == 0 {
        seq![Seq::empty()]
    } else {
        let before = pieces(path.drop_last());
        if path.last() == '/' {
            before.push(Seq::empty())
        } else {
            before.drop_last().push(before.last().push(path.last()))
        }
    }
}

/// The pieces that count: not the empty ones, and a dot only where the path begins with it.
pub open spec fn steps(pieces: Seq<Seq<char>>) -> Seq<Seq<char>>
    decreases pieces.len(),
{
    if pieces.len() == 0 {
        Seq::empty()
    } else {
        let before = steps(pieces.drop_last());
        if pieces.last().len() == 0 || (pieces.last() == "."@ && pieces.len() > 1) {
            before
        } else {
            before.push(pieces.last())
        }
    }
}

/// What a path says, whichever way it is written.
pub struct Components {
    /// Whether it starts at the root.
    pub is_rooted: bool,
    /// The steps from there on.
    pub steps: Seq<Seq<char>>,
}

/// The components of a path whose pieces slashes separate, as on Unix: slashes in a row and
/// at the end count for nothing, and neither do dots within it.
pub open spec fn components(path: Seq<char>) -> Components {
    Components { is_rooted: path.len() > 0 && path[0] == '/', steps: steps(pieces(path)) }
}

/// Whether a path is read alike on every platform: it has no backslash and no colon, and
/// does not begin with two slashes, which on Windows separate its pieces, or name a drive or
/// a server.
pub open spec fn is_plain(path: Seq<char>) -> bool {
    &&& !path.contains('\\')
    &&& !path.contains(':')
    &&& !(path.len() >= 2 && path[0] == '/' && path[1] == '/')
}

/// Whether comparing two paths as `std::path::Path`s may tell this. It is a relation and no
/// function of the paths: what separates the pieces of a path depends on the platform.
pub uninterp spec fn paths_compared(a: Seq<char>, b: Seq<char>, same: bool) -> bool;

/// Whether two paths may compare so: a path is the same as itself, and those that are read
/// alike on every platform are the same where they have the same components.
pub open spec fn compares(a: Seq<char>, b: Seq<char>, same: bool) -> bool {
    &&& paths_compared(a, b, same)
    &&& a == b ==> same
    &&& is_plain(a) && is_plain(b) ==> same == (components(a) == components(b))
}

/// The `==` of `std::path::Path`, which compares paths by their components. What it tells
/// of two paths is [`paths_compared`]; where they are written alike or both are plain it is
/// stated, and how any other path is taken apart is left to the platform.
#[verifier::external_body]
pub(crate) fn same_folder(a: &str, b: &str) -> (same: bool)
    ensures
        paths_compared(a@, b@, same),
        a@ == b@ ==> same,
        is_plain(a@) && is_plain(b@) ==> same == (components(a@) == components(b@)),
{
    std::path::Path::new(a) == std::path::Path::new(b)
}

/// A path has the same components with a slash, or a slash and a dot, at its end.
pub proof fn ends_do_not_count(path: Seq<char>)
    requires
        path.len() > 0,
    ensures
        components(path.push('/')) == components(path),
        components(path.push('/').push('.')) == components(path),
{
    pieces_exist(path);
    let with_slash = path.push('/');
    assert(with_slash.drop_last() =~= path);
    let with_dot = with_slash.push('.');
    assert(with_dot.drop_last() =~= with_slash);
    let all = pieces(path);
    let empty = Seq::<char>::empty();
    assert(all.push(empty).drop_last() =~= all);
    assert(pieces(with_slash) == all.push(empty));
    assert(pieces(with_dot) =~= all.push(empty.push('.')));
    assert(all.push(empty.push('.')).drop_last() =~= all);
    reveal_strlit(".");
    assert(empty.push('.') =~= "."@);
}

proof fn pieces_exist(path: Seq<char>)
    ensures
        pieces(path).len() > 0,
    decreases path.len(),
{
    if path.len() > 0 {
        pieces_exist(path.drop_last());
    }
}

} // verus!
