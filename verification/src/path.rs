//! Paths of a file system with `/` as its separator, as text.

use vstd::prelude::*;
use vstd::string::*;

use crate::text;

verus! {

/// A path from the root of the file system.
pub open spec fn is_absolute(path: Seq<char>) -> bool {
    path.len() > 0 && path[0] == '/'
}

/// Tells whether a path starts at the root of the file system.
pub fn absolute(path: &str) -> (r: bool)
    ensures
        r == is_absolute(path@),
{
    path.unicode_len() > 0 && path.get_char(0) == '/'
}

/// A relative path below a base path.
pub open spec fn below(base: Seq<char>, relative: Seq<char>) -> Seq<char> {
    if base.len() == 0 || base.last() == '/' {
        base + relative
    } else {
        base + "/"@ + relative
    }
}

/// A relative path below a base path.
pub fn join_path(base: &str, relative: &str) -> (r: String)
    ensures
        r@ == below(base@, relative@),
{
    let n: usize = base.unicode_len();
    if n == 0 || base.get_char(n - 1) == '/' {
        return text::joined(base, relative);
    }
    let mut out: String = base.to_owned();
    out.append("/");
    out.append(relative);
    out
}

/// The names that pieces of a path lead through: empty pieces and `.` lead nowhere, and `..` leads
/// back.
pub open spec fn walked(pieces: Seq<Seq<char>>) -> Seq<Seq<char>>
    decreases pieces.len(),
{
    if pieces.len() == 0 {
        Seq::empty()
    } else {
        let before = walked(pieces.drop_last());
        let piece = pieces.last();
        if piece == ""@ || piece == "."@ {
            before
        } else if piece == ".."@ {
            if before.len() > 0 {
                before.drop_last()
            } else {
                before
            }
        } else {
            before.push(piece)
        }
    }
}

/// The names that a path leads through.
pub open spec fn names(path: Seq<char>) -> Seq<Seq<char>> {
    walked(text::split_on(path, '/'))
}

/// The path through the given names.
pub open spec fn path_through(from_root: bool, names: Seq<Seq<char>>) -> Seq<char> {
    if from_root {
        "/"@ + text::join(names, "/"@)
    } else {
        text::join(names, "/"@)
    }
}

/// The shortest form of a path, without `.`, `..` and repeated separators.
pub open spec fn normal(path: Seq<char>) -> Seq<char> {
    path_through(is_absolute(path), names(path))
}

/// The names that a path leads through.
pub fn path_names(path: &str) -> (r: Vec<String>)
    ensures
        text::texts(r@) == names(path@),
{
    let pieces = text::split(path, '/');
    let ghost all = text::texts(pieces@);
    let mut out: Vec<String> = Vec::new();
    let mut i: usize = 0;
    proof {
        assert(text::texts(out@) =~= walked(all.take(0)));
    }
    while i < pieces.len()
        invariant
            i <= pieces@.len(),
            all == text::texts(pieces@),
            text::texts(out@) == walked(all.take(i as int)),
        decreases pieces@.len() - i,
    {
        let piece = pieces[i].as_str();
        let ghost before = text::texts(out@);
        proof {
            let next = all.take(i + 1);
            assert(next.drop_last() =~= all.take(i as int));
            assert(next.last() == piece@);
        }
        if text::same(piece, "") || text::same(piece, ".") {
        } else if text::same(piece, "..") {
            let _ = out.pop();
            proof {
                if before.len() > 0 {
                    assert(text::texts(out@) =~= before.drop_last());
                } else {
                    assert(text::texts(out@) =~= before);
                }
            }
        } else {
            out.push(piece.to_owned());
            proof {
                assert(text::texts(out@) =~= before.push(piece@));
            }
        }
        i = i + 1;
    }
    proof {
        assert(all.take(all.len() as int) =~= all);
    }
    out
}

/// The path through some of the given names.
pub fn path_of(from_root: bool, names: &Vec<String>, from: usize, to: usize) -> (r: String)
    requires
        from <= to <= names@.len(),
    ensures
        r@ == path_through(from_root, text::texts(names@).subrange(from as int, to as int)),
{
    let rest = text::join_range(names, from, to, "/");
    if from_root {
        text::joined("/", rest.as_str())
    } else {
        rest
    }
}

/// The shortest form of a path.
pub fn normalize_absolute_path(path: &str) -> (r: String)
    ensures
        r@ == normal(path@),
{
    let names = path_names(path);
    proof {
        let all = text::texts(names@);
        assert(all.subrange(0, all.len() as int) =~= all);
    }
    path_of(absolute(path), &names, 0, names.len())
}

/// A path leads to a directory or to something inside it.
pub open spec fn inside(path: Seq<char>, directory: Seq<char>) -> bool {
    is_absolute(path) == is_absolute(directory) && names(directory).len() <= names(path).len()
        && names(path).take(names(directory).len() as int) == names(directory)
}

/// Tells whether a path leads to a directory or to something inside it.
pub fn is_inside(path: &str, directory: &str) -> (r: bool)
    ensures
        r == inside(path@, directory@),
{
    if absolute(path) != absolute(directory) {
        return false;
    }
    let inner = path_names(path);
    let outer = path_names(directory);
    let ghost a = text::texts(inner@);
    let ghost b = text::texts(outer@);
    if outer.len() > inner.len() {
        return false;
    }
    let mut i: usize = 0;
    while i < outer.len()
        invariant
            i <= outer@.len() <= inner@.len(),
            a == text::texts(inner@),
            b == text::texts(outer@),
            a == names(path@),
            b == names(directory@),
            forall|k: int| 0 <= k < i ==> a[k] == #[trigger] b[k],
        decreases outer@.len() - i,
    {
        if !text::same(inner[i].as_str(), outer[i].as_str()) {
            proof {
                assert(a.take(b.len() as int)[i as int] == a[i as int]);
                assert(b[i as int] == outer@[i as int]@);
            }
            return false;
        }
        i = i + 1;
    }
    proof {
        assert(a.take(b.len() as int) =~= b);
    }
    true
}

/// A name of a file or directory: not empty, no separator, and neither `.` nor `..`.
pub open spec fn is_name(name: Seq<char>) -> bool {
    &&& name.len() > 0
    &&& forall|k: int| 0 <= k < name.len() ==> #[trigger] name[k] != '/'
    &&& name != "."@
    &&& name != ".."@
}

proof fn lemma_walked_names(pieces: Seq<Seq<char>>)
    requires
        forall|p: int, k: int|
            0 <= p < pieces.len() && 0 <= k < pieces[p].len() ==> #[trigger] pieces[p][k] != '/',
    ensures
        forall|p: int| 0 <= p < walked(pieces).len() ==> is_name(#[trigger] walked(pieces)[p]),
    decreases pieces.len(),
{
    if pieces.len() > 0 {
        let front = pieces.drop_last();
        assert forall|p: int, k: int| 0 <= p < front.len() && 0 <= k < front[p].len() implies
            #[trigger] front[p][k] != '/' by {
            assert(pieces[p][k] != '/');
        }
        lemma_walked_names(front);
        let piece = pieces.last();
        assert forall|k: int| 0 <= k < piece.len() implies #[trigger] piece[k] != '/' by {
            assert(pieces[pieces.len() - 1][k] != '/');
        }
        reveal_strlit("");
        if piece.len() == 0 {
            assert(piece =~= ""@);
        }
        assert forall|p: int| 0 <= p < walked(pieces).len() implies is_name(
            #[trigger] walked(pieces)[p],
        ) by {
            if p < walked(front).len() {
                assert(is_name(walked(front)[p]));
            }
        }
    }
}

/// A path leads through names.
pub proof fn lemma_names_are_names(path: Seq<char>)
    ensures
        forall|p: int| 0 <= p < names(path).len() ==> is_name(#[trigger] names(path)[p]),
{
    text::lemma_split_pieces(path, '/');
    lemma_walked_names(text::split_on(path, '/'));
}

proof fn lemma_walked_append(a: Seq<Seq<char>>, b: Seq<Seq<char>>)
    requires
        forall|p: int| 0 <= p < b.len() ==> is_name(#[trigger] b[p]),
    ensures
        walked(a + b) == walked(a) + b,
    decreases b.len(),
{
    if b.len() == 0 {
        assert(a + b =~= a);
        assert(walked(a) + b =~= walked(a));
    } else {
        let front = b.drop_last();
        assert forall|p: int| 0 <= p < front.len() implies is_name(#[trigger] front[p]) by {
            assert(is_name(b[p]));
        }
        lemma_walked_append(a, front);
        assert((a + b).drop_last() =~= a + front);
        assert((a + b).last() == b.last());
        assert(is_name(b[b.len() - 1]));
        reveal_strlit("");
        assert(walked(a + b) =~= walked(a) + b);
    }
}

proof fn lemma_walked_empty_piece(b: Seq<Seq<char>>)
    ensures
        walked(seq![Seq::<char>::empty()] + b) == walked(b),
    decreases b.len(),
{
    reveal_strlit("");
    let lead = seq![Seq::<char>::empty()];
    if b.len() == 0 {
        assert(lead + b =~= lead);
        assert(lead.drop_last() =~= Seq::<Seq<char>>::empty());
        assert(lead.last() =~= ""@);
        assert(walked(lead.drop_last()) =~= Seq::<Seq<char>>::empty());
        assert(walked(lead) =~= Seq::<Seq<char>>::empty());
    } else {
        lemma_walked_empty_piece(b.drop_last());
        assert((lead + b).drop_last() =~= lead + b.drop_last());
        assert((lead + b).last() == b.last());
    }
}

proof fn lemma_names_of_path_through(from_root: bool, parts: Seq<Seq<char>>)
    requires
        forall|p: int| 0 <= p < parts.len() ==> is_name(#[trigger] parts[p]),
    ensures
        names(path_through(from_root, parts)) == parts,
        parts.len() > 0 || from_root ==> is_absolute(path_through(from_root, parts)) == from_root,
{
    reveal_strlit("/");
    reveal_strlit("");
    let empty = Seq::<char>::empty();
    let body = text::join(parts, "/"@);
    assert("/"@ =~= seq!['/']);
    assert(names(body) == parts && (parts.len() > 0 ==> !is_absolute(body))) by {
        if parts.len() == 0 {
            text::lemma_split_single(body, '/');
            assert(seq![body] =~= seq![empty] + Seq::<Seq<char>>::empty());
            lemma_walked_empty_piece(Seq::empty());
            assert(names(body) =~= parts);
        } else {
            assert forall|p: int, k: int| 0 <= p < parts.len() && 0 <= k < parts[p].len() implies
                #[trigger] parts[p][k] != '/' by {
                assert(is_name(parts[p]));
            }
            text::lemma_split_join(parts, '/');
            lemma_walked_append(Seq::empty(), parts);
            assert(Seq::<Seq<char>>::empty() + parts =~= parts);
            assert(walked(Seq::empty()) + parts =~= parts);
            if is_absolute(body) {
                text::lemma_split_append(empty, body.subrange(1, body.len() as int), '/');
                assert(empty + seq!['/'] + body.subrange(1, body.len() as int) =~= body);
                text::lemma_split_single(empty, '/');
                assert(text::split_on(body, '/')[0] == empty);
                assert(is_name(parts[0]));
            }
        }
    }
    if from_root {
        text::lemma_split_append(empty, body, '/');
        text::lemma_split_single(empty, '/');
        assert(empty + seq!['/'] + body =~= "/"@ + body);
        lemma_walked_empty_piece(text::split_on(body, '/'));
        assert(("/"@ + body)[0] == '/');
    }
}

/// The shortest form of an absolute path is absolute, leads through the same names, and is its own
/// shortest form.
pub proof fn lemma_normal_idempotent(path: Seq<char>)
    requires
        is_absolute(path),
    ensures
        is_absolute(normal(path)),
        names(normal(path)) == names(path),
        normal(normal(path)) == normal(path),
{
    lemma_names_are_names(path);
    lemma_names_of_path_through(true, names(path));
}

/// A name below a directory leads through the directory's names and then its own.
pub proof fn lemma_names_below(directory: Seq<char>, name: Seq<char>)
    requires
        is_name(name),
        directory.len() > 0,
    ensures
        names(below(directory, name)) == names(directory).push(name),
        is_absolute(below(directory, name)) == is_absolute(directory),
        inside(below(directory, name), directory),
{
    reveal_strlit("/");
    reveal_strlit("");
    let empty = Seq::<char>::empty();
    let path = below(directory, name);
    text::lemma_split_single(name, '/');
    assert(path[0] == directory[0]);
    if directory.last() == '/' {
        let front = directory.drop_last();
        text::lemma_split_append(front, name, '/');
        text::lemma_split_append(front, empty, '/');
        text::lemma_split_single(empty, '/');
        assert(path =~= front + seq!['/'] + name);
        assert(directory =~= front + seq!['/'] + empty);
        let pieces = text::split_on(front, '/');
        lemma_walked_append(pieces, seq![name]);
        assert((pieces + seq![empty]).drop_last() =~= pieces);
        assert((pieces + seq![empty]).last() =~= ""@);
        assert(walked(pieces + seq![empty]) == walked(pieces));
        assert(names(path) =~= names(directory).push(name));
    } else {
        text::lemma_split_append(directory, name, '/');
        assert(path =~= directory + seq!['/'] + name);
        lemma_walked_append(text::split_on(directory, '/'), seq![name]);
        assert(names(path) =~= names(directory).push(name));
    }
    assert(names(path).take(names(directory).len() as int) =~= names(directory));
}

/// `..` below a directory leads through one name fewer.
pub proof fn lemma_names_parent(directory: Seq<char>)
    requires
        directory.len() > 0,
        names(directory).len() > 0,
    ensures
        names(below(directory, ".."@)) == names(directory).drop_last(),
{
    reveal_strlit("/");
    reveal_strlit("");
    reveal_strlit(".");
    reveal_strlit("..");
    let empty = Seq::<char>::empty();
    let up = ".."@;
    let path = below(directory, up);
    assert(up[0] == '.' && up[1] == '.');
    text::lemma_split_single(up, '/');
    let pieces = if directory.last() == '/' {
        let front = directory.drop_last();
        text::lemma_split_append(front, up, '/');
        text::lemma_split_append(front, empty, '/');
        text::lemma_split_single(empty, '/');
        assert(path =~= front + seq!['/'] + up);
        assert(directory =~= front + seq!['/'] + empty);
        let pieces = text::split_on(front, '/');
        assert((pieces + seq![empty]).drop_last() =~= pieces);
        assert((pieces + seq![empty]).last() =~= ""@);
        assert(walked(pieces + seq![empty]) == walked(pieces));
        pieces
    } else {
        text::lemma_split_append(directory, up, '/');
        assert(path =~= directory + seq!['/'] + up);
        text::split_on(directory, '/')
    };
    assert(text::split_on(path, '/') == pieces + seq![up]);
    assert((pieces + seq![up]).drop_last() =~= pieces);
    assert((pieces + seq![up]).last() == up);
    assert(up != "."@ && up != ""@);
}

/// A path below a base is the base, one separator and the path.
pub proof fn lemma_below_has_one_separator(base: Seq<char>, relative: Seq<char>)
    ensures
        base.len() > 0 && base.last() != '/' ==> below(base, relative) == base + seq!['/']
            + relative,
        base.len() > 0 && base.last() == '/' ==> below(base, relative) == base + relative,
        below(Seq::empty(), relative) == relative,
{
    reveal_strlit("/");
    assert("/"@ =~= seq!['/']);
    assert(Seq::<char>::empty() + relative =~= relative);
}

/// A path is walked piece by piece: a name leads on, `..` leads back, and an empty piece and `.` lead
/// nowhere.
pub proof fn lemma_walk_goes_piece_by_piece(pieces: Seq<Seq<char>>, name: Seq<char>)
    ensures
        walked(Seq::empty()).len() == 0,
        name.len() > 0 && name != "."@ && name != ".."@ ==> walked(pieces.push(name)) == walked(
            pieces,
        ).push(name),
        walked(pieces.push(Seq::empty())) == walked(pieces),
        walked(pieces.push("."@)) == walked(pieces),
        walked(pieces).len() > 0 ==> walked(pieces.push(".."@)) == walked(pieces).drop_last(),
        walked(pieces).len() == 0 ==> walked(pieces.push(".."@)).len() == 0,
{
    reveal_strlit("");
    reveal_strlit(".");
    reveal_strlit("..");
    assert(""@.len() == 0);
    assert("."@.len() == 1);
    assert(".."@.len() == 2);
    assert(""@ =~= Seq::<char>::empty());
    assert(pieces.push(name).drop_last() =~= pieces);
    assert(pieces.push(Seq::<char>::empty()).drop_last() =~= pieces);
    assert(pieces.push("."@).drop_last() =~= pieces);
    assert(pieces.push(".."@).drop_last() =~= pieces);
}

/// The path through some names leads through them, from the root or not.
pub proof fn lemma_path_leads_through(from_root: bool, parts: Seq<Seq<char>>)
    requires
        forall|p: int| 0 <= p < parts.len() ==> is_name(#[trigger] parts[p]),
    ensures
        names(path_through(from_root, parts)) == parts,
        from_root ==> path_through(from_root, parts).len() > 0 && path_through(from_root, parts)[0]
            == '/',
        !from_root && parts.len() > 0 ==> path_through(from_root, parts)[0] != '/',
{
    lemma_names_of_path_through(from_root, parts);
    if !from_root && parts.len() > 0 {
        let s = path_through(false, parts);
        if s.len() == 0 {
            text::lemma_split_single(s, '/');
            reveal_strlit("");
            assert(is_name(parts[0]));
            text::lemma_join_shows(parts, "/"@, 0);
            let i = choose|i: int| #[trigger] text::occurs_at(s, i, parts[0]);
            assert(false);
        }
    }
}

/// The shortest form of a path leads where the path leads, in names alone.
pub proof fn lemma_normal_leads_there(path: Seq<char>)
    requires
        path.len() > 0,
        path[0] == '/',
    ensures
        names(normal(path)) == names(path),
        normal(path).len() > 0 && normal(path)[0] == '/',
        forall|p: int| 0 <= p < names(path).len() ==> is_name(#[trigger] names(path)[p]),
{
    lemma_names_are_names(path);
    lemma_normal_idempotent(path);
}

/// A path lies inside a directory exactly if it leads through the names of the directory and then
/// through its own.
pub proof fn lemma_inside_goes_on(path: Seq<char>, directory: Seq<char>, rest: Seq<Seq<char>>)
    requires
        path.len() > 0 && path[0] == '/',
        directory.len() > 0 && directory[0] == '/',
    ensures
        names(path) == names(directory) + rest ==> inside(path, directory),
        inside(path, directory) ==> names(path) == names(directory) + names(path).subrange(
            names(directory).len() as int,
            names(path).len() as int,
        ),
        inside(path, directory) ==> names(directory).len() <= names(path).len(),
{
    let n = names(directory).len() as int;
    if names(path) == names(directory) + rest {
        assert(names(path).take(n) =~= names(directory));
    }
    if inside(path, directory) {
        assert(names(path) =~= names(path).take(n) + names(path).subrange(
            n,
            names(path).len() as int,
        ));
    }
}

/// A path from the root never lies inside one that is not, nor the other way round.
pub proof fn lemma_inside_is_of_one_kind(path: Seq<char>, directory: Seq<char>)
    requires
        path.len() > 0,
        directory.len() > 0,
        (path[0] == '/') != (directory[0] == '/'),
    ensures
        !inside(path, directory),
{
}

} // verus!
