//! File paths as text, with `/` between components.
use vstd::prelude::*;

use crate::text::chars_of;

verus! {

// ---------------------------------------------------------------------------
// Components and equality
// ---------------------------------------------------------------------------

/// The pieces of `s` between slashes; one more than there are slashes.
pub open spec fn pieces(s: Seq<char>) -> Seq<Seq<char>>
    decreases s.len(),
{
    if s.len() == 0 {
        seq![Seq::empty()]
    } else {
        let before = pieces(s.drop_last());
        if s.last() == '/' {
            before.push(Seq::empty())
        } else {
            before.drop_last().push(before.last().push(s.last()))
        }
    }
}

/// Whether the piece at position `i` is a component: it is not empty, and it
/// is `.` only at the very start of the path.
pub open spec fn is_component(piece: Seq<char>, i: int) -> bool {
    piece.len() > 0 && (piece == seq!['.'] ==> i == 0)
}

/// The components among the pieces of a path, in order.
pub open spec fn components_among(ps: Seq<Seq<char>>) -> Seq<Seq<char>>
    decreases ps.len(),
{
    if ps.len() == 0 {
        Seq::empty()
    } else {
        let before = components_among(ps.drop_last());
        if is_component(ps.last(), ps.len() - 1) {
            before.push(ps.last())
        } else {
            before
        }
    }
}

/// The components of a path.
pub open spec fn components(s: Seq<char>) -> Seq<Seq<char>> {
    components_among(pieces(s))
}

/// The path starts at the root.
pub open spec fn is_rooted(s: Seq<char>) -> bool {
    s.len() > 0 && s[0] == '/'
}

/// Two paths name the same file: they agree on the root and on every component.
pub open spec fn same_path_spec(a: Seq<char>, b: Seq<char>) -> bool {
    is_rooted(a) == is_rooted(b) && components(a) == components(b)
}

/// The contents of each vector.
pub open spec fn contents(v: Seq<Vec<char>>) -> Seq<Seq<char>> {
    v.map_values(|x: Vec<char>| x@)
}

proof fn lemma_pieces_nonempty(s: Seq<char>)
    ensures
        pieces(s).len() > 0,
    decreases s.len(),
{
    if s.len() > 0 {
        lemma_pieces_nonempty(s.drop_last());
    }
}

/// Whether a finished piece is a component.
fn keeps(piece: &Vec<char>, first: bool) -> (r: bool)
    ensures
        r == is_component(piece@, if first { 0 } else { 1 }),
{
    if piece.len() == 0 {
        false
    } else if piece.len() == 1 && piece[0] == '.' {
        assert(piece@ =~= seq!['.']);
        first
    } else {
        assert(piece.len() == 1 ==> piece@[0] != seq!['.'][0]);
        true
    }
}

/// The components of a path.
fn components_of(path: &Vec<char>) -> (r: Vec<Vec<char>>)
    ensures
        contents(r@) == components(path@),
{
    let mut done: Vec<Vec<char>> = Vec::new();
    let mut piece: Vec<char> = Vec::new();
    let mut first = true;
    assert(pieces(path@.take(0)) =~= seq![Seq::<char>::empty()]);
    assert(pieces(path@.take(0)).drop_last() =~= Seq::<Seq<char>>::empty());
    assert(contents(done@) =~= Seq::<Seq<char>>::empty());
    for i in 0..path.len()
        invariant
            pieces(path@.take(i as int)).len() > 0,
            piece@ == pieces(path@.take(i as int)).last(),
            first == (pieces(path@.take(i as int)).len() == 1),
            contents(done@) == components_among(pieces(path@.take(i as int)).drop_last()),
    {
        let ghost before = path@.take(i as int);
        let ghost after = path@.take(i + 1);
        proof {
            lemma_pieces_nonempty(before);
            assert(after.drop_last() =~= before);
            assert(after.last() == path@[i as int]);
        }
        let c = path[i];
        if c == '/' {
            proof {
                assert(pieces(after) =~= pieces(before).push(Seq::empty()));
                assert(pieces(after).drop_last() =~= pieces(before));
            }
            let ghost kept = done@;
            if keeps(&piece, first) {
                done.push(piece);
                assert(contents(done@) =~= contents(kept).push(piece@));
            }
            piece = Vec::new();
            assert(piece@ =~= Seq::<char>::empty());
            first = false;
        } else {
            proof {
                assert(pieces(after).drop_last() =~= pieces(before).drop_last());
            }
            piece.push(c);
        }
    }
    assert(path@.take(path@.len() as int) =~= path@);
    let ghost kept = done@;
    if keeps(&piece, first) {
        done.push(piece);
        assert(contents(done@) =~= contents(kept).push(piece@));
    }
    done
}

fn same_chars(a: &Vec<char>, b: &Vec<char>) -> (r: bool)
    ensures
        r == (a@ == b@),
{
    if a.len() != b.len() {
        return false;
    }
    for i in 0..a.len()
        invariant
            a@.len() == b@.len(),
            forall|k: int| 0 <= k < i ==> a@[k] == b@[k],
    {
        if a[i] != b[i] {
            return false;
        }
    }
    assert(a@ =~= b@);
    true
}

/// Whether two paths name the same file, component by component: repeated and
/// trailing slashes and inner `.` components make no difference.
pub fn same_path(a: &str, b: &str) -> (r: bool)
    ensures
        r == same_path_spec(a@, b@),
{
    let left = chars_of(a);
    let right = chars_of(b);
    let left_rooted = left.len() > 0 && left[0] == '/';
    let right_rooted = right.len() > 0 && right[0] == '/';
    if left_rooted != right_rooted {
        return false;
    }
    let xs = components_of(&left);
    let ys = components_of(&right);
    assert(contents(xs@).len() == xs@.len() && contents(ys@).len() == ys@.len());
    if xs.len() != ys.len() {
        return false;
    }
    for i in 0..xs.len()
        invariant
            xs@.len() == ys@.len(),
            contents(xs@) == components(a@),
            contents(ys@) == components(b@),
            forall|k: int| 0 <= k < i ==> contents(xs@)[k] == contents(ys@)[k],
    {
        assert(contents(xs@)[i as int] == xs@[i as int]@);
        assert(contents(ys@)[i as int] == ys@[i as int]@);
        if !same_chars(&xs[i], &ys[i]) {
            return false;
        }
    }
    assert(contents(xs@) =~= contents(ys@));
    true
}

// ---------------------------------------------------------------------------
// Building paths
// ---------------------------------------------------------------------------

/// `name` inside the directory `base`.
pub open spec fn join_spec(base: Seq<char>, name: Seq<char>) -> Seq<char> {
    if base.len() == 0 || base.last() == '/' {
        base + name
    } else {
        base.push('/') + name
    }
}

/// `name`, a relative path, inside the directory `base`.
pub fn join(base: &str, name: &str) -> (r: String)
    requires
        !is_rooted(name@),
    ensures
        r@ == join_spec(base@, name@),
{
    let chars = chars_of(base);
    let mut out = base.to_owned();
    if chars.len() > 0 && chars[chars.len() - 1] != '/' {
        out.push('/');
    }
    out.append(name);
    out
}

/// `s` without trailing slashes and trailing `.` components; the root stays.
pub open spec fn trimmed(s: Seq<char>) -> Seq<char>
    decreases s.len(),
{
    if s.len() > 1 && s.last() == '/' {
        trimmed(s.drop_last())
    } else if s.len() > 1 && s.last() == '.' && s[s.len() - 2] == '/' {
        trimmed(s.drop_last())
    } else {
        s
    }
}

/// Where the last piece of `s` starts: behind the last slash.
pub open spec fn last_start(s: Seq<char>) -> int
    decreases s.len(),
{
    if s.len() == 0 || s.last() == '/' {
        s.len() as int
    } else {
        last_start(s.drop_last())
    }
}

/// The path without its last component; none where there is no component.
pub open spec fn parent_spec(s: Seq<char>) -> Option<Seq<char>> {
    let t = trimmed(s);
    if t.len() == 0 || t == seq!['/'] {
        None
    } else {
        Some(trimmed(t.take(last_start(t))))
    }
}

/// The length of the trimmed prefix of the first `len` characters.
fn trimmed_len(s: &Vec<char>, len: usize) -> (r: usize)
    requires
        len <= s@.len(),
    ensures
        r <= len,
        s@.take(r as int) == trimmed(s@.take(len as int)),
{
    let mut end: usize = len;
    while end > 1 && (s[end - 1] == '/' || (s[end - 1] == '.' && s[end - 2] == '/'))
        invariant
            end <= len <= s@.len(),
            trimmed(s@.take(end as int)) == trimmed(s@.take(len as int)),
        decreases end,
    {
        assert(s@.take(end as int).drop_last() =~= s@.take(end - 1));
        end = end - 1;
    }
    end
}

/// Where the last piece of the first `len` characters starts.
fn last_piece(s: &Vec<char>, len: usize) -> (r: usize)
    requires
        len <= s@.len(),
    ensures
        r <= len,
        r == last_start(s@.take(len as int)),
{
    let mut at: usize = len;
    while at > 0 && s[at - 1] != '/'
        invariant
            at <= len <= s@.len(),
            last_start(s@.take(at as int)) == last_start(s@.take(len as int)),
        decreases at,
    {
        assert(s@.take(at as int).drop_last() =~= s@.take(at - 1));
        at = at - 1;
    }
    at
}

/// The first `len` characters as a string.
fn prefix_string(s: &Vec<char>, len: usize) -> (r: String)
    requires
        len <= s@.len(),
    ensures
        r@ == s@.take(len as int),
{
    let mut out = String::new();
    assert(out@ =~= s@.take(0));
    for i in 0..len
        invariant
            len <= s@.len(),
            out@ == s@.take(i as int),
    {
        out.push(s[i]);
        assert(s@.take(i + 1) =~= s@.take(i as int).push(s@[i as int]));
    }
    out
}

/// The path without its last component: the root and the empty path have none.
pub fn parent(path: &str) -> (r: Option<String>)
    ensures
        match r {
            Some(p) => parent_spec(path@) == Some(p@),
            None => parent_spec(path@) is None,
        },
{
    let s = chars_of(path);
    assert(s@.take(s@.len() as int) =~= path@);
    let end = trimmed_len(&s, s.len());
    if end == 0 {
        return None;
    }
    if end == 1 && s[0] == '/' {
        assert(s@.take(1) =~= seq!['/']);
        return None;
    }
    assert(s@.take(end as int)[0] == s@[0]);
    let start = last_piece(&s, end);
    let up = trimmed_len(&s, start);
    assert(s@.take(end as int).take(start as int) =~= s@.take(start as int));
    Some(prefix_string(&s, up))
}

/// How much of a file name is its stem: all before the last dot, or all of it
/// where there is no dot or only one at the start.
pub open spec fn stem_len(name: Seq<char>) -> int {
    let dot = last_dot(name);
    if dot <= 0 {
        name.len() as int
    } else {
        dot
    }
}

/// The position of the last dot, or -1.
pub open spec fn last_dot(name: Seq<char>) -> int
    decreases name.len(),
{
    if name.len() == 0 {
        -1
    } else if name.last() == '.' {
        name.len() - 1
    } else {
        last_dot(name.drop_last())
    }
}

/// The path with the extension of its file name replaced or, where it had
/// none, added. A path without a file name stays as it is.
pub open spec fn with_extension_spec(s: Seq<char>, extension: Seq<char>) -> Seq<char> {
    let t = trimmed(s);
    let start = last_start(t);
    let name = t.skip(start);
    if name.len() == 0 || name == seq!['.'] || name == seq!['.', '.'] {
        s
    } else {
        t.take(start + stem_len(name)).push('.') + extension
    }
}

/// The position of the last dot at or behind `start` among the first `len`
/// characters, or `len` where the name has no extension.
fn stem_end(s: &Vec<char>, start: usize, len: usize) -> (r: usize)
    requires
        start <= len <= s@.len(),
    ensures
        start <= r <= len,
        r == start + stem_len(s@.subrange(start as int, len as int)),
{
    let ghost name = s@.subrange(start as int, len as int);
    let mut at: usize = len;
    while at > start
        invariant
            start <= at <= len <= s@.len(),
            name == s@.subrange(start as int, len as int),
            last_dot(s@.subrange(start as int, at as int)) == last_dot(name),
        decreases at,
    {
        assert(s@.subrange(start as int, at as int).drop_last() =~= s@.subrange(start as int, at - 1));
        if s[at - 1] == '.' {
            if at - 1 == start {
                return len;
            }
            return at - 1;
        }
        at = at - 1;
    }
    len
}

/// The path with the given extension, which is not empty.
pub fn with_extension(path: &str, extension: &str) -> (r: String)
    requires
        extension@.len() > 0,
    ensures
        r@ == with_extension_spec(path@, extension@),
{
    let s = chars_of(path);
    assert(s@.take(s@.len() as int) =~= path@);
    let end = trimmed_len(&s, s.len());
    let start = last_piece(&s, end);
    let ghost name = s@.take(end as int).skip(start as int);
    assert(name =~= s@.subrange(start as int, end as int));
    if start == end {
        return path.to_owned();
    }
    if end - start == 1 && s[start] == '.' {
        assert(name =~= seq!['.']);
        return path.to_owned();
    }
    if end - start == 2 && s[start] == '.' && s[start + 1] == '.' {
        assert(name =~= seq!['.', '.']);
        return path.to_owned();
    }
    assert(name[0] == s@[start as int]);
    assert(end - start == 2 ==> name[1] == s@[start + 1]);
    let stem = stem_end(&s, start, end);
    assert(s@.take(end as int).take(stem as int) =~= s@.take(stem as int));
    let mut out = prefix_string(&s, stem);
    out.push('.');
    out.append(extension);
    out
}

// ---------------------------------------------------------------------------
// Laws
// ---------------------------------------------------------------------------

/// Naming the same file is an equivalence.
pub proof fn law_same_path_is_an_equivalence(a: Seq<char>, b: Seq<char>, c: Seq<char>)
    ensures
        same_path_spec(a, a),
        same_path_spec(a, b) ==> same_path_spec(b, a),
        same_path_spec(a, b) && same_path_spec(b, c) ==> same_path_spec(a, c),
{
}

/// A directory is the same with a slash behind it: what is joined to it has the
/// same path.
pub proof fn law_a_trailing_slash_makes_no_difference(base: Seq<char>, name: Seq<char>)
    requires
        base.len() > 0,
    ensures
        base.last() != '/' ==> join_spec(base.push('/'), name) == join_spec(base, name),
{
}

/// The name of a file: no path of several components, and no `.`.
pub open spec fn is_file_name(name: Seq<char>) -> bool {
    &&& name.len() > 0
    &&& name != seq!['.']
    &&& forall|i: int| 0 <= i < name.len() ==> name[i] != '/'
}

proof fn lemma_last_start(base: Seq<char>, name: Seq<char>)
    requires
        base.len() == 0 || base.last() == '/',
        forall|i: int| 0 <= i < name.len() ==> name[i] != '/',
    ensures
        last_start(base + name) == base.len(),
    decreases name.len(),
{
    let s = base + name;
    if name.len() == 0 {
        assert(s =~= base);
    } else {
        assert(s.last() == name[name.len() - 1]);
        assert(s.drop_last() =~= base + name.drop_last());
        lemma_last_start(base, name.drop_last());
    }
}

/// The directory of a file in a directory is that directory, without slashes
/// and `.` components behind it.
pub proof fn law_the_parent_of_a_file_is_its_directory(base: Seq<char>, name: Seq<char>)
    requires
        is_file_name(name),
    ensures
        parent_spec(join_spec(base, name)) == Some(trimmed(base)),
{
    let s = join_spec(base, name);
    let dir = if base.len() == 0 || base.last() == '/' {
        base
    } else {
        base.push('/')
    };
    assert(s =~= dir + name);
    assert(s.last() == name[name.len() - 1]);
    if s.len() > 1 && s.last() == '.' && s[s.len() - 2] == '/' {
        if name.len() == 1 {
            assert(name =~= seq!['.']);
        } else {
            assert(s[s.len() - 2] == name[name.len() - 2]);
        }
    }
    assert(trimmed(s) == s);
    if s == seq!['/'] {
        assert(s.last() == '/');
    }
    lemma_last_start(dir, name);
    assert(s.take(dir.len() as int) =~= dir);
    if dir != base {
        assert(dir.drop_last() =~= base);
    }
}

proof fn lemma_pieces_of_file(dir: Seq<char>, name: Seq<char>)
    requires
        dir.len() == 0 || dir.last() == '/',
        forall|i: int| 0 <= i < name.len() ==> name[i] != '/',
    ensures
        pieces(dir + name) == pieces(dir).drop_last().push(name),
    decreases name.len(),
{
    lemma_pieces_nonempty(dir);
    let s = dir + name;
    if name.len() == 0 {
        assert(s =~= dir);
        if dir.len() == 0 {
            assert(pieces(dir) =~= seq![Seq::<char>::empty()]);
        }
        assert(pieces(dir).last() =~= Seq::<char>::empty());
        assert(name =~= Seq::<char>::empty());
        assert(pieces(dir).drop_last().push(name) =~= pieces(dir));
    } else {
        let init = name.drop_last();
        lemma_pieces_of_file(dir, init);
        assert(s.drop_last() =~= dir + init);
        assert(s.last() == name.last());
        let before = pieces(dir + init);
        assert(before.last() =~= init);
        assert(before.drop_last() =~= pieces(dir).drop_last());
        assert(init.push(name.last()) =~= name);
    }
}

/// The components of a file in a directory are those of the directory, and the
/// name.
pub proof fn law_a_file_adds_its_name(base: Seq<char>, name: Seq<char>)
    requires
        is_file_name(name),
    ensures
        components(join_spec(base, name)) == components(base).push(name),
        is_rooted(join_spec(base, name)) == is_rooted(base),
{
    let dir = if base.len() == 0 || base.last() == '/' {
        base
    } else {
        base.push('/')
    };
    assert(join_spec(base, name) =~= dir + name);
    lemma_pieces_of_file(dir, name);
    lemma_pieces_nonempty(dir);
    let ps = pieces(dir);
    assert(ps.last() =~= Seq::<char>::empty()) by {
        if dir.len() == 0 {
            assert(pieces(dir) =~= seq![Seq::<char>::empty()]);
        }
    }
    assert(components_among(ps) == components_among(ps.drop_last()));
    let all = ps.drop_last().push(name);
    assert(all.drop_last() =~= ps.drop_last());
    assert(components_among(all) == components_among(ps.drop_last()).push(name));
    if dir != base {
        assert(dir.drop_last() =~= base);
        assert(pieces(dir) =~= pieces(base).push(Seq::empty()));
        assert(pieces(dir).drop_last() =~= pieces(base));
    }
}

/// Files of one name in two directories are the same exactly where the
/// directories are, and files of two names never are.
pub proof fn law_files_differ_by_directory_and_name(
    a: Seq<char>,
    b: Seq<char>,
    name: Seq<char>,
    other: Seq<char>,
)
    requires
        is_file_name(name),
        is_file_name(other),
    ensures
        same_path_spec(join_spec(a, name), join_spec(b, name)) <==> same_path_spec(a, b),
        name != other ==> !same_path_spec(join_spec(a, name), join_spec(b, other)),
{
    law_a_file_adds_its_name(a, name);
    law_a_file_adds_its_name(b, name);
    law_a_file_adds_its_name(b, other);
    assert(components(a).push(name).drop_last() =~= components(a));
    assert(components(b).push(name).drop_last() =~= components(b));
    assert(components(a).push(name).last() == name);
    assert(components(b).push(other).last() == other);
}

/// The path names a file, and not a directory by `.` or `..` or the root.
pub open spec fn has_file_name(s: Seq<char>) -> bool {
    let t = trimmed(s);
    let name = t.skip(last_start(t));
    name.len() > 0 && name != seq!['.'] && name != seq!['.', '.']
}

proof fn lemma_last_dot_at(name: Seq<char>, i: int)
    requires
        0 <= i < name.len(),
        name[i] == '.',
        forall|j: int| i < j < name.len() ==> name[j] != '.',
    ensures
        last_dot(name) == i,
    decreases name.len(),
{
    if i < name.len() - 1 {
        assert(name.last() == name[name.len() - 1]);
        lemma_last_dot_at(name.drop_last(), i);
    }
}

proof fn lemma_last_start_within(s: Seq<char>)
    ensures
        0 <= last_start(s) <= s.len(),
    decreases s.len(),
{
    if s.len() > 0 && s.last() != '/' {
        lemma_last_start_within(s.drop_last());
    }
}

proof fn lemma_last_dot_within(name: Seq<char>)
    ensures
        -1 <= last_dot(name) < name.len(),
    decreases name.len(),
{
    if name.len() > 0 && name.last() != '.' {
        lemma_last_dot_within(name.drop_last());
    }
}

/// The copy that is made under another extension is another file.
pub proof fn law_the_copy_is_another_file(s: Seq<char>)
    requires
        has_file_name(s),
    ensures
        with_extension_spec(s, "sqlite.enc_tmp"@) != s,
{
    reveal_strlit("sqlite.enc_tmp");
    let ext = "sqlite.enc_tmp"@;
    let t = trimmed(s);
    let start = last_start(t);
    let name = t.skip(start);
    let k = stem_len(name);
    let r = t.take(start + k).push('.') + ext;
    lemma_last_start_within(t);
    lemma_last_dot_within(name);
    if r == s {
        assert(s.last() == 'p');
        assert(t == s);
        assert(name[k] == t[start + k]);
        assert(r[start + k + 7] == '.');
        assert(name[k + 7] == t[start + k + 7]);
        assert forall|j: int| k + 7 < j < name.len() implies name[j] != '.' by {
            assert(name[j] == t[start + j]);
            assert(r[start + j] == ext[j - k - 1]);
        }
        lemma_last_dot_at(name, k + 7);
    }
}

/// The pieces with a slash between each two.
pub open spec fn rejoined(ps: Seq<Seq<char>>) -> Seq<char>
    decreases ps.len(),
{
    if ps.len() == 0 {
        Seq::empty()
    } else if ps.len() == 1 {
        ps[0]
    } else {
        rejoined(ps.drop_last()).push('/') + ps.last()
    }
}

/// A path is its pieces with slashes between them, and no piece holds a slash.
pub proof fn law_pieces_rejoin(s: Seq<char>)
    ensures
        rejoined(pieces(s)) == s,
        forall|i: int, j: int|
            0 <= i < pieces(s).len() && 0 <= j < pieces(s)[i].len() ==> #[trigger] pieces(s)[i][j]
                != '/',
    decreases s.len(),
{
    if s.len() == 0 {
        assert(pieces(s) =~= seq![Seq::<char>::empty()]);
        assert(rejoined(pieces(s)) =~= s);
    } else {
        let init = s.drop_last();
        law_pieces_rejoin(init);
        lemma_pieces_nonempty(init);
        let before = pieces(init);
        let all = pieces(s);
        assert(init.push(s.last()) =~= s);
        if s.last() == '/' {
            assert(all.drop_last() =~= before);
            assert(rejoined(all) =~= init.push('/'));
        } else {
            assert(all.drop_last() =~= before.drop_last());
            assert(all.last() == before.last().push(s.last()));
            if before.len() == 1 {
                assert(rejoined(before) == before[0]);
                assert(rejoined(all) =~= s);
            } else {
                assert(rejoined(all) =~= s);
            }
            assert forall|i: int, j: int|
                0 <= i < all.len() && 0 <= j < all[i].len() implies #[trigger] all[i][j] != '/' by {
                if i < before.len() - 1 {
                    assert(all[i] == before[i]);
                    assert(before[i][j] != '/');
                } else if j < before.last().len() {
                    assert(before[i][j] != '/');
                }
            }
        }
    }
}

/// The pieces that are components wherever they stand behind the first piece.
pub open spec fn named(ps: Seq<Seq<char>>) -> Seq<Seq<char>>
    decreases ps.len(),
{
    if ps.len() == 0 {
        Seq::empty()
    } else if ps.last().len() == 0 || ps.last() == seq!['.'] {
        named(ps.drop_last())
    } else {
        named(ps.drop_last()).push(ps.last())
    }
}

proof fn lemma_components_behind(ps: Seq<Seq<char>>, qs: Seq<Seq<char>>)
    requires
        ps.len() > 0,
    ensures
        components_among(ps + qs) == components_among(ps) + named(qs),
    decreases qs.len(),
{
    if qs.len() == 0 {
        assert(ps + qs =~= ps);
        assert(components_among(ps) + named(qs) =~= components_among(ps));
    } else {
        lemma_components_behind(ps, qs.drop_last());
        assert((ps + qs).drop_last() =~= ps + qs.drop_last());
        assert((ps + qs).last() == qs.last());
        assert(components_among(ps + qs) =~= components_among(ps) + named(qs));
    }
}

proof fn lemma_named_of_two(ps: Seq<Seq<char>>, qs: Seq<Seq<char>>)
    ensures
        named(ps + qs) == named(ps) + named(qs),
    decreases qs.len(),
{
    if qs.len() == 0 {
        assert(ps + qs =~= ps);
        assert(named(ps) + named(qs) =~= named(ps));
    } else {
        lemma_named_of_two(ps, qs.drop_last());
        assert((ps + qs).drop_last() =~= ps + qs.drop_last());
        assert(named(ps + qs) =~= named(ps) + named(qs));
    }
}

proof fn lemma_pieces_of_two(a: Seq<char>, b: Seq<char>)
    ensures
        pieces(a.push('/') + b) == pieces(a) + pieces(b),
    decreases b.len(),
{
    lemma_pieces_nonempty(a);
    lemma_pieces_nonempty(b);
    let s = a.push('/') + b;
    if b.len() == 0 {
        assert(s =~= a.push('/'));
        assert(s.drop_last() =~= a);
        assert(pieces(b) =~= seq![Seq::<char>::empty()]);
        assert(pieces(s) =~= pieces(a) + pieces(b));
    } else {
        let init = b.drop_last();
        lemma_pieces_of_two(a, init);
        lemma_pieces_nonempty(init);
        assert(s.drop_last() =~= a.push('/') + init);
        assert(s.last() == b.last());
        assert(pieces(s) =~= pieces(a) + pieces(b));
    }
}

/// A second slash, or a `.` between slashes, names nothing, and neither does a
/// slash at the end.
pub proof fn law_slashes_and_dots_name_nothing(a: Seq<char>, b: Seq<char>)
    ensures
        same_path_spec(a.push('/').push('/') + b, a.push('/') + b),
        same_path_spec(a.push('/').push('.').push('/') + b, a.push('/') + b),
        a.len() > 0 ==> same_path_spec(a.push('/'), a),
{
    lemma_pieces_nonempty(a);
    let short = a.push('/') + b;
    lemma_pieces_of_two(a, b);
    lemma_components_behind(pieces(a), pieces(b));
    let empty: Seq<char> = Seq::empty();
    assert(pieces(empty) =~= seq![empty]);
    assert(named(seq![empty]) =~= Seq::<Seq<char>>::empty()) by {
        reveal_with_fuel(named, 2);
        assert(seq![empty].drop_last() =~= Seq::<Seq<char>>::empty());
    }
    let twice = a.push('/').push('/') + b;
    lemma_pieces_of_two(a.push('/'), b);
    lemma_pieces_of_two(a, empty);
    assert(a.push('/') + empty =~= a.push('/'));
    lemma_components_behind(pieces(a), seq![empty]);
    lemma_components_behind(pieces(a.push('/')), pieces(b));
    assert(components(twice) =~= components(short));
    assert(components(a.push('/')) =~= components(a));
    let dot: Seq<char> = seq!['.'];
    let dotted = a.push('/').push('.').push('/') + b;
    lemma_pieces_of_two(a, dot);
    assert(a.push('/') + dot =~= a.push('/').push('.'));
    assert(pieces(dot) =~= seq![dot]) by {
        assert(dot.drop_last() =~= empty);
        assert(empty.push('.') =~= dot);
    }
    assert(named(seq![dot]) =~= Seq::<Seq<char>>::empty()) by {
        reveal_with_fuel(named, 2);
        assert(seq![dot].drop_last() =~= Seq::<Seq<char>>::empty());
    }
    lemma_pieces_of_two(a.push('/').push('.'), b);
    lemma_components_behind(pieces(a), seq![dot]);
    lemma_components_behind(pieces(a.push('/').push('.')), pieces(b));
    assert(components(dotted) =~= components(short));
    assert(is_rooted(twice) == is_rooted(short));
    assert(is_rooted(dotted) == is_rooted(short));
}

/// Trimming keeps the file that a path names, only takes from its end, and
/// leaves no slash and no `.` component there but the root.
pub proof fn law_trimming_keeps_the_file(s: Seq<char>)
    ensures
        same_path_spec(trimmed(s), s),
        trimmed(s).len() <= s.len(),
        trimmed(s) == s.take(trimmed(s).len() as int),
        trimmed(s).len() > 1 ==> trimmed(s).last() != '/',
        trimmed(s).len() > 1 && trimmed(s).last() == '.' ==> trimmed(s)[trimmed(s).len() - 2]
            != '/',
    decreases s.len(),
{
    if s.len() > 1 && (s.last() == '/' || (s.last() == '.' && s[s.len() - 2] == '/')) {
        let init = s.drop_last();
        law_trimming_keeps_the_file(init);
        assert(init.take(trimmed(s).len() as int) =~= s.take(trimmed(s).len() as int));
        assert(init[0] == s[0]);
        if s.last() == '/' {
            law_slashes_and_dots_name_nothing(init, Seq::empty());
            assert(init.push('/') =~= s);
        } else {
            let a = init.drop_last();
            assert(init =~= a.push('/'));
            assert(s =~= a.push('/').push('.'));
            law_slashes_and_dots_name_nothing(a, Seq::empty());
            let dotted = s.push('/');
            assert(a.push('/').push('.').push('/') + Seq::<char>::empty() =~= dotted);
            assert(a.push('/') + Seq::<char>::empty() =~= init);
            law_slashes_and_dots_name_nothing(s, Seq::empty());
        }
    } else {
        assert(s.take(s.len() as int) =~= s);
    }
}

/// A new extension takes the place of what stands behind the last dot of a file
/// name. The directory stays, and so does what stands before that dot.
pub proof fn law_an_extension_is_replaced(
    base: Seq<char>,
    stem: Seq<char>,
    old_extension: Seq<char>,
    extension: Seq<char>,
)
    requires
        stem.len() > 0,
        is_file_name(stem.push('.') + old_extension),
        stem.push('.') + old_extension != seq!['.', '.'],
        forall|i: int| 0 <= i < old_extension.len() ==> old_extension[i] != '.',
    ensures
        with_extension_spec(join_spec(base, stem.push('.') + old_extension), extension)
            == join_spec(base, stem.push('.') + extension),
{
    let name = stem.push('.') + old_extension;
    assert(name[stem.len() as int] == '.');
    lemma_last_dot_at(name, stem.len() as int);
    lemma_extension_of_file(base, name, extension);
    assert(name.take(stem.len() as int) =~= stem);
}

/// A file name without a dot, or with none but at its start, gets the extension
/// behind it.
pub proof fn law_an_extension_is_added(base: Seq<char>, name: Seq<char>, extension: Seq<char>)
    requires
        is_file_name(name),
        name != seq!['.', '.'],
        forall|i: int| 0 < i < name.len() ==> name[i] != '.',
    ensures
        with_extension_spec(join_spec(base, name), extension) == join_spec(
            base,
            name.push('.') + extension,
        ),
{
    lemma_last_dot_within(name);
    lemma_dot_is_there(name);
    lemma_extension_of_file(base, name, extension);
    assert(name.take(name.len() as int) =~= name);
}

proof fn lemma_extension_of_file(base: Seq<char>, name: Seq<char>, extension: Seq<char>)
    requires
        is_file_name(name),
        name != seq!['.', '.'],
    ensures
        with_extension_spec(join_spec(base, name), extension) == join_spec(
            base,
            name.take(stem_len(name)).push('.') + extension,
        ),
{
    let dir = if base.len() == 0 || base.last() == '/' {
        base
    } else {
        base.push('/')
    };
    let s = join_spec(base, name);
    lemma_untrimmed_file(base, name);
    lemma_last_dot_within(name);
    assert(s =~= dir + name);
    assert(s.skip(dir.len() as int) =~= name);
    assert(s.take(dir.len() + stem_len(name)) =~= dir + name.take(stem_len(name)));
    assert((dir + name.take(stem_len(name))).push('.') + extension =~= dir + (name.take(
        stem_len(name),
    ).push('.') + extension));
}

proof fn lemma_dot_is_there(name: Seq<char>)
    ensures
        last_dot(name) >= 0 ==> name[last_dot(name)] == '.',
    decreases name.len(),
{
    if name.len() > 0 && name.last() != '.' {
        lemma_dot_is_there(name.drop_last());
        lemma_last_dot_within(name.drop_last());
    }
}

pub proof fn lemma_untrimmed_file(base: Seq<char>, name: Seq<char>)
    requires
        is_file_name(name),
    ensures
        ({
            let dir = if base.len() == 0 || base.last() == '/' {
                base
            } else {
                base.push('/')
            };
            let s = join_spec(base, name);
            &&& trimmed(s) == s
            &&& last_start(s) == dir.len()
        }),
{
    let dir = if base.len() == 0 || base.last() == '/' {
        base
    } else {
        base.push('/')
    };
    let s = join_spec(base, name);
    assert(s =~= dir + name);
    assert(s.last() == name[name.len() - 1]);
    if s.len() > 1 && s.last() == '.' && s[s.len() - 2] == '/' {
        if name.len() == 1 {
            assert(name =~= seq!['.']);
        } else {
            assert(s[s.len() - 2] == name[name.len() - 2]);
        }
    }
    lemma_last_start(dir, name);
}

/// A name in a directory is the directory, a slash where it has none at its end,
/// and the name.
pub proof fn law_a_name_follows_its_directory(base: Seq<char>, name: Seq<char>)
    ensures
        base.len() > 0 && base.last() != '/' ==> join_spec(base, name) == base + seq!['/'] + name,
        base.len() > 0 && base.last() == '/' ==> join_spec(base, name) == base + name,
        join_spec(Seq::empty(), name) == name,
{
    assert(base.push('/') + name =~= base + seq!['/'] + name);
    assert(Seq::<char>::empty() + name =~= name);
}

/// The components of a path and of what stands in it add up. A name alone is one
/// component, and so is one behind a slash; nothing, and the root, have none. Two
/// paths name the same file exactly where they have the same components and both
/// or neither start with a slash.
pub proof fn law_components_add_up(a: Seq<char>, b: Seq<char>, name: Seq<char>)
    ensures
        components(a.push('/') + b) == components(a) + components(seq!['/'] + b),
        is_file_name(name) ==> components(name) == seq![name],
        is_file_name(name) ==> components(seq!['/'] + name) == seq![name],
        components(seq!['.']) == seq![seq!['.']],
        components(Seq::empty()).len() == 0,
        components(seq!['/']).len() == 0,
        same_path_spec(a, b) <==> components(a) == components(b) && ((a.len() > 0 && a[0] == '/')
            <==> (b.len() > 0 && b[0] == '/')),
{
    let empty: Seq<char> = Seq::empty();
    let root: Seq<char> = seq!['/'];
    let dot: Seq<char> = seq!['.'];
    lemma_pieces_nonempty(a);
    lemma_pieces_of_two(a, b);
    lemma_components_behind(pieces(a), pieces(b));
    lemma_pieces_of_two(empty, b);
    assert(empty.push('/') + b =~= root + b);
    assert(pieces(empty) =~= seq![empty]);
    lemma_components_behind(seq![empty], pieces(b));
    assert(components_among(seq![empty]) =~= Seq::<Seq<char>>::empty()) by {
        reveal_with_fuel(components_among, 2);
        assert(seq![empty].drop_last() =~= Seq::<Seq<char>>::empty());
    }
    assert(components(root + b) =~= named(pieces(b)));
    assert(components(a.push('/') + b) =~= components(a) + components(root + b));
    assert(components(empty) =~= Seq::<Seq<char>>::empty());
    lemma_a_name_is_added(empty, name);
    lemma_a_name_is_added(root, name);
    assert(join_spec(empty, name) =~= name);
    assert(join_spec(root, name) =~= root + name);
    assert(components(root).len() == 0) by {
        lemma_pieces_of_two(empty, empty);
        assert(empty.push('/') + empty =~= root);
        assert(pieces(root) =~= seq![empty] + seq![empty]);
        lemma_components_behind(seq![empty], seq![empty]);
        reveal_with_fuel(named, 2);
        assert(seq![empty].drop_last() =~= Seq::<Seq<char>>::empty());
    }
    assert(components(root) =~= Seq::<Seq<char>>::empty());
    if is_file_name(name) {
        assert(components(name) =~= seq![name]);
        assert(components(root + name) =~= seq![name]);
    }
    lemma_pieces_of_file(empty, dot);
    assert(empty + dot =~= dot);
    assert(pieces(dot) =~= seq![dot]);
    assert(components_among(seq![dot]) =~= seq![dot]) by {
        reveal_with_fuel(components_among, 2);
        assert(seq![dot].drop_last() =~= Seq::<Seq<char>>::empty());
    }
}

proof fn lemma_a_name_is_added(base: Seq<char>, name: Seq<char>)
    ensures
        is_file_name(name) ==> components(join_spec(base, name)) == components(base).push(name),
{
    if is_file_name(name) {
        law_a_file_adds_its_name(base, name);
    }
}

proof fn lemma_behind_last_slash(s: Seq<char>)
    ensures
        0 <= last_start(s) <= s.len(),
        last_start(s) > 0 ==> s[last_start(s) - 1] == '/',
        forall|i: int| last_start(s) <= i < s.len() ==> s[i] != '/',
    decreases s.len(),
{
    if s.len() > 0 && s.last() != '/' {
        lemma_behind_last_slash(s.drop_last());
        assert forall|i: int| last_start(s) <= i < s.len() implies s[i] != '/' by {
            if i < s.len() - 1 {
                assert(s.drop_last()[i] == s[i]);
            }
        }
    }
}

/// The parent of a path has all of its components but the last, and starts at
/// the root where the path does. Only a path without components has no parent.
pub proof fn law_the_parent_lacks_the_last_component(s: Seq<char>)
    ensures
        parent_spec(s) is None <==> components(s).len() == 0,
        parent_spec(s) matches Some(p) ==> {
            &&& components(p) == components(s).drop_last()
            &&& is_rooted(p) == is_rooted(s)
        },
{
    let t = trimmed(s);
    law_trimming_keeps_the_file(s);
    law_components_add_up(Seq::empty(), Seq::empty(), Seq::empty());
    if t.len() == 0 {
        assert(t =~= Seq::<char>::empty());
    } else if t != seq!['/'] {
        if t.len() == 1 {
            assert(t =~= seq![t[0]]);
        }
        assert(t.last() != '/');
        lemma_behind_last_slash(t);
        let start = last_start(t);
        let base = t.take(start);
        let name = t.skip(start);
        assert(start < t.len());
        assert(t =~= base + name);
        law_trimming_keeps_the_file(base);
        if base.len() > 0 {
            assert(base.last() == '/');
            assert(base[0] == t[0]);
        }
        assert(join_spec(base, name) =~= t);
        if name == seq!['.'] {
            if start > 0 {
                assert(t.last() == name[0]);
                assert(t[t.len() - 2] == '/');
            }
            assert(base =~= Seq::<char>::empty());
            assert(t =~= seq!['.']);
            assert(components(t).drop_last() =~= components(base));
        } else {
            assert forall|i: int| 0 <= i < name.len() implies name[i] != '/' by {
                assert(name[i] == t[start + i]);
            }
            law_a_file_adds_its_name(base, name);
            assert(components(t).drop_last() =~= components(base));
        }
    }
}

/// A path that names no file stays as it is when an extension is set.
pub proof fn law_only_a_file_has_an_extension(s: Seq<char>, extension: Seq<char>)
    requires
        components(s).len() == 0 || components(s).last() == seq!['.', '.'],
    ensures
        with_extension_spec(s, extension) == s,
{
    let t = trimmed(s);
    law_trimming_keeps_the_file(s);
    lemma_behind_last_slash(t);
    let start = last_start(t);
    let base = t.take(start);
    let name = t.skip(start);
    if name.len() > 0 && name != seq!['.'] {
        assert forall|i: int| 0 <= i < name.len() implies name[i] != '/' by {
            assert(name[i] == t[start + i]);
        }
        if base.len() > 0 {
            assert(base.last() == '/');
        }
        assert(t =~= base + name);
        assert(join_spec(base, name) =~= t);
        law_a_file_adds_its_name(base, name);
        assert(components(t).last() == name);
    }
}

/// What stands behind the last name of a path, slashes and `.` components, makes
/// no difference to its parent, nor to the path with another extension.
pub proof fn law_what_is_trimmed_makes_no_difference(s: Seq<char>, extension: Seq<char>)
    ensures
        trimmed(trimmed(s)) == trimmed(s),
        parent_spec(s) == parent_spec(trimmed(s)),
        has_file_name(s) ==> with_extension_spec(s, extension) == with_extension_spec(
            trimmed(s),
            extension,
        ),
{
    law_trimming_keeps_the_file(s);
}

} // verus!
