//! Paths as texts: which of them name the same place.

use vstd::prelude::*;

verus! {

/// What a path says: whether it begins at the root, whether it begins with the current
/// directory, and the names that follow. Repeated and trailing separators say nothing, nor does
/// a dot behind the beginning.
pub struct PathParts {
    pub rooted: bool,
    pub here: bool,
    pub names: Seq<Seq<char>>,
}

/// The text between the separators of a path.
pub open spec fn pieces(s: Seq<char>) -> Seq<Seq<char>>
    decreases s.len(),
{
    if s.len() == 0 {
        seq![Seq::empty()]
    } else {
        let front = pieces(s.drop_last());
        if s.last() == '/' {
            front.push(Seq::empty())
        } else {
            front.drop_last().push(front.last().push(s.last()))
        }
    }
}

/// The piece of a path is a name.
pub open spec fn is_name(piece: Seq<char>) -> bool {
    piece.len() > 0 && piece != seq!['.']
}

/// The names among the pieces of a path.
pub open spec fn names_in(list: Seq<Seq<char>>) -> Seq<Seq<char>>
    decreases list.len(),
{
    if list.len() == 0 {
        Seq::empty()
    } else if is_name(list.last()) {
        names_in(list.drop_last()).push(list.last())
    } else {
        names_in(list.drop_last())
    }
}

/// What a path says.
pub open spec fn path_parts(s: Seq<char>) -> PathParts {
    PathParts {
        rooted: s.len() > 0 && s[0] == '/',
        here: s.len() > 0 && s[0] == '.' && (s.len() == 1 || s[1] == '/'),
        names: names_in(pieces(s)),
    }
}

/// The characters of the names.
spec fn letters(names: Seq<Vec<char>>) -> Seq<Seq<char>> {
    names.map_values(|n: Vec<char>| n@)
}

/// Adds the piece of a path where it is a name.
fn add_name(names: &mut Vec<Vec<char>>, piece: Vec<char>)
    ensures
        letters(final(names)@) == if is_name(piece@) {
            letters(old(names)@).push(piece@)
        } else {
            letters(old(names)@)
        },
{
    let ghost before = letters(names@);
    if piece.len() == 0 {
        return;
    }
    if piece.len() == 1 && piece[0] == '.' {
        assert(piece@ =~= seq!['.']);
        return;
    }
    names.push(piece);
    assert(letters(names@) =~= before.push(piece@));
}

/// The names in a path.
fn names_of(path: &str) -> (r: Vec<Vec<char>>)
    ensures
        letters(r@) == path_parts(path@).names,
{
    let mut names: Vec<Vec<char>> = Vec::new();
    let mut piece: Vec<char> = Vec::new();
    let n: usize = path.unicode_len();
    proof {
        assert(path@.take(0) =~= Seq::<char>::empty());
        assert(pieces(path@.take(0)).drop_last() =~= Seq::<Seq<char>>::empty());
        assert(letters(names@) =~= Seq::<Seq<char>>::empty());
        assert(piece@ =~= Seq::<char>::empty());
    }
    for i in 0..n
        invariant
            n == path@.len(),
            pieces(path@.take(i as int)).len() > 0,
            letters(names@) == names_in(pieces(path@.take(i as int)).drop_last()),
            piece@ == pieces(path@.take(i as int)).last(),
    {
        let c = path.get_char(i);
        let ghost front = pieces(path@.take(i as int));
        let ghost next = pieces(path@.take(i + 1));
        proof {
            assert(path@.take(i + 1).drop_last() =~= path@.take(i as int));
            assert(path@.take(i + 1).last() == c);
        }
        if c == '/' {
            add_name(&mut names, piece);
            piece = Vec::new();
            proof {
                assert(next.drop_last() =~= front);
                assert(piece@ =~= next.last());
            }
        } else {
            piece.push(c);
            assert(next.drop_last() =~= front.drop_last());
        }
    }
    assert(path@.take(n as int) =~= path@);
    add_name(&mut names, piece);
    names
}

/// Whether the two names are the same.
fn same_name(a: &Vec<char>, b: &Vec<char>) -> (r: bool)
    ensures
        r == (a@ == b@),
{
    if a.len() != b.len() {
        return false;
    }
    let n: usize = a.len();
    for i in 0..n
        invariant
            n == a@.len(),
            n == b@.len(),
            forall|j: int| 0 <= j < i ==> #[trigger] a@[j] == b@[j],
    {
        if a[i] != b[i] {
            return false;
        }
    }
    assert(a@ =~= b@);
    true
}

/// Whether the path begins at the root.
fn is_rooted(path: &str) -> (r: bool)
    ensures
        r == path_parts(path@).rooted,
{
    path.unicode_len() > 0 && path.get_char(0) == '/'
}

/// Whether the path begins with the current directory.
fn is_here(path: &str) -> (r: bool)
    ensures
        r == path_parts(path@).here,
{
    let n: usize = path.unicode_len();
    n > 0 && path.get_char(0) == '.' && (n == 1 || path.get_char(1) == '/')
}

/// Whether two paths say the same.
pub fn same_path(a: &str, b: &str) -> (r: bool)
    ensures
        r == (path_parts(a@) == path_parts(b@)),
{
    if is_rooted(a) != is_rooted(b) || is_here(a) != is_here(b) {
        return false;
    }
    let first = names_of(a);
    let second = names_of(b);
    if first.len() != second.len() {
        assert(path_parts(a@).names.len() != path_parts(b@).names.len());
        return false;
    }
    let n: usize = first.len();
    for i in 0..n
        invariant
            n == first@.len(),
            n == second@.len(),
            letters(first@) == path_parts(a@).names,
            letters(second@) == path_parts(b@).names,
            forall|j: int| 0 <= j < i ==> #[trigger] first@[j]@ == second@[j]@,
    {
        if !same_name(&first[i], &second[i]) {
            assert(letters(first@)[i as int] != letters(second@)[i as int]);
            return false;
        }
    }
    assert(letters(first@) =~= letters(second@));
    true
}

proof fn lemma_pieces(a: Seq<char>, b: Seq<char>)
    ensures
        pieces(a + seq!['/'] + b) == pieces(a) + pieces(b),
        pieces(b).len() > 0,
    decreases b.len(),
{
    let whole = a + seq!['/'] + b;
    if b.len() == 0 {
        assert(whole.drop_last() =~= a);
        assert(pieces(whole) =~= pieces(a) + pieces(b));
    } else {
        assert(whole.drop_last() =~= a + seq!['/'] + b.drop_last());
        assert(whole.last() == b.last());
        lemma_pieces(a, b.drop_last());
        assert(pieces(whole) =~= pieces(a) + pieces(b));
    }
}

proof fn lemma_names_in(a: Seq<Seq<char>>, b: Seq<Seq<char>>)
    ensures
        names_in(a + b) == names_in(a) + names_in(b),
    decreases b.len(),
{
    if b.len() == 0 {
        assert(a + b =~= a);
        assert(names_in(a + b) =~= names_in(a) + names_in(b));
    } else {
        assert((a + b).drop_last() =~= a + b.drop_last());
        assert((a + b).last() == b.last());
        lemma_names_in(a, b.drop_last());
        assert(names_in(a + b) =~= names_in(a) + names_in(b));
    }
}

/// A separator divides the names of a path: those before it come first, then those behind it.
pub proof fn law_separator_divides_names(a: Seq<char>, b: Seq<char>)
    ensures
        path_parts(a + seq!['/'] + b).names == path_parts(a).names + path_parts(b).names,
{
    lemma_pieces(a, b);
    lemma_names_in(pieces(a), pieces(b));
}

/// A text without separators is one name, unless it is empty or a dot.
pub proof fn law_text_without_separator_is_a_name(s: Seq<char>)
    requires
        forall|i: int| 0 <= i < s.len() ==> #[trigger] s[i] != '/',
    ensures
        s.len() == 0 || s == seq!['.'] ==> path_parts(s).names == Seq::<Seq<char>>::empty(),
        s.len() > 0 && s != seq!['.'] ==> path_parts(s).names == seq![s],
{
    lemma_one_piece(s);
    reveal_with_fuel(names_in, 2);
    assert(seq![s].drop_last() =~= Seq::<Seq<char>>::empty());
    if s.len() > 0 && s != seq!['.'] {
        assert(path_parts(s).names =~= seq![s]);
    }
}

proof fn lemma_one_piece(s: Seq<char>)
    requires
        forall|i: int| 0 <= i < s.len() ==> #[trigger] s[i] != '/',
    ensures
        pieces(s) == seq![s],
    decreases s.len(),
{
    if s.len() > 0 {
        lemma_one_piece(s.drop_last());
        assert(s[s.len() - 1] != '/');
        assert(s.drop_last().push(s.last()) =~= s);
        assert(pieces(s) =~= seq![s]);
    } else {
        assert(s =~= Seq::<char>::empty());
    }
}

/// How a path begins makes a difference: at the root, at the current directory or at a name.
pub proof fn law_beginnings_differ(a: Seq<char>, b: Seq<char>)
    requires
        path_parts(a) == path_parts(b),
    ensures
        (a.len() > 0 && a[0] == '/') == (b.len() > 0 && b[0] == '/'),
        (a == seq!['.'] || (a.len() > 1 && a[0] == '.' && a[1] == '/')) == (b == seq!['.'] || (
        b.len() > 1 && b[0] == '.' && b[1] == '/')),
{
    if a.len() == 1 && a[0] == '.' {
        assert(a =~= seq!['.']);
    }
    if b.len() == 1 && b[0] == '.' {
        assert(b =~= seq!['.']);
    }
}

/// Paths with the same names in the same order that begin alike name the same place.
pub proof fn law_same_names_same_place(a: Seq<char>, b: Seq<char>)
    requires
        path_parts(a).names == path_parts(b).names,
        a.len() > 1,
        b.len() > 1,
        a[0] == b[0],
        a[1] == b[1],
    ensures
        path_parts(a) == path_parts(b),
{
}

} // verus!
