//! Text primitives: the parts of `str` that the rest of the crate needs, and a stable sort by a
//! text key.

use vstd::prelude::*;

verus! {

/// The characters of the Unicode property `White_Space`.
pub open spec fn is_white_space(c: char) -> bool {
    let n = c as u32;
    ||| 0x9 <= n <= 0xd
    ||| n == 0x20
    ||| n == 0x85
    ||| n == 0xa0
    ||| n == 0x1680
    ||| 0x2000 <= n <= 0x200a
    ||| n == 0x2028
    ||| n == 0x2029
    ||| n == 0x202f
    ||| n == 0x205f
    ||| n == 0x3000
}

/// `s` without the white space at its front.
pub open spec fn trimmed_start(s: Seq<char>) -> Seq<char>
    decreases s.len(),
{
    if s.len() > 0 && is_white_space(s.first()) {
        trimmed_start(s.drop_first())
    } else {
        s
    }
}

/// `s` without the white space at its end.
pub open spec fn trimmed_end(s: Seq<char>) -> Seq<char>
    decreases s.len(),
{
    if s.len() > 0 && is_white_space(s.last()) {
        trimmed_end(s.drop_last())
    } else {
        s
    }
}

/// `s` without the white space at both ends.
pub open spec fn trimmed(s: Seq<char>) -> Seq<char> {
    trimmed_end(trimmed_start(s))
}

/// `s` holds nothing but white space.
pub open spec fn is_blank(s: Seq<char>) -> bool {
    forall|i: int| 0 <= i < s.len() ==> is_white_space(#[trigger] s[i])
}

proof fn lemma_blank_front(front: Seq<char>, s: Seq<char>)
    requires
        is_blank(front),
    ensures
        trimmed_start(front + s) == trimmed_start(s),
    decreases front.len(),
{
    if front.len() == 0 {
        assert(front + s =~= s);
    } else {
        assert((front + s).first() == front[0]);
        assert((front + s).drop_first() =~= front.drop_first() + s);
        lemma_blank_front(front.drop_first(), s);
    }
}

proof fn lemma_blank_end(s: Seq<char>, back: Seq<char>)
    requires
        is_blank(back),
    ensures
        trimmed_end(s + back) == trimmed_end(s),
    decreases back.len(),
{
    if back.len() == 0 {
        assert(s + back =~= s);
    } else {
        assert((s + back).last() == back[back.len() - 1]);
        assert((s + back).drop_last() =~= s + back.drop_last());
        lemma_blank_end(s, back.drop_last());
    }
}

proof fn lemma_start_before_end(s: Seq<char>, back: Seq<char>)
    requires
        is_blank(back),
    ensures
        trimmed_start(s).len() > 0 ==> trimmed_start(s + back) == trimmed_start(s) + back,
        trimmed_start(s).len() == 0 ==> trimmed_start(s + back).len() == 0,
    decreases s.len(),
{
    if s.len() == 0 {
        assert(s + back =~= back);
        assert(back + Seq::<char>::empty() =~= back);
        lemma_blank_front(back, Seq::empty());
    } else {
        assert((s + back).first() == s.first());
        if is_white_space(s.first()) {
            assert((s + back).drop_first() =~= s.drop_first() + back);
            lemma_start_before_end(s.drop_first(), back);
        }
    }
}

/// White space around a text makes no difference to what is left of it.
pub proof fn lemma_trimmed_between(front: Seq<char>, s: Seq<char>, back: Seq<char>)
    requires
        is_blank(front),
        is_blank(back),
    ensures
        trimmed(front + s + back) == trimmed(s),
{
    assert(front + s + back =~= front + (s + back));
    lemma_blank_front(front, s + back);
    lemma_start_before_end(s, back);
    if trimmed_start(s).len() > 0 {
        lemma_blank_end(trimmed_start(s), back);
    } else {
        assert(trimmed_start(s + back) =~= trimmed_start(s));
    }
}

/// A text that neither begins nor ends with white space is left as it is.
pub proof fn lemma_trimmed_plain(s: Seq<char>)
    requires
        s.len() > 0 ==> !is_white_space(s.first()) && !is_white_space(s.last()),
    ensures
        trimmed(s) == s,
{
    assert(trimmed_start(s) == s);
}

proof fn lemma_trimmed_ends(s: Seq<char>)
    ensures
        trimmed_start(s).len() > 0 ==> !is_white_space(trimmed_start(s).first()),
        trimmed_end(s).len() > 0 ==> !is_white_space(trimmed_end(s).last()),
        trimmed_end(s).len() > 0 ==> trimmed_end(s).first() == s.first(),
    decreases s.len(),
{
    if s.len() > 0 {
        lemma_trimmed_ends(s.drop_first());
        lemma_trimmed_ends(s.drop_last());
    }
}

/// What is left of a text has no more white space at its ends.
pub proof fn lemma_trimmed_twice(s: Seq<char>)
    ensures
        trimmed(trimmed(s)) == trimmed(s),
{
    lemma_trimmed_ends(s);
    lemma_trimmed_ends(trimmed_start(s));
    lemma_trimmed_plain(trimmed(s));
}

/// Nothing is left of a text exactly where it holds nothing but white space.
pub proof fn law_blank_text_leaves_nothing(s: Seq<char>)
    ensures
        trimmed(s).len() == 0 <==> is_blank(s),
{
    if is_blank(s) {
        assert(s + Seq::<char>::empty() + Seq::<char>::empty() =~= s);
        lemma_trimmed_between(s, Seq::empty(), Seq::empty());
    } else {
        lemma_start_of_text(s);
        lemma_end_of_text(trimmed_start(s));
    }
}

proof fn lemma_start_of_text(s: Seq<char>)
    requires
        !is_blank(s),
    ensures
        trimmed_start(s).len() > 0,
        !is_white_space(trimmed_start(s).first()),
    decreases s.len(),
{
    if is_white_space(s.first()) {
        let i = choose|i: int| 0 <= i < s.len() && !is_white_space(#[trigger] s[i]);
        assert(s.drop_first()[i - 1] == s[i]);
        lemma_start_of_text(s.drop_first());
    }
}

proof fn lemma_end_of_text(s: Seq<char>)
    requires
        s.len() > 0,
        !is_white_space(s.first()),
    ensures
        trimmed_end(s).len() > 0,
    decreases s.len(),
{
    if is_white_space(s.last()) {
        assert(s.drop_last().first() == s.first());
        lemma_end_of_text(s.drop_last());
    }
}

/// `part` occurs somewhere in `s`.
pub open spec fn has_part(s: Seq<char>, part: Seq<char>) -> bool {
    exists|i: int| 0 <= i <= s.len() - part.len() && #[trigger] s.subrange(i, i + part.len()) == part
}

/// `s` begins with `prefix`.
pub open spec fn has_prefix(s: Seq<char>, prefix: Seq<char>) -> bool {
    prefix.len() <= s.len() && s.subrange(0, prefix.len() as int) == prefix
}

/// `a` does not come after `b` in the lexicographic order of code points.
pub open spec fn text_le(a: Seq<char>, b: Seq<char>) -> bool
    decreases a.len(),
{
    if a.len() == 0 {
        true
    } else if b.len() == 0 {
        false
    } else if a.first() != b.first() {
        (a.first() as int) < (b.first() as int)
    } else {
        text_le(a.drop_first(), b.drop_first())
    }
}

/// `c` is one of the ten decimal digits.
pub open spec fn is_digit(c: char) -> bool {
    '0' as u32 <= c as u32 <= '9' as u32
}

/// `s` holds nothing but decimal digits.
pub open spec fn all_digits(s: Seq<char>) -> bool {
    forall|i: int| 0 <= i < s.len() ==> is_digit(#[trigger] s[i])
}

/// The number that a row of decimal digits denotes.
pub open spec fn digits_value(s: Seq<char>) -> nat
    decreases s.len(),
{
    if s.len() == 0 {
        0
    } else {
        digits_value(s.drop_last()) * 10 + ((s.last() as u32 - '0' as u32) as nat)
    }
}

/// The number that `s` writes in decimal: at least one digit, with an optional `+` in front.
pub open spec fn decimal(s: Seq<char>) -> Option<nat> {
    let digits = if s.len() > 0 && s.first() == '+' {
        s.drop_first()
    } else {
        s
    };
    if digits.len() > 0 && all_digits(digits) {
        Some(digits_value(digits))
    } else {
        None
    }
}

/// The decimal digit of `n`.
pub open spec fn digit_of(n: nat) -> char {
    ('0' as u32 + n) as char
}

/// `n` in decimal, without zeros in front.
pub open spec fn number_text(n: nat) -> Seq<char>
    decreases n,
{
    if n < 10 {
        seq![digit_of(n)]
    } else {
        number_text(n / 10).push(digit_of(n % 10))
    }
}

/// The decimal digit of `n`.
fn digit_text(n: u64) -> (r: &'static str)
    requires
        n < 10,
    ensures
        r@ == seq![digit_of(n as nat)],
{
    let r = match n {
        0 => "0",
        1 => "1",
        2 => "2",
        3 => "3",
        4 => "4",
        5 => "5",
        6 => "6",
        7 => "7",
        8 => "8",
        _ => "9",
    };
    proof {
        reveal_strlit("0");
        reveal_strlit("1");
        reveal_strlit("2");
        reveal_strlit("3");
        reveal_strlit("4");
        reveal_strlit("5");
        reveal_strlit("6");
        reveal_strlit("7");
        reveal_strlit("8");
        reveal_strlit("9");
        assert(r@ =~= seq![digit_of(n as nat)]);
    }
    r
}

/// Writes a number in decimal.
pub(crate) fn written_number(n: u64) -> (r: String)
    ensures
        r@ == number_text(n as nat),
    decreases n,
{
    if n < 10 {
        digit_text(n).to_owned()
    } else {
        let mut text = written_number(n / 10);
        let ghost front = text@;
        text.append(digit_text(n % 10));
        assert(text@ =~= front.push(digit_of((n % 10) as nat)));
        text
    }
}

/// `s` holds ASCII characters only.
pub open spec fn is_ascii(s: Seq<char>) -> bool {
    forall|i: int| 0 <= i < s.len() ==> (#[trigger] s[i] as u32) < 0x80
}

/// `c` with the case of an ASCII letter made lower.
pub open spec fn lower_char(c: char) -> char {
    if 'A' as u32 <= c as u32 <= 'Z' as u32 {
        (c as u32 + 32) as char
    } else {
        c
    }
}

/// `c` with the case of an ASCII letter made upper.
pub open spec fn upper_char(c: char) -> char {
    if 'a' as u32 <= c as u32 <= 'z' as u32 {
        (c as u32 - 32) as char
    } else {
        c
    }
}

/// `s` with the case of its ASCII letters made lower.
pub open spec fn ascii_lower(s: Seq<char>) -> Seq<char> {
    s.map_values(|c: char| lower_char(c))
}

/// `s` with the case of its ASCII letters made upper.
pub open spec fn ascii_upper(s: Seq<char>) -> Seq<char> {
    s.map_values(|c: char| upper_char(c))
}

/// Changing the case of ASCII letters first makes no difference to the text in lower case.
pub proof fn lemma_ascii_case(s: Seq<char>)
    requires
        is_ascii(s),
    ensures
        is_ascii(ascii_lower(s)),
        is_ascii(ascii_upper(s)),
        ascii_lower(ascii_upper(s)) == ascii_lower(s),
        ascii_lower(ascii_lower(s)) == ascii_lower(s),
{
    assert forall|i: int| 0 <= i < s.len() implies (#[trigger] ascii_lower(s)[i] as u32) < 0x80 by {
        assert((s[i] as u32) < 0x80);
    }
    assert forall|i: int| 0 <= i < s.len() implies (#[trigger] ascii_upper(s)[i] as u32) < 0x80 by {
        assert((s[i] as u32) < 0x80);
    }
    assert(ascii_lower(ascii_upper(s)) =~= ascii_lower(s));
    assert(ascii_lower(ascii_lower(s)) =~= ascii_lower(s));
}

/// A part of a text is a part of every text around it.
pub proof fn lemma_part_stays(front: Seq<char>, s: Seq<char>, back: Seq<char>, part: Seq<char>)
    ensures
        has_part(s, part) ==> has_part(front + s + back, part),
{
    if has_part(s, part) {
        let i = choose|i: int|
            0 <= i <= s.len() - part.len() && #[trigger] s.subrange(i, i + part.len()) == part;
        let longer = front + s + back;
        let j = front.len() + i;
        assert(longer.subrange(j, j + part.len()) =~= s.subrange(i, i + part.len()));
    }
}

/// What `str::to_lowercase` makes of a text.
pub uninterp spec fn lowercase_of(s: Seq<char>) -> Seq<char>;

/// `str::trim`: drops the leading and trailing characters that are `White_Space`.
#[verifier::external_body]
pub(crate) fn trim(s: &str) -> (r: &str)
    ensures
        r@ == trimmed(s@),
{
    s.trim()
}

/// `str::contains` with a text as its pattern: whether the pattern is a part of the text.
#[verifier::external_body]
pub(crate) fn contains(s: &str, part: &str) -> (r: bool)
    ensures
        r == has_part(s@, part@),
{
    s.contains(part)
}

/// `str::starts_with` with a text as its pattern: whether the pattern is a prefix of the text.
#[verifier::external_body]
pub(crate) fn starts_with(s: &str, prefix: &str) -> (r: bool)
    ensures
        r == has_prefix(s@, prefix@),
{
    s.starts_with(prefix)
}

/// `<=` on `str`: texts are ordered lexicographically by code point.
#[verifier::external_body]
pub(crate) fn at_most(a: &str, b: &str) -> (r: bool)
    ensures
        r == text_le(a@, b@),
{
    a <= b
}

/// `str::to_lowercase`: the result is a function of the text alone, named [`lowercase_of`]. In a
/// text of ASCII characters the letters are made lower, and nothing else changes.
#[verifier::external_body]
pub(crate) fn lowercase(s: &str) -> (r: String)
    ensures
        r@ == lowercase_of(s@),
        is_ascii(s@) ==> r@ == ascii_lower(s@),
{
    s.to_lowercase()
}

/// `str::parse::<usize>`: an optional `+` followed by decimal digits only, when the number fits.
#[verifier::external_body]
pub(crate) fn parse_usize(s: &str) -> (r: Option<usize>)
    ensures
        match r {
            Some(n) => decimal(s@) == Some(n as nat),
            None => decimal(s@) is None || decimal(s@)->0 > usize::MAX,
        },
{
    s.parse::<usize>().ok()
}

/// Whether two texts hold the same characters.
pub(crate) fn same(a: &str, b: &str) -> (r: bool)
    ensures
        r == (a@ == b@),
{
    a.to_owned() == b.to_owned()
}

/// The two texts one after the other.
pub(crate) fn joined(a: &str, b: &str) -> (r: String)
    ensures
        r@ == a@ + b@,
{
    let mut text = a.to_owned();
    text.append(b);
    text
}

/// The three texts one after the other.
pub(crate) fn joined3(a: &str, b: &str, c: &str) -> (r: String)
    ensures
        r@ == a@ + b@ + c@,
{
    let mut text = joined(a, b);
    text.append(c);
    text
}

/// The path of `leaf` below the directory `base`: a separator is put between the two unless
/// `base` is empty or already ends in one.
pub open spec fn path_below(base: Seq<char>, leaf: Seq<char>) -> Seq<char> {
    if base.len() == 0 || base.last() == '/' {
        base + leaf
    } else {
        base + "/"@ + leaf
    }
}

/// The path below a directory begins with the directory and ends with what lies below it; a
/// separator stands between the two, and none is added where there is one.
pub proof fn law_path_below(base: Seq<char>, leaf: Seq<char>)
    ensures
        ({
            let path = path_below(base, leaf);
            let at = path.len() - leaf.len();
            &&& at >= base.len()
            &&& path.take(base.len() as int) == base
            &&& path.skip(at) == leaf
            &&& base.len() == 0 ==> path == leaf
            &&& base.len() > 0 ==> path[at - 1] == '/'
            &&& path.len() <= base.len() + leaf.len() + 1
            &&& base.len() > 0 && base.last() == '/' ==> path.len() == base.len() + leaf.len()
        }),
{
    reveal_strlit("/");
    let path = path_below(base, leaf);
    let at = path.len() - leaf.len();
    assert(path.take(base.len() as int) =~= base);
    assert(path.skip(at) =~= leaf);
    if base.len() == 0 {
        assert(path =~= leaf);
    }
}

/// Joins a relative path to a directory.
pub(crate) fn join_path(base: &str, leaf: &str) -> (r: String)
    ensures
        r@ == path_below(base@, leaf@),
{
    let n: usize = base.unicode_len();
    if n == 0 || base.get_char(n - 1) == '/' {
        joined(base, leaf)
    } else {
        joined3(base, "/", leaf)
    }
}

/// A value that is listed in the order of a text.
pub trait SortKey {
    /// The text that decides the order.
    spec fn sort_key(&self) -> Seq<char>;

    /// Hands out the text that decides the order.
    fn sort_text(&self) -> (r: &str)
        ensures
            r@ == self.sort_key(),
    ;
}

/// `s`, which is in order, with `x` put behind the last value whose key does not come after
/// that of `x`.
pub open spec fn inserted<T: SortKey>(s: Seq<T>, x: T) -> Seq<T>
    decreases s.len(),
{
    if s.len() == 0 || text_le(s.last().sort_key(), x.sort_key()) {
        s.push(x)
    } else {
        inserted(s.drop_last(), x).push(s.last())
    }
}

/// The values of `s` in the order of their keys; values with one key keep their order.
pub open spec fn stable_sorted<T: SortKey>(s: Seq<T>) -> Seq<T>
    decreases s.len(),
{
    if s.len() == 0 {
        s
    } else {
        inserted(stable_sorted(s.drop_last()), s.last())
    }
}

/// No value of `s` comes after a later one.
pub open spec fn in_order<T: SortKey>(s: Seq<T>) -> bool {
    forall|i: int, j: int|
        0 <= i <= j < s.len() ==> text_le(#[trigger] s[i].sort_key(), #[trigger] s[j].sort_key())
}

pub proof fn lemma_text_le_reflexive(a: Seq<char>)
    ensures
        text_le(a, a),
    decreases a.len(),
{
    if a.len() > 0 {
        lemma_text_le_reflexive(a.drop_first());
    }
}

pub proof fn lemma_text_le_total(a: Seq<char>, b: Seq<char>)
    ensures
        text_le(a, b) || text_le(b, a),
    decreases a.len(),
{
    if a.len() > 0 && b.len() > 0 {
        lemma_text_le_total(a.drop_first(), b.drop_first());
    }
}

pub proof fn lemma_text_le_transitive(a: Seq<char>, b: Seq<char>, c: Seq<char>)
    requires
        text_le(a, b),
        text_le(b, c),
    ensures
        text_le(a, c),
    decreases a.len(),
{
    if a.len() > 0 && a.first() == b.first() && b.first() == c.first() {
        lemma_text_le_transitive(a.drop_first(), b.drop_first(), c.drop_first());
    }
}

proof fn lemma_inserted<T: SortKey>(s: Seq<T>, x: T)
    requires
        in_order(s),
    ensures
        in_order(inserted(s, x)),
        inserted(s, x).to_multiset() =~= s.to_multiset().insert(x),
        inserted(s, x).len() == s.len() + 1,
        forall|y: T| #[trigger]
            inserted(s, x).contains(y) ==> s.contains(y) || y == x,
    decreases s.len(),
{
    broadcast use vstd::seq_lib::group_to_multiset_ensures;

    if s.len() == 0 || text_le(s.last().sort_key(), x.sort_key()) {
        let r = s.push(x);
        assert forall|i: int, j: int| 0 <= i <= j < r.len() implies text_le(
            #[trigger] r[i].sort_key(),
            #[trigger] r[j].sort_key(),
        ) by {
            if j == s.len() {
                if i == j {
                    lemma_text_le_reflexive(x.sort_key());
                } else {
                    assert(text_le(s[i].sort_key(), s[s.len() - 1].sort_key()));
                    lemma_text_le_transitive(
                        s[i].sort_key(),
                        s.last().sort_key(),
                        x.sort_key(),
                    );
                }
            }
        }
        assert forall|y: T| #[trigger] r.contains(y) implies s.contains(y) || y == x by {
            let k = choose|k: int| 0 <= k < r.len() && r[k] == y;
            if k < s.len() {
                assert(s[k] == y);
            }
        }
    } else {
        let front = s.drop_last();
        let last = s.last();
        lemma_text_le_total(last.sort_key(), x.sort_key());
        lemma_inserted(front, x);
        let inner = inserted(front, x);
        let r = inner.push(last);
        assert(s =~= front.push(last));
        assert forall|i: int, j: int| 0 <= i <= j < r.len() implies text_le(
            #[trigger] r[i].sort_key(),
            #[trigger] r[j].sort_key(),
        ) by {
            if j == inner.len() {
                if i == j {
                    lemma_text_le_reflexive(last.sort_key());
                } else {
                    assert(inner.contains(inner[i]));
                    if inner[i] != x {
                        assert(front.contains(inner[i]));
                        let k = choose|k: int| 0 <= k < front.len() && front[k] == inner[i];
                        assert(text_le(s[k].sort_key(), s[s.len() - 1].sort_key()));
                    }
                }
            }
        }
        assert(front.to_multiset().insert(x).insert(last) =~= front.to_multiset().insert(
            last,
        ).insert(x));
        assert forall|y: T| #[trigger] r.contains(y) implies s.contains(y) || y == x by {
            let k = choose|k: int| 0 <= k < r.len() && r[k] == y;
            if k < inner.len() {
                assert(inner.contains(y));
                if y != x {
                    let m = choose|m: int| 0 <= m < front.len() && front[m] == y;
                    assert(s[m] == y);
                }
            } else {
                assert(s[s.len() - 1] == y);
            }
        }
    }
}

/// Sorting puts the values in order and neither loses nor adds one.
pub proof fn lemma_stable_sorted<T: SortKey>(s: Seq<T>)
    ensures
        in_order(stable_sorted(s)),
        stable_sorted(s).to_multiset() =~= s.to_multiset(),
        stable_sorted(s).len() == s.len(),
    decreases s.len(),
{
    broadcast use vstd::seq_lib::group_to_multiset_ensures;

    if s.len() > 0 {
        lemma_stable_sorted(s.drop_last());
        lemma_inserted(stable_sorted(s.drop_last()), s.last());
        assert(s =~= s.drop_last().push(s.last()));
    }
}

/// Sorting keeps the order of values with the same key.
pub proof fn law_sort_is_stable<T: SortKey>(s: Seq<T>, key: Seq<char>)
    ensures
        stable_sorted(s).filter(|x: T| x.sort_key() == key) == s.filter(
            |x: T| x.sort_key() == key,
        ),
    decreases s.len(),
{
    reveal(Seq::filter);
    if s.len() > 0 {
        law_sort_is_stable(s.drop_last(), key);
        lemma_stable_sorted(s.drop_last());
        lemma_inserted_filter(stable_sorted(s.drop_last()), s.last(), key);
    }
}

proof fn lemma_inserted_filter<T: SortKey>(s: Seq<T>, x: T, key: Seq<char>)
    requires
        in_order(s),
    ensures
        inserted(s, x).filter(|y: T| y.sort_key() == key) == if x.sort_key() == key {
            s.filter(|y: T| y.sort_key() == key).push(x)
        } else {
            s.filter(|y: T| y.sort_key() == key)
        },
    decreases s.len(),
{
    reveal(Seq::filter);
    if s.len() == 0 || text_le(s.last().sort_key(), x.sort_key()) {
        assert(s.push(x).drop_last() =~= s);
    } else {
        let front = s.drop_last();
        lemma_inserted_filter(front, x, key);
        assert(inserted(front, x).push(s.last()).drop_last() =~= inserted(front, x));
        if x.sort_key() == key && s.last().sort_key() == key {
            lemma_text_le_reflexive(key);
        }
    }
}

/// A number in decimal has digits only, no zero in front of others, and the digits stand for the
/// number.
pub proof fn law_number_text(n: nat)
    ensures
        decimal(number_text(n)) == Some(n),
        number_text(n).len() > 0,
        forall|i: int| 0 <= i < number_text(n).len() ==> is_digit(#[trigger] number_text(n)[i]),
        number_text(n).len() > 1 ==> number_text(n)[0] != '0',
    decreases n,
{
    lemma_number_text(n);
    let s = number_text(n);
    assert(is_digit(s[0]));
    assert(s.first() != '+');
}

proof fn lemma_number_text(n: nat)
    ensures
        number_text(n).len() > 0,
        forall|i: int| 0 <= i < number_text(n).len() ==> is_digit(#[trigger] number_text(n)[i]),
        digits_value(number_text(n)) == n,
        n > 0 ==> number_text(n)[0] != '0',
    decreases n,
{
    if n < 10 {
        let s = seq![digit_of(n)];
        assert(s.drop_last() =~= Seq::<char>::empty());
        reveal_with_fuel(digits_value, 2);
    } else {
        lemma_number_text(n / 10);
        let front = number_text(n / 10);
        let s = front.push(digit_of(n % 10));
        assert(s.drop_last() =~= front);
        assert(s[0] == front[0]);
    }
}

/// Sorts by key; values with one key keep their order.
pub(crate) fn sort_by_text<T: SortKey>(values: Vec<T>) -> (r: Vec<T>)
    ensures
        r@ == stable_sorted(values@),
        in_order(r@),
        r@.to_multiset() =~= values@.to_multiset(),
        r@.len() == values@.len(),
{
    let ghost all = values@;
    let mut rest = values;
    let mut sorted: Vec<T> = Vec::new();
    assert(all.take(0) =~= Seq::<T>::empty());
    while rest.len() > 0
        invariant
            rest@.len() <= all.len(),
            rest@ == all.skip(all.len() - rest@.len()),
            sorted@ == stable_sorted(all.take(all.len() - rest@.len())),
        decreases rest@.len(),
    {
        let ghost done = all.len() - rest@.len();
        let x = rest.remove(0);
        let ghost before = sorted@;
        let mut j: usize = sorted.len();
        assert(before.take(j as int) =~= before);
        assert(inserted(before, x) =~= inserted(before, x) + before.skip(j as int));
        while j > 0 && !at_most(sorted[j - 1].sort_text(), x.sort_text())
            invariant
                j <= sorted.len(),
                sorted@ == before,
                inserted(before, x) == inserted(before.take(j as int), x) + before.skip(j as int),
            decreases j,
        {
            proof {
                let part = before.take(j as int);
                assert(part.drop_last() =~= before.take(j - 1));
                assert(part.last() == before[j - 1]);
                assert(inserted(before, x) =~= inserted(before.take(j - 1), x) + before.skip(j - 1));
            }
            j = j - 1;
        }
        sorted.insert(j, x);
        proof {
            let part = before.take(j as int);
            if j > 0 {
                assert(part.last() == before[j - 1]);
            }
            assert(inserted(part, x) == part.push(x));
            assert(sorted@ =~= part.push(x) + before.skip(j as int));
            let next = all.take(done + 1);
            assert(next.drop_last() =~= all.take(done as int));
            assert(next.last() == x);
            assert(sorted@ =~= stable_sorted(next));
            assert(rest@ =~= all.skip(done + 1));
        }
    }
    proof {
        assert(all.take(all.len() as int) =~= all);
        lemma_stable_sorted(all);
    }
    sorted
}

} // verus!
