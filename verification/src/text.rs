//! Strings as sequences of characters: searching, trimming and replacing.
use vstd::prelude::*;

verus! {

/// `String::push` appends one character at the end of the string and leaves
/// the characters before it as they were.
pub assume_specification[ String::push ](s: &mut String, c: char)
    ensures
        final(s)@ == old(s)@.push(c),
;

/// What the strings of a list hold.
pub open spec fn views(list: Seq<String>) -> Seq<Seq<char>> {
    Seq::new(list.len(), |i: int| list[i]@)
}

/// `p` stands in `s` from position `i` on.
pub open spec fn occurs_at(s: Seq<char>, p: Seq<char>, i: int) -> bool {
    0 <= i && i + p.len() <= s.len() && s.subrange(i, i + p.len()) == p
}

/// `p` stands somewhere in `s`.
pub open spec fn occurs_in(p: Seq<char>, s: Seq<char>) -> bool {
    exists|i: int| occurs_at(s, p, i)
}

/// `s` without the copies of `c` in front of it.
pub open spec fn without_leading(s: Seq<char>, c: char) -> Seq<char>
    decreases s.len(),
{
    if s.len() > 0 && s[0] == c {
        without_leading(s.drop_first(), c)
    } else {
        s
    }
}

/// `s` without the copies of `c` behind it.
pub open spec fn without_trailing(s: Seq<char>, c: char) -> Seq<char>
    decreases s.len(),
{
    if s.len() > 0 && s.last() == c {
        without_trailing(s.drop_last(), c)
    } else {
        s
    }
}

/// `s` without any `c`.
pub open spec fn without_char(s: Seq<char>, c: char) -> Seq<char> {
    s.filter(|x: char| x != c)
}

/// The characters with the Unicode property `White_Space`.
pub open spec fn is_space(c: char) -> bool {
    ||| '\u{9}' <= c <= '\u{d}'
    ||| c == '\u{20}'
    ||| c == '\u{85}'
    ||| c == '\u{a0}'
    ||| c == '\u{1680}'
    ||| '\u{2000}' <= c <= '\u{200a}'
    ||| c == '\u{2028}'
    ||| c == '\u{2029}'
    ||| c == '\u{202f}'
    ||| c == '\u{205f}'
    ||| c == '\u{3000}'
}

/// `s` without the white space at its ends.
pub open spec fn trimmed(s: Seq<char>) -> Seq<char>
    decreases s.len(),
{
    if s.len() > 0 && is_space(s[0]) {
        trimmed(s.drop_first())
    } else if s.len() > 0 && is_space(s.last()) {
        trimmed(s.drop_last())
    } else {
        s
    }
}

/// `s` with each occurrence of `p` replaced by `w`, taking the occurrences
/// from left to right and none that overlaps one already taken.
pub open spec fn replaced(s: Seq<char>, p: Seq<char>, w: Seq<char>) -> Seq<char>
    decreases s.len(),
{
    if p.len() == 0 || s.len() < p.len() {
        s
    } else if occurs_at(s, p, 0) {
        w + replaced(s.skip(p.len() as int), p, w)
    } else {
        seq![s[0]] + replaced(s.drop_first(), p, w)
    }
}

/// The pieces of `s` between the copies of `c`, which stand in none of them.
pub open spec fn pieces(s: Seq<char>, c: char) -> Seq<Seq<char>>
    decreases s.len(),
{
    if s.len() == 0 {
        seq![Seq::empty()]
    } else {
        let before = pieces(s.drop_last(), c);
        if s.last() == c {
            before.push(Seq::empty())
        } else {
            before.drop_last().push(before.last().push(s.last()))
        }
    }
}

/// The characters of `s`, in order.
pub fn to_chars(s: &str) -> (r: Vec<char>)
    ensures
        r@ == s@,
{
    let mut out: Vec<char> = Vec::new();
    for c in it: s.chars()
        invariant
            out@ == s@.take(it.index()),
            it.seq() == s@,
    {
        out.push(c);
    }
    out
}

/// The string of the characters from position `from` up to `to`.
pub fn string_of(chars: &Vec<char>, from: usize, to: usize) -> (r: String)
    requires
        from <= to <= chars.len(),
    ensures
        r@ == chars@.subrange(from as int, to as int),
{
    let mut out = String::new();
    for i in from..to
        invariant
            from <= to <= chars.len(),
            from <= i <= to,
            out@ == chars@.subrange(from as int, i as int),
    {
        out.push(chars[i]);
    }
    out
}

/// Whether `p` stands in `s` from position `at` on.
pub fn matches_at(s: &Vec<char>, p: &Vec<char>, at: usize) -> (r: bool)
    requires
        at <= s.len(),
    ensures
        r == occurs_at(s@, p@, at as int),
{
    if s.len() - at < p.len() {
        return false;
    }
    for i in 0..p.len()
        invariant
            at + p.len() <= s.len(),
            forall|k: int| 0 <= k < i ==> s@[at + k] == #[trigger] p@[k],
    {
        if s[at + i] != p[i] {
            proof {
                assert(s@.subrange(at as int, at + p@.len())[i as int] != p@[i as int]);
            }
            return false;
        }
    }
    assert(s@.subrange(at as int, at + p@.len()) =~= p@);
    true
}

/// Whether `s` begins with `p`.
pub fn starts_with(s: &str, p: &str) -> (r: bool)
    ensures
        r == occurs_at(s@, p@, 0),
{
    matches_at(&to_chars(s), &to_chars(p), 0)
}

/// Whether `p` stands anywhere in `s`.
pub fn contains(s: &str, p: &str) -> (r: bool)
    ensures
        r == occurs_in(p@, s@),
{
    let chars = to_chars(s);
    let pat = to_chars(p);
    if chars.len() < pat.len() {
        return false;
    }
    let last: usize = chars.len() - pat.len();
    let mut i: usize = 0;
    while i <= last
        invariant
            chars@ == s@,
            pat@ == p@,
            last == chars.len() - pat.len(),
            i <= last + 1,
            forall|k: int| 0 <= k < i ==> !occurs_at(s@, p@, k),
        decreases last + 1 - i,
    {
        if matches_at(&chars, &pat, i) {
            return true;
        }
        if i == last {
            return false;
        }
        i = i + 1;
    }
    false
}

/// Whether a character is white space.
pub fn is_white_space(c: char) -> (r: bool)
    ensures
        r == is_space(c),
{
    ('\u{9}' <= c && c <= '\u{d}') || c == '\u{20}' || c == '\u{85}' || c == '\u{a0}'
        || c == '\u{1680}' || ('\u{2000}' <= c && c <= '\u{200a}') || c == '\u{2028}'
        || c == '\u{2029}' || c == '\u{202f}' || c == '\u{205f}' || c == '\u{3000}'
}

/// `s` without the white space at its ends.
pub fn trim(s: &str) -> (r: String)
    ensures
        r@ == trimmed(s@),
{
    let chars = to_chars(s);
    let mut i: usize = 0;
    let mut j: usize = chars.len();
    assert(s@.subrange(0, j as int) =~= s@);
    while i < j && is_white_space(chars[i])
        invariant
            i <= j == chars.len(),
            chars@ == s@,
            trimmed(s@) == trimmed(s@.subrange(i as int, j as int)),
        decreases j - i,
    {
        assert(s@.subrange(i as int, j as int).drop_first() =~= s@.subrange(i + 1, j as int));
        i = i + 1;
    }
    while i < j && is_white_space(chars[j - 1])
        invariant
            i <= j <= chars.len(),
            chars@ == s@,
            i < j ==> !is_space(s@[i as int]),
            trimmed(s@) == trimmed(s@.subrange(i as int, j as int)),
        decreases j,
    {
        assert(s@.subrange(i as int, j as int).drop_last() =~= s@.subrange(i as int, j - 1));
        j = j - 1;
    }
    string_of(&chars, i, j)
}

/// `s` without the copies of `c` in front of it.
pub fn trim_start_matches(s: &str, c: char) -> (r: String)
    ensures
        r@ == without_leading(s@, c),
{
    let chars = to_chars(s);
    let mut i: usize = 0;
    assert(s@.skip(0) =~= s@);
    while i < chars.len() && chars[i] == c
        invariant
            i <= chars.len(),
            chars@ == s@,
            without_leading(s@, c) == without_leading(s@.skip(i as int), c),
        decreases chars.len() - i,
    {
        assert(s@.skip(i as int).drop_first() =~= s@.skip(i + 1));
        i = i + 1;
    }
    assert(chars@.subrange(i as int, chars@.len() as int) =~= s@.skip(i as int));
    string_of(&chars, i, chars.len())
}

/// `s` without the copies of `c` behind it.
pub fn trim_end_matches(s: &str, c: char) -> (r: String)
    ensures
        r@ == without_trailing(s@, c),
{
    let chars = to_chars(s);
    let mut j: usize = chars.len();
    assert(s@.take(j as int) =~= s@);
    while 0 < j && chars[j - 1] == c
        invariant
            j <= chars.len(),
            chars@ == s@,
            without_trailing(s@, c) == without_trailing(s@.take(j as int), c),
        decreases j,
    {
        assert(s@.take(j as int).drop_last() =~= s@.take(j - 1));
        j = j - 1;
    }
    assert(chars@.subrange(0, j as int) =~= s@.take(j as int));
    string_of(&chars, 0, j)
}

/// `s` without any `c`.
pub fn remove_char(s: &str, c: char) -> (r: String)
    ensures
        r@ == without_char(s@, c),
{
    let chars = to_chars(s);
    let mut out = String::new();
    for i in 0..chars.len()
        invariant
            out@ == without_char(chars@.take(i as int), c),
    {
        proof {
            reveal(Seq::filter);
            assert(chars@.take(i + 1).drop_last() =~= chars@.take(i as int));
        }
        if chars[i] != c {
            out.push(chars[i]);
        }
    }
    assert(chars@.take(chars@.len() as int) =~= s@);
    out
}

/// `s` with each occurrence of `p` replaced by `w`.
pub fn replace(s: &str, p: &str, w: &str) -> (r: String)
    requires
        p@.len() > 0,
    ensures
        r@ == replaced(s@, p@, w@),
{
    let chars = to_chars(s);
    let pat = to_chars(p);
    let mut out = String::new();
    let mut i: usize = 0;
    assert(s@.skip(0) =~= s@);
    while i < chars.len()
        invariant
            chars@ == s@,
            pat@ == p@,
            p@.len() > 0,
            i <= chars.len(),
            replaced(s@, p@, w@) =~= out@ + replaced(s@.skip(i as int), p@, w@),
        decreases chars.len() - i,
    {
        let ghost rest = s@.skip(i as int);
        if matches_at(&chars, &pat, i) {
            proof {
                assert(rest.subrange(0, p@.len() as int) =~= s@.subrange(
                    i as int,
                    i + p@.len(),
                ));
                assert(rest.skip(p@.len() as int) =~= s@.skip(i + p@.len()));
            }
            out.append(w);
            i = i + pat.len();
        } else {
            proof {
                if occurs_at(rest, p@, 0) {
                    assert(rest.subrange(0, p@.len() as int) =~= s@.subrange(
                        i as int,
                        i + p@.len(),
                    ));
                }
                assert(rest.drop_first() =~= s@.skip(i + 1));
                if rest.len() < p@.len() {
                    lemma_short_is_kept(rest.drop_first(), p@, w@);
                    assert(rest =~= seq![rest[0]] + rest.drop_first());
                }
            }
            out.push(chars[i]);
            i = i + 1;
        }
    }
    assert(s@.skip(i as int).len() == 0);
    out
}

/// The pieces of `s` between the copies of `c`.
pub fn split(s: &str, c: char) -> (r: Vec<String>)
    ensures
        views(r@) == pieces(s@, c),
        r.len() > 0,
{
    let mut done: Vec<String> = Vec::new();
    let mut piece = String::new();
    let chars = to_chars(s);
    assert(views(done@).push(piece@) =~= pieces(s@.take(0), c));
    for i in 0..chars.len()
        invariant
            chars@ == s@,
            views(done@).push(piece@) == pieces(s@.take(i as int), c),
    {
        let ghost before = views(done@).push(piece@);
        assert(s@.take(i + 1).drop_last() =~= s@.take(i as int));
        assert(before.drop_last() =~= views(done@));
        if chars[i] == c {
            done.push(piece);
            assert(views(done@) =~= before);
            piece = String::new();
        } else {
            piece.push(chars[i]);
        }
    }
    assert(s@.take(s@.len() as int) =~= s@);
    let ghost all = views(done@).push(piece@);
    done.push(piece);
    assert(views(done@) =~= all);
    done
}

/// A text shorter than the pattern is kept.
proof fn lemma_short_is_kept(s: Seq<char>, p: Seq<char>, w: Seq<char>)
    requires
        s.len() < p.len(),
    ensures
        replaced(s, p, w) == s,
{
}

/// Trimming leaves no white space at the ends, and trimming again changes
/// nothing.
pub proof fn law_trimmed(s: Seq<char>)
    ensures
        trimmed(s).len() > 0 ==> !is_space(trimmed(s)[0]) && !is_space(trimmed(s).last()),
        trimmed(trimmed(s)) == trimmed(s),
    decreases s.len(),
{
    if s.len() > 0 && is_space(s[0]) {
        law_trimmed(s.drop_first());
    } else if s.len() > 0 && is_space(s.last()) {
        law_trimmed(s.drop_last());
    }
}

/// One more character that is cut off makes no difference behind a text.
pub proof fn law_trailing_is_ignored(s: Seq<char>, c: char)
    ensures
        without_trailing(s.push(c), c) == without_trailing(s, c),
{
    assert(s.push(c).drop_last() =~= s);
}

/// One more character that is cut off makes no difference in front of a text.
pub proof fn law_leading_is_ignored(s: Seq<char>, c: char)
    ensures
        without_leading(seq![c] + s, c) == without_leading(s, c),
{
    assert((seq![c] + s).drop_first() =~= s);
}

/// What is cut off at the end is gone.
pub proof fn law_without_trailing(s: Seq<char>, c: char)
    ensures
        without_trailing(s, c).len() > 0 ==> without_trailing(s, c).last() != c,
        without_trailing(without_trailing(s, c), c) == without_trailing(s, c),
    decreases s.len(),
{
    if s.len() > 0 && s.last() == c {
        law_without_trailing(s.drop_last(), c);
    }
}

/// A text in which the pattern does not occur is kept.
pub proof fn law_nothing_to_replace(s: Seq<char>, p: Seq<char>, w: Seq<char>)
    requires
        !occurs_in(p, s),
    ensures
        replaced(s, p, w) == s,
    decreases s.len(),
{
    if p.len() > 0 && s.len() >= p.len() {
        assert(!occurs_at(s, p, 0));
        let rest = s.drop_first();
        assert forall|i: int| !occurs_at(rest, p, i) by {
            if occurs_at(rest, p, i) {
                assert(s.subrange(i + 1, i + 1 + p.len()) =~= rest.subrange(i, i + p.len()));
                assert(occurs_at(s, p, i + 1));
            }
        }
        law_nothing_to_replace(rest, p, w);
        assert(seq![s[0]] + rest =~= s);
    }
}

/// The first occurrence of the pattern is replaced, and the replacing goes on
/// behind it.
pub proof fn law_first_is_replaced(a: Seq<char>, p: Seq<char>, b: Seq<char>, w: Seq<char>)
    requires
        p.len() > 0,
        forall|i: int| 0 <= i < a.len() ==> !occurs_at(a + p + b, p, i),
    ensures
        replaced(a + p + b, p, w) == a + w + replaced(b, p, w),
    decreases a.len(),
{
    let s = a + p + b;
    if a.len() == 0 {
        assert(s.subrange(0, p.len() as int) =~= p);
        assert(s.skip(p.len() as int) =~= b);
        assert(a + w + replaced(b, p, w) =~= w + replaced(b, p, w));
    } else {
        let rest = a.drop_first();
        assert(s.drop_first() =~= rest + p + b);
        assert forall|i: int| 0 <= i < rest.len() implies !occurs_at(rest + p + b, p, i) by {
            if occurs_at(rest + p + b, p, i) {
                assert(s.subrange(i + 1, i + 1 + p.len()) =~= (rest + p + b).subrange(
                    i,
                    i + p.len(),
                ));
                assert(occurs_at(s, p, i + 1));
            }
        }
        law_first_is_replaced(rest, p, b, w);
        assert(!occurs_at(s, p, 0));
        assert(seq![s[0]] + (rest + w + replaced(b, p, w)) =~= a + w + replaced(b, p, w));
    }
}

/// The front of the result, up to a length in which the first character of
/// the replacement does not stand, is the front of the text.
proof fn lemma_front_is_kept(s: Seq<char>, p: Seq<char>, w: Seq<char>, n: int)
    requires
        w.len() > 0,
        0 <= n <= replaced(s, p, w).len(),
        forall|k: int| 0 <= k < n ==> #[trigger] replaced(s, p, w)[k] != w[0],
    ensures
        n <= s.len(),
        s.take(n) == replaced(s, p, w).take(n),
    decreases s.len(),
{
    let r = replaced(s, p, w);
    if p.len() == 0 || s.len() < p.len() {
    } else if occurs_at(s, p, 0) {
        if n > 0 {
            assert(r[0] == w[0]);
        }
        assert(s.take(n) =~= r.take(n));
    } else if n > 0 {
        let rest = replaced(s.drop_first(), p, w);
        assert forall|k: int| 0 <= k < n - 1 implies #[trigger] rest[k] != w[0] by {
            assert(r[k + 1] == rest[k]);
        }
        lemma_front_is_kept(s.drop_first(), p, w, n - 1);
        assert forall|k: int| 0 <= k < n implies s[k] == r[k] by {
            if k > 0 {
                assert(s.drop_first().take(n - 1)[k - 1] == rest.take(n - 1)[k - 1]);
            }
        }
        assert(s.take(n) =~= r.take(n));
    } else {
        assert(s.take(n) =~= r.take(n));
    }
}

/// No occurrence of the pattern is left, where the replacement does not hold
/// the pattern and neither begins nor ends with a character of it.
pub proof fn law_none_is_left(s: Seq<char>, p: Seq<char>, w: Seq<char>)
    requires
        p.len() > 0,
        w.len() > 0,
        !occurs_in(p, w),
        !p.contains(w[0]),
        !p.contains(w.last()),
    ensures
        !occurs_in(p, replaced(s, p, w)),
    decreases s.len(),
{
    let r = replaced(s, p, w);
    if s.len() < p.len() {
    } else if occurs_at(s, p, 0) {
        let rest = replaced(s.skip(p.len() as int), p, w);
        law_none_is_left(s.skip(p.len() as int), p, w);
        assert forall|i: int| !occurs_at(r, p, i) by {
            if occurs_at(r, p, i) {
                if i >= w.len() {
                    assert(rest.subrange(i - w.len(), i - w.len() + p.len()) =~= r.subrange(
                        i,
                        i + p.len(),
                    ));
                    assert(occurs_at(rest, p, i - w.len()));
                } else if i + p.len() <= w.len() {
                    assert(w.subrange(i, i + p.len()) =~= r.subrange(i, i + p.len()));
                    assert(occurs_at(w, p, i));
                } else {
                    assert(r.subrange(i, i + p.len())[w.len() - 1 - i] == w.last());
                    assert(p[w.len() - 1 - i] == w.last());
                }
            }
        }
    } else {
        let rest = replaced(s.drop_first(), p, w);
        law_none_is_left(s.drop_first(), p, w);
        assert forall|i: int| !occurs_at(r, p, i) by {
            if occurs_at(r, p, i) {
                if i >= 1 {
                    assert(rest.subrange(i - 1, i - 1 + p.len()) =~= r.subrange(i, i + p.len()));
                    assert(occurs_at(rest, p, i - 1));
                } else {
                    assert(r.subrange(0, p.len() as int) == p);
                    assert forall|k: int| 0 <= k < p.len() - 1 implies #[trigger] rest[k]
                        != w[0] by {
                        assert(r.subrange(0, p.len() as int)[k + 1] == rest[k]);
                        assert(p.contains(p[k + 1]));
                    }
                    lemma_front_is_kept(s.drop_first(), p, w, p.len() - 1);
                    assert forall|k: int| 0 <= k < p.len() implies s[k] == p[k] by {
                        assert(r.subrange(0, p.len() as int)[k] == r[k]);
                        if k > 0 {
                            assert(s.drop_first().take(p.len() - 1)[k - 1] == rest.take(
                                p.len() - 1,
                            )[k - 1]);
                        }
                    }
                    assert(s.subrange(0, p.len() as int) =~= p);
                }
            }
        }
    }
}

/// There is always at least one piece.
pub proof fn lemma_pieces_exist(s: Seq<char>, c: char)
    ensures
        pieces(s, c).len() > 0,
    decreases s.len(),
{
    if s.len() > 0 {
        lemma_pieces_exist(s.drop_last(), c);
    }
}

/// A text without the character is a single piece.
pub proof fn lemma_single_piece(s: Seq<char>, c: char)
    requires
        !s.contains(c),
    ensures
        pieces(s, c) == seq![s],
    decreases s.len(),
{
    if s.len() > 0 {
        assert(s.contains(s.last()));
        assert forall|x: char| s.drop_last().contains(x) implies s.contains(x) by {
            let k = choose|k: int| 0 <= k < s.len() - 1 && s.drop_last()[k] == x;
            assert(s[k] == x);
        }
        lemma_single_piece(s.drop_last(), c);
        assert(s.drop_last().push(s.last()) =~= s);
        assert(pieces(s, c) =~= seq![s]);
    } else {
        assert(s =~= Seq::empty());
        assert(pieces(s, c) =~= seq![s]);
    }
}

/// The pieces of two texts with the character between them are those of the
/// one and then those of the other.
pub proof fn law_pieces_of_two(a: Seq<char>, b: Seq<char>, c: char)
    ensures
        pieces(a.push(c) + b, c) == pieces(a, c) + pieces(b, c),
    decreases b.len(),
{
    let s = a.push(c) + b;
    if b.len() == 0 {
        assert(s =~= a.push(c));
        assert(a.push(c).drop_last() =~= a);
        assert(pieces(s, c) =~= pieces(a, c) + pieces(b, c));
    } else {
        let shorter = b.drop_last();
        law_pieces_of_two(a, shorter, c);
        lemma_pieces_exist(shorter, c);
        assert(s.drop_last() =~= a.push(c) + shorter);
        assert(s.last() == b.last());
        assert(pieces(s, c) =~= pieces(a, c) + pieces(b, c));
    }
}

/// A text occurs where each of its characters stands in its place.
pub proof fn law_occurrences(s: Seq<char>, p: Seq<char>, i: int)
    ensures
        occurs_at(s, p, i) <==> 0 <= i && i + p.len() <= s.len() && forall|k: int|
            0 <= k < p.len() ==> s[i + k] == #[trigger] p[k],
        occurs_at(s, p, i) ==> occurs_in(p, s),
{
    if occurs_at(s, p, i) {
        assert forall|k: int| 0 <= k < p.len() implies s[i + k] == #[trigger] p[k] by {
            assert(s.subrange(i, i + p.len())[k] == s[i + k]);
        }
    } else if 0 <= i && i + p.len() <= s.len() && forall|k: int|
        0 <= k < p.len() ==> s[i + k] == #[trigger] p[k] {
        assert(s.subrange(i, i + p.len()) =~= p);
    }
}

/// A list of strings shows every string, in its place.
pub proof fn law_every_string_is_shown(list: Seq<String>, i: int)
    requires
        0 <= i < list.len(),
    ensures
        views(list).len() == list.len(),
        views(list)[i] == list[i]@,
{
}

/// In front of a text a character is cut off as often as it stands there, and
/// nothing else is.
pub proof fn law_only_leading_is_cut(s: Seq<char>, c: char) -> (n: int)
    ensures
        0 <= n <= s.len(),
        forall|k: int| 0 <= k < n ==> #[trigger] s[k] == c,
        n < s.len() ==> s[n] != c,
        without_leading(s, c) == s.skip(n),
    decreases s.len(),
{
    if s.len() > 0 && s[0] == c {
        let rest = s.drop_first();
        let n = law_only_leading_is_cut(rest, c);
        assert(rest.skip(n) =~= s.skip(n + 1));
        assert forall|k: int| 0 <= k < n + 1 implies #[trigger] s[k] == c by {
            if k > 0 {
                assert(rest[k - 1] == s[k]);
            }
        }
        n + 1
    } else {
        assert(s.skip(0) =~= s);
        0
    }
}

/// Behind a text a character is cut off as often as it stands there, and
/// nothing else is.
pub proof fn law_only_trailing_is_cut(s: Seq<char>, c: char) -> (n: int)
    ensures
        0 <= n <= s.len(),
        forall|k: int| n <= k < s.len() ==> #[trigger] s[k] == c,
        n > 0 ==> s[n - 1] != c,
        without_trailing(s, c) == s.take(n),
    decreases s.len(),
{
    if s.len() > 0 && s.last() == c {
        let rest = s.drop_last();
        let n = law_only_trailing_is_cut(rest, c);
        assert(rest.take(n) =~= s.take(n));
        assert forall|k: int| n <= k < s.len() implies #[trigger] s[k] == c by {
            if k < rest.len() {
                assert(rest[k] == s[k]);
            }
        }
        n
    } else {
        assert(s.take(s.len() as int) =~= s);
        s.len() as int
    }
}

/// Trimming takes away white space at the ends, all of it and nothing else.
pub proof fn law_only_white_space_is_trimmed(s: Seq<char>) -> (ends: (int, int))
    ensures
        0 <= ends.0 <= ends.1 <= s.len(),
        forall|k: int| 0 <= k < ends.0 ==> is_space(#[trigger] s[k]),
        forall|k: int| ends.1 <= k < s.len() ==> is_space(#[trigger] s[k]),
        ends.0 < ends.1 ==> !is_space(s[ends.0]) && !is_space(s[ends.1 - 1]),
        trimmed(s) == s.subrange(ends.0, ends.1),
    decreases s.len(),
{
    if s.len() > 0 && is_space(s[0]) {
        let rest = s.drop_first();
        let (i, j) = law_only_white_space_is_trimmed(rest);
        assert(rest.subrange(i, j) =~= s.subrange(i + 1, j + 1));
        assert forall|k: int| 0 <= k < i + 1 implies is_space(#[trigger] s[k]) by {
            if k > 0 {
                assert(rest[k - 1] == s[k]);
            }
        }
        assert forall|k: int| j + 1 <= k < s.len() implies is_space(#[trigger] s[k]) by {
            assert(rest[k - 1] == s[k]);
        }
        (i + 1, j + 1)
    } else if s.len() > 0 && is_space(s.last()) {
        let rest = s.drop_last();
        let (i, j) = law_only_white_space_is_trimmed(rest);
        assert(rest.subrange(i, j) =~= s.subrange(i, j));
        assert forall|k: int| 0 <= k < i implies is_space(#[trigger] s[k]) by {
            assert(rest[k] == s[k]);
        }
        assert forall|k: int| j <= k < s.len() implies is_space(#[trigger] s[k]) by {
            if k < rest.len() {
                assert(rest[k] == s[k]);
            }
        }
        (i, j)
    } else {
        assert(s.subrange(0, s.len() as int) =~= s);
        (0, s.len() as int)
    }
}

/// A front in which no occurrence begins is kept, and the replacing goes on
/// behind it.
pub proof fn law_front_is_kept(a: Seq<char>, b: Seq<char>, p: Seq<char>, w: Seq<char>)
    requires
        p.len() > 0,
        forall|i: int| 0 <= i < a.len() ==> !occurs_at(a + b, p, i),
    ensures
        replaced(a + b, p, w) == a + replaced(b, p, w),
    decreases a.len(),
{
    let s = a + b;
    if a.len() == 0 {
        assert(s =~= b);
        assert(a + replaced(b, p, w) =~= replaced(b, p, w));
    } else {
        let rest = a.drop_first();
        assert(s.drop_first() =~= rest + b);
        assert forall|i: int| 0 <= i < rest.len() implies !occurs_at(rest + b, p, i) by {
            if occurs_at(rest + b, p, i) {
                assert(s.subrange(i + 1, i + 1 + p.len()) =~= (rest + b).subrange(i, i + p.len()));
                assert(occurs_at(s, p, i + 1));
            }
        }
        assert(!occurs_at(s, p, 0));
        if s.len() < p.len() {
            assert(a + b =~= a + replaced(b, p, w));
        } else {
            law_front_is_kept(rest, b, p, w);
            assert(seq![s[0]] + (rest + replaced(b, p, w)) =~= a + replaced(b, p, w));
        }
    }
}

/// A text in which the character does not stand is a single piece.
pub proof fn law_single_piece(s: Seq<char>, c: char)
    requires
        !s.contains(c),
    ensures
        pieces(s, c) == seq![s],
{
    lemma_single_piece(s, c);
}

} // verus!
