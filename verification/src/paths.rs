//! Paths, as the machine writes them.
use vstd::prelude::*;

use crate::text::{
    law_pieces_of_two, lemma_pieces_exist, lemma_single_piece, occurs_at, pieces, split, starts_with,
    string_of, to_chars, views,
};

verus! {

/// The rules by which a machine writes paths.
#[derive(Debug, Clone, Copy, PartialEq, Eq, Structural)]
pub enum PathStyle {
    /// Slashes separate the components.
    Unix,
    /// Backslashes separate the components, slashes are read as well, and a
    /// path may begin with a drive.
    Windows,
}

impl PathStyle {
    /// The character that is written between two components.
    pub open spec fn main_separator(self) -> char {
        match self {
            PathStyle::Unix => '/',
            PathStyle::Windows => '\\',
        }
    }

    /// The characters that separate two components.
    pub open spec fn is_separator(self, c: char) -> bool {
        c == '/' || c == self.main_separator()
    }
}

/// `name` begins with a drive: a letter and a colon.
pub open spec fn has_drive(style: PathStyle, name: Seq<char>) -> bool {
    &&& style is Windows
    &&& name.len() >= 2
    &&& 'a' <= name[0] <= 'z' || 'A' <= name[0] <= 'Z'
    &&& name[1] == ':'
}

/// The mark of a verbatim path on Windows, in which a slash separates nothing.
pub const VERBATIM: &'static str = "\\\\?\\";

/// The path begins with the mark of a verbatim path.
pub open spec fn is_verbatim(style: PathStyle, path: Seq<char>) -> bool {
    style is Windows && occurs_at(path, VERBATIM@, 0)
}

/// What stands between the backslashes of a verbatim path, behind its mark. A
/// drive ends at a slash as well.
pub open spec fn verbatim_parts(path: Seq<char>) -> Seq<Seq<char>> {
    let parts = pieces(path.skip(4), '\\');
    if has_drive(PathStyle::Windows, parts[0]) && parts[0].len() > 2 && parts[0][2] == '/' {
        seq![parts[0].take(2), parts[0].skip(3)] + parts.skip(1)
    } else {
        parts
    }
}

/// How many of the parts of a verbatim path say where it begins: those of a
/// server and its share, or else one.
pub open spec fn prefix_parts(parts: Seq<Seq<char>>) -> nat {
    if parts[0] == seq!['U', 'N', 'C'] && parts.len() > 1 {
        if parts.len() > 2 && parts[2].len() > 0 {
            3
        } else {
            2
        }
    } else if parts.len() > 1 && parts[1].len() > 0 && occurs_at(
        parts[0],
        seq!['U', 'N', 'C', '/'],
        0,
    ) {
        2
    } else {
        1
    }
}

/// The parts that are not empty, in order.
pub open spec fn without_empty(parts: Seq<Seq<char>>) -> Seq<Seq<char>>
    decreases parts.len(),
{
    if parts.len() == 0 {
        Seq::empty()
    } else if parts.last().len() == 0 {
        without_empty(parts.drop_last())
    } else {
        without_empty(parts.drop_last()).push(parts.last())
    }
}

/// The parts with a backslash behind each.
pub open spec fn backslashed(parts: Seq<Seq<char>>) -> Seq<char>
    decreases parts.len(),
{
    if parts.len() == 0 {
        Seq::empty()
    } else {
        backslashed(parts.drop_last()) + parts.last().push('\\')
    }
}

/// The parts that a verbatim path is rebuilt from when a name is put behind it:
/// those that say where it begins, and of the others those that are not empty.
pub open spec fn rebuilt_from(path: Seq<char>) -> Seq<Seq<char>> {
    let parts = verbatim_parts(path);
    let n = prefix_parts(parts) as int;
    parts.take(n) + without_empty(parts.skip(n))
}

/// A name can be put behind the path with no separator between them: behind
/// nothing, a separator or a drive.
pub open spec fn takes_name(style: PathStyle, path: Seq<char>) -> bool {
    path.len() == 0 || style.is_separator(path.last()) || (has_drive(style, path) && path.len()
        == 2)
}

/// The path `name`, seen from `base`. A name that begins at the root or on a
/// drive is the same seen from anywhere.
pub open spec fn joined(style: PathStyle, base: Seq<char>, name: Seq<char>) -> Seq<char> {
    if has_drive(style, name) || (name.len() > 0 && style.is_separator(name[0])) {
        name
    } else if is_verbatim(style, base) {
        VERBATIM@ + backslashed(rebuilt_from(base)) + name
    } else if takes_name(style, base) {
        base + name
    } else {
        base.push(style.main_separator()) + name
    }
}

/// No separator of the style stands in the text.
pub open spec fn is_undivided(style: PathStyle, text: Seq<char>) -> bool {
    forall|i: int| 0 <= i < text.len() ==> !style.is_separator(#[trigger] text[i])
}

/// A single name of something in a folder, neither the folder itself nor the one
/// around it, and not on a drive.
pub open spec fn is_simple_name(style: PathStyle, name: Seq<char>) -> bool {
    &&& is_undivided(style, name)
    &&& names_something(name)
    &&& name != seq!['.', '.']
    &&& !has_drive(style, name)
}

/// On Windows only a single name is put behind a path, and behind a verbatim
/// path only one of something in it.
pub open spec fn can_be_joined(style: PathStyle, base: Seq<char>, name: Seq<char>) -> bool {
    style is Windows && base.len() > 0 ==> {
        &&& is_undivided(style, name)
        &&& is_verbatim(style, base) ==> names_something(name) && name != seq!['.', '.']
    }
}

/// `path` with `c` in the place of each separator.
pub open spec fn separated_by(style: PathStyle, path: Seq<char>, c: char) -> Seq<char> {
    Seq::new(
        path.len(),
        |i: int|
            if style.is_separator(path[i]) {
                c
            } else {
                path[i]
            },
    )
}

/// What stands between the separators of a path.
pub open spec fn parts_of(style: PathStyle, path: Seq<char>) -> Seq<Seq<char>> {
    pieces(separated_by(style, path, '/'), '/')
}

/// A piece of a path that names something: not nothing, and not the folder it
/// stands in.
pub open spec fn names_something(piece: Seq<char>) -> bool {
    piece.len() > 0 && piece != seq!['.']
}

/// The pieces that name something, in order.
pub open spec fn named(parts: Seq<Seq<char>>) -> Seq<Seq<char>> {
    parts.filter(|piece: Seq<char>| names_something(piece))
}

/// The parts of a path that name something, in order. In front of them stands
/// the root where the path is absolute, and the current folder where the path
/// begins with it.
pub open spec fn components(style: PathStyle, path: Seq<char>) -> Seq<Seq<char>> {
    let parts = parts_of(style, path);
    if path.len() > 0 && style.is_separator(path[0]) {
        seq![seq![style.main_separator()]] + named(parts)
    } else if parts[0] == seq!['.'] {
        seq![seq!['.']] + named(parts)
    } else {
        named(parts)
    }
}

/// The path of the first `k` components.
pub open spec fn path_of(style: PathStyle, parts: Seq<Seq<char>>, k: nat) -> Seq<char>
    decreases k,
{
    if k == 0 {
        Seq::empty()
    } else {
        joined(style, path_of(style, parts, (k - 1) as nat), parts[k - 1])
    }
}

/// The folders from the outermost to `path` itself, each in the one before it.
pub open spec fn folder_chain(style: PathStyle, path: Seq<char>) -> Seq<Seq<char>> {
    Seq::new(
        components(style, path).len(),
        |k: int| path_of(style, components(style, path), (k + 1) as nat),
    )
}

/// A path that begins with no drive and no name of a server or a device, as
/// only a path on Windows does.
pub open spec fn without_prefix(style: PathStyle, path: Seq<char>) -> bool {
    &&& !has_drive(style, path)
    &&& style is Windows && path.len() >= 2 ==> !(style.is_separator(path[0])
        && style.is_separator(path[1]))
}

/// Whether `c` separates two components.
fn separates(style: PathStyle, c: char) -> (r: bool)
    ensures
        r == style.is_separator(c),
{
    c == '/' || (c == '\\' && matches!(style, PathStyle::Windows))
}

/// The character that is written between two components.
fn separator(style: PathStyle) -> (r: char)
    ensures
        r == style.main_separator(),
{
    match style {
        PathStyle::Unix => '/',
        PathStyle::Windows => '\\',
    }
}

/// Whether a name begins with a drive.
fn begins_with_drive(style: PathStyle, name: &Vec<char>) -> (r: bool)
    ensures
        r == has_drive(style, name@),
{
    matches!(style, PathStyle::Windows) && name.len() >= 2 && (('a' <= name[0] && name[0] <= 'z')
        || ('A' <= name[0] && name[0] <= 'Z')) && name[1] == ':'
}

/// The path `name`, seen from `base`.
pub fn join(style: PathStyle, base: &str, name: &str) -> (r: String)
    requires
        can_be_joined(style, base@, name@),
    ensures
        r@ == joined(style, base@, name@),
{
    let base_chars = to_chars(base);
    let name_chars = to_chars(name);
    if begins_with_drive(style, &name_chars) || (name_chars.len() > 0 && separates(
        style,
        name_chars[0],
    )) {
        return name.to_owned();
    }
    if matches!(style, PathStyle::Windows) && starts_with(base, VERBATIM) {
        proof {
            reveal_strlit("\\\\?\\");
        }
        return VERBATIM.to_owned().concat(rebuild(&base_chars).as_str()).concat(name);
    }
    let n = base_chars.len();
    if n == 0 || separates(style, base_chars[n - 1]) || (begins_with_drive(style, &base_chars) && n
        == 2) {
        base.to_owned().concat(name)
    } else {
        let mut out = base.to_owned();
        out.push(separator(style));
        out.concat(name)
    }
}

/// The parts of a verbatim path.
fn split_verbatim(path: &Vec<char>) -> (r: Vec<String>)
    requires
        path.len() >= 4,
    ensures
        views(r@) == verbatim_parts(path@),
        r.len() > 0,
{
    let rest = string_of(path, 4, path.len());
    assert(rest@ =~= path@.skip(4));
    let parts = split(rest.as_str(), '\\');
    let first = to_chars(parts[0].as_str());
    assert(views(parts@)[0] == first@);
    if !(begins_with_drive(PathStyle::Windows, &first) && first.len() > 2 && first[2] == '/') {
        return parts;
    }
    let mut out: Vec<String> = Vec::new();
    out.push(string_of(&first, 0, 2));
    out.push(string_of(&first, 3, first.len()));
    assert(out@[0]@ =~= first@.take(2));
    assert(out@[1]@ =~= first@.skip(3));
    for i in 1..parts.len()
        invariant
            parts.len() > 0,
            out.len() == i + 1,
            out@[0]@ == first@.take(2),
            out@[1]@ == first@.skip(3),
            forall|k: int| 1 <= k < i ==> (#[trigger] out@[k + 1])@ == parts@[k]@,
    {
        out.push(parts[i].clone());
    }
    assert(views(out@) =~= verbatim_parts(path@)) by {
        assert forall|k: int| 2 <= k < out.len() implies (#[trigger] out@[k])@ == parts@[k - 1]@ by {
            assert(out@[(k - 1) + 1]@ == parts@[k - 1]@);
        }
    }
    out
}

/// How many of the parts of a verbatim path say where it begins.
fn count_prefix(parts: &Vec<String>) -> (r: usize)
    requires
        parts.len() > 0,
    ensures
        r == prefix_parts(views(parts@)),
        1 <= r <= parts.len(),
{
    let first = to_chars(parts[0].as_str());
    assert(views(parts@)[0] == first@);
    assert(parts.len() > 1 ==> views(parts@)[1] == parts@[1]@);
    assert(parts.len() > 2 ==> views(parts@)[2] == parts@[2]@);
    let begins = first.len() >= 3 && first[0] == 'U' && first[1] == 'N' && first[2] == 'C';
    if begins && first.len() == 3 && parts.len() > 1 {
        assert(first@ =~= seq!['U', 'N', 'C']);
        if parts.len() > 2 && !parts[2].as_str().is_empty() {
            3
        } else {
            2
        }
    } else {
        let slashed = begins && first.len() > 3 && first[3] == '/';
        proof {
            let mark = seq!['U', 'N', 'C', '/'];
            if slashed {
                assert(first@.subrange(0, 4) =~= mark);
            } else if occurs_at(first@, mark, 0) {
                assert forall|k: int| 0 <= k < 4 implies first@[k] == mark[k] by {
                    assert(first@.subrange(0, 4)[k] == mark[k]);
                }
                assert(first@[0] == 'U' && first@[1] == 'N' && first@[2] == 'C' && first@[3] == '/');
            }
        }
        if slashed && parts.len() > 1 && !parts[1].as_str().is_empty() {
            2
        } else {
            1
        }
    }
}

/// A verbatim path as it is rebuilt, behind its mark.
fn rebuild(path: &Vec<char>) -> (r: String)
    requires
        path.len() >= 4,
    ensures
        r@ == backslashed(rebuilt_from(path@)),
{
    let parts = split_verbatim(path);
    let n = count_prefix(&parts);
    let ghost all = views(parts@);
    let mut out = String::new();
    assert(all.take(0) =~= Seq::empty());
    for i in 0..n
        invariant
            n <= parts.len(),
            all == views(parts@),
            out@ == backslashed(all.take(i as int)),
    {
        assert(all.take(i + 1).drop_last() =~= all.take(i as int));
        assert(all[i as int] == parts@[i as int]@);
        let ghost before = out@;
        out = out.concat(parts[i].as_str());
        out.push('\\');
        assert(out@ =~= before + all[i as int].push('\\'));
    }
    let ghost head = all.take(n as int);
    let ghost tail = all.skip(n as int);
    assert(head + without_empty(tail.take(0)) =~= head);
    for i in n..parts.len()
        invariant
            n <= parts.len(),
            all == views(parts@),
            tail == all.skip(n as int),
            out@ == backslashed(head + without_empty(tail.take(i - n))),
    {
        let ghost before = head + without_empty(tail.take(i - n));
        assert(tail.take(i - n + 1).drop_last() =~= tail.take(i - n));
        assert(tail[i - n] == parts@[i as int]@);
        if !parts[i].as_str().is_empty() {
            let ghost old_out = out@;
            out = out.concat(parts[i].as_str());
            out.push('\\');
            assert(out@ =~= old_out + tail[i - n].push('\\'));
            assert(head + without_empty(tail.take(i - n + 1)) =~= before.push(tail[i - n]));
            assert(before.push(tail[i - n]).drop_last() =~= before);
        }
    }
    assert(tail.take(tail.len() as int) =~= tail);
    out
}

/// Whether a piece is the single character `c`.
fn is_char(piece: &str, c: char) -> (r: bool)
    ensures
        r == (piece@ == seq![c]),
{
    let chars = to_chars(piece);
    if chars.len() == 1 && chars[0] == c {
        assert(piece@ =~= seq![c]);
        true
    } else {
        false
    }
}

/// The string of the single character `c`.
fn string_of_char(c: char) -> (r: String)
    ensures
        r@ == seq![c],
{
    let mut out = String::new();
    out.push(c);
    assert(out@ =~= seq![c]);
    out
}

/// `path` with a slash in the place of each separator.
fn with_slashes(style: PathStyle, path: &str) -> (r: String)
    ensures
        r@ == separated_by(style, path@, '/'),
{
    let chars = to_chars(path);
    let mut out = String::new();
    for i in 0..chars.len()
        invariant
            chars@ == path@,
            out@ == separated_by(style, path@, '/').take(i as int),
    {
        let c = if separates(style, chars[i]) {
            '/'
        } else {
            chars[i]
        };
        out.push(c);
        assert(out@ =~= separated_by(style, path@, '/').take(i + 1));
    }
    assert(out@ =~= separated_by(style, path@, '/'));
    out
}

/// The components of a path.
fn path_components(style: PathStyle, path: &str) -> (r: Vec<String>)
    ensures
        views(r@) == components(style, path@),
{
    let parts = split(with_slashes(style, path).as_str(), '/');
    let chars = to_chars(path);
    let mut out: Vec<String> = Vec::new();
    if chars.len() > 0 && separates(style, chars[0]) {
        out.push(string_of_char(separator(style)));
        assert(views(out@) =~= seq![seq![style.main_separator()]]);
    } else if is_char(parts[0].as_str(), '.') {
        assert(parts_of(style, path@)[0] == parts@[0]@);
        out.push(string_of_char('.'));
        assert(views(out@) =~= seq![seq!['.']]);
    } else {
        assert(parts_of(style, path@)[0] == parts@[0]@);
        assert(views(out@) =~= Seq::empty());
    }
    let ghost lead = views(out@);
    let ghost all = views(parts@);
    proof {
        reveal(Seq::filter);
        assert(all.take(0) =~= Seq::empty());
        assert(views(out@) =~= lead + named(all.take(0)));
    }
    for i in 0..parts.len()
        invariant
            all == views(parts@),
            views(out@) == lead + named(all.take(i as int)),
    {
        let ghost before = views(out@);
        proof {
            reveal(Seq::filter);
            assert(all.take(i + 1).drop_last() =~= all.take(i as int));
            assert(all[i as int] == parts@[i as int]@);
        }
        if !parts[i].as_str().is_empty() && !is_char(parts[i].as_str(), '.') {
            out.push(parts[i].clone());
            assert(views(out@) =~= before.push(parts@[i as int]@));
            assert(views(out@) =~= lead + named(all.take(i + 1)));
        }
    }
    proof {
        assert(all.take(all.len() as int) =~= all);
        assert(Seq::<Seq<char>>::empty() + named(all) =~= named(all));
    }
    out
}

/// The first two characters are not both separators.
spec fn begins_simply(style: PathStyle, path: Seq<char>) -> bool {
    path.len() >= 2 ==> !(style.is_separator(path[0]) && style.is_separator(path[1]))
}

/// A component is the root, which stands first, or is undivided and not empty.
proof fn lemma_component(style: PathStyle, path: Seq<char>, i: int)
    requires
        0 <= i < components(style, path).len(),
    ensures
        components(style, path)[i].len() > 0,
        is_undivided(style, components(style, path)[i]) || (i == 0 && components(style, path)[i]
            == seq![style.main_separator()]),
{
    let parts = parts_of(style, path);
    let lead: int = components(style, path).len() - named(parts).len();
    if i >= lead {
        lemma_named_is_part(parts, i - lead);
        let k = choose|k: int| 0 <= k < parts.len() && parts[k] == named(parts)[i - lead];
        lemma_undivided(style, path, k);
    }
}

/// Each piece that is kept is one of the pieces, and names something.
proof fn lemma_named_is_part(parts: Seq<Seq<char>>, i: int)
    requires
        0 <= i < named(parts).len(),
    ensures
        names_something(named(parts)[i]),
        exists|k: int| 0 <= k < parts.len() && parts[k] == named(parts)[i],
    decreases parts.len(),
{
    reveal(Seq::filter);
    if parts.len() > 0 {
        let before = parts.drop_last();
        if i < named(before).len() {
            lemma_named_is_part(before, i);
            let k = choose|k: int| 0 <= k < before.len() && before[k] == named(before)[i];
            assert(parts[k] == named(parts)[i]);
        } else {
            assert(parts[parts.len() - 1] == named(parts)[i]);
        }
    }
}

/// No separator stands between the separators of a path.
proof fn lemma_undivided(style: PathStyle, path: Seq<char>, i: int)
    requires
        0 <= i < parts_of(style, path).len(),
    ensures
        is_undivided(style, parts_of(style, path)[i]),
{
    let slashed = separated_by(style, path, '/');
    lemma_piece_is_whole(slashed, '/', i);
    lemma_piece_is_taken(slashed, i);
    let part = parts_of(style, path)[i];
    assert forall|k: int| 0 <= k < part.len() implies !style.is_separator(#[trigger] part[k]) by {
        assert(part.contains(part[k]));
        let n = choose|n: int| 0 <= n < slashed.len() && slashed[n] == part[k];
        assert(0 <= n < slashed.len() && slashed[n] == part[k]);
    }
}

/// Every character of a piece stands in the text.
proof fn lemma_piece_is_taken(text: Seq<char>, i: int)
    requires
        0 <= i < pieces(text, '/').len(),
    ensures
        forall|c: char| #[trigger] pieces(text, '/')[i].contains(c) ==> exists|n: int|
            0 <= n < text.len() && text[n] == c,
    decreases text.len(),
{
    if text.len() > 0 {
        let before = pieces(text.drop_last(), '/');
        lemma_pieces_exist(text.drop_last(), '/');
        if i < before.len() {
            lemma_piece_is_taken(text.drop_last(), i);
        }
        let piece = pieces(text, '/')[i];
        assert forall|c: char| #[trigger] piece.contains(c) implies exists|n: int|
            0 <= n < text.len() && text[n] == c by {
            if i < before.len() && before[i].contains(c) {
                let n = choose|n: int| 0 <= n < text.drop_last().len() && text.drop_last()[n] == c;
                assert(text[n] == c);
            } else {
                let k = choose|k: int| 0 <= k < piece.len() && piece[k] == c;
                if i < before.len() && k < before[i].len() {
                    assert(before[i].contains(before[i][k]));
                }
                assert(text[text.len() - 1] == c);
            }
        }
    }
}

/// The folders from the outermost to `path` itself, each in the one before it.
pub fn folders_down_to(style: PathStyle, path: &str) -> (r: Vec<String>)
    requires
        without_prefix(style, path@),
    ensures
        views(r@) == folder_chain(style, path@),
{
    let parts = path_components(style, path);
    let mut out: Vec<String> = Vec::new();
    let mut current = String::new();
    for i in 0..parts.len()
        invariant
            views(parts@) == components(style, path@),
            out.len() == i,
            current@ == path_of(style, components(style, path@), i as nat),
            i == 0 ==> current@.len() == 0,
            style is Windows ==> begins_simply(style, current@),
            forall|k: int|
                0 <= k < i ==> (#[trigger] out@[k])@ == path_of(
                    style,
                    components(style, path@),
                    (k + 1) as nat,
                ),
    {
        assert(components(style, path@)[i as int] == parts@[i as int]@);
        proof {
            lemma_component(style, path@, i as int);
            reveal_strlit("\\\\?\\");
            if is_verbatim(style, current@) {
                assert(current@.subrange(0, 4)[0] == '\\' && current@.subrange(0, 4)[1] == '\\');
            }
        }
        current = join(style, current.as_str(), parts[i].as_str());
        out.push(current.clone());
    }
    assert(views(out@) =~= folder_chain(style, path@));
    out
}

/// A path whose parts all name something in it: no separator stands in front of
/// it, behind it or next to another, and no part is a single dot or begins with
/// a drive.
pub open spec fn plain(style: PathStyle, path: Seq<char>) -> bool {
    forall|i: int|
        0 <= i < parts_of(style, path).len() ==> names_something(
            #[trigger] parts_of(style, path)[i],
        ) && !has_drive(style, parts_of(style, path)[i])
}

/// The path with the separators that the machine writes.
pub open spec fn rewritten(style: PathStyle, path: Seq<char>) -> Seq<char> {
    separated_by(style, path, style.main_separator())
}

/// On Unix a path is written as it is.
pub proof fn law_unix_paths_are_kept(path: Seq<char>)
    ensures
        rewritten(PathStyle::Unix, path) == path,
{
    assert(rewritten(PathStyle::Unix, path) =~= path);
}

/// The first `k` parts with `c` between them.
spec fn glued(parts: Seq<Seq<char>>, k: nat, c: char) -> Seq<char>
    decreases k,
{
    if k == 0 {
        Seq::empty()
    } else if k == 1 {
        parts[0]
    } else {
        glued(parts, (k - 1) as nat, c).push(c) + parts[k - 1]
    }
}

/// The pieces of a text with `c` between them are the text with `c` in the
/// place of each slash.
proof fn lemma_glued_pieces(path: Seq<char>, c: char)
    ensures
        glued(pieces(path, '/'), pieces(path, '/').len(), c) == separated_by(
            PathStyle::Unix,
            path,
            c,
        ),
    decreases path.len(),
{
    let parts = pieces(path, '/');
    let swapped = separated_by(PathStyle::Unix, path, c);
    if path.len() == 0 {
        assert(swapped =~= Seq::empty());
    } else {
        let before = pieces(path.drop_last(), '/');
        let n = before.len();
        lemma_pieces_exist(path.drop_last(), '/');
        lemma_glued_pieces(path.drop_last(), c);
        assert(swapped.drop_last() =~= separated_by(PathStyle::Unix, path.drop_last(), c));
        assert(swapped =~= swapped.drop_last().push(swapped.last()));
        if path.last() == '/' {
            lemma_glued_front(before, parts, n, c);
            assert(glued(parts, n + 1, c) =~= swapped);
        } else {
            lemma_glued_front(before, parts, (n - 1) as nat, c);
            assert(parts[n - 1] == before[n - 1].push(path.last()));
            if n == 1 {
                assert(glued(before, 1, c) == before[0]);
            } else {
                assert(glued(before, n, c) == glued(before, (n - 1) as nat, c).push(c) + before[n
                    - 1]);
                assert(glued(parts, n, c) == glued(parts, (n - 1) as nat, c).push(c) + parts[n - 1]);
            }
            assert(glued(parts, n, c) =~= swapped);
        }
    }
}

/// Only the first `k` parts matter.
proof fn lemma_glued_front(a: Seq<Seq<char>>, b: Seq<Seq<char>>, k: nat, c: char)
    requires
        k <= a.len(),
        k <= b.len(),
        forall|i: int| 0 <= i < k ==> a[i] == b[i],
    ensures
        glued(a, k, c) == glued(b, k, c),
    decreases k,
{
    if k > 0 {
        lemma_glued_front(a, b, (k - 1) as nat, c);
    }
}

/// Only the first `k` parts matter.
proof fn lemma_path_front(style: PathStyle, a: Seq<Seq<char>>, b: Seq<Seq<char>>, k: nat)
    requires
        k <= a.len(),
        k <= b.len(),
        forall|i: int| 0 <= i < k ==> a[i] == b[i],
    ensures
        path_of(style, a, k) == path_of(style, b, k),
    decreases k,
{
    if k > 0 {
        lemma_path_front(style, a, b, (k - 1) as nat);
    }
}

/// The separator stands in no piece.
proof fn lemma_piece_is_whole(text: Seq<char>, c: char, i: int)
    requires
        0 <= i < pieces(text, c).len(),
    ensures
        !pieces(text, c)[i].contains(c),
    decreases text.len(),
{
    if text.len() > 0 {
        let before = pieces(text.drop_last(), c);
        lemma_pieces_exist(text.drop_last(), c);
        if i < before.len() {
            lemma_piece_is_whole(text.drop_last(), c, i);
        }
        if text.last() != c && i == before.len() - 1 {
            let piece = before.last().push(text.last());
            assert forall|k: int| 0 <= k < piece.len() implies piece[k] != c by {
                if k < before.last().len() {
                    assert(before.last().contains(before.last()[k]));
                }
            }
        }
    }
}

/// A verbatim path begins with a separator.
proof fn lemma_not_verbatim(style: PathStyle, path: Seq<char>)
    requires
        path.len() == 0 || !style.is_separator(path[0]),
    ensures
        !is_verbatim(style, path),
{
    reveal_strlit("\\\\?\\");
    if is_verbatim(style, path) {
        assert(path.subrange(0, VERBATIM@.len() as int)[0] == path[0]);
    }
}

/// Undivided parts, none of them empty or with a drive, make a path with
/// separators between them.
proof fn lemma_path_is_glued(style: PathStyle, parts: Seq<Seq<char>>, k: nat)
    requires
        k <= parts.len(),
        forall|i: int|
            0 <= i < parts.len() ==> (#[trigger] parts[i]).len() > 0 && is_undivided(
                style,
                parts[i],
            ) && !has_drive(style, parts[i]),
    ensures
        path_of(style, parts, k) == glued(parts, k, style.main_separator()),
        k > 0 ==> path_of(style, parts, k).len() > 0 && !style.is_separator(
            path_of(style, parts, k).last(),
        ),
        k > 0 ==> !style.is_separator(path_of(style, parts, k)[0]),
        k > 1 ==> path_of(style, parts, k).len() > 2,
    decreases k,
{
    if k > 0 {
        lemma_path_is_glued(style, parts, (k - 1) as nat);
        let part = parts[k - 1];
        assert(!style.is_separator(part[0]) && !style.is_separator(part.last()));
        lemma_not_verbatim(style, path_of(style, parts, (k - 1) as nat));
        if k == 1 {
            assert(Seq::<char>::empty() + part =~= part);
        } else if k == 2 {
            assert(path_of(style, parts, 1) == parts[0]);
        }
    }
}

/// Where every piece names something, all of them are kept.
pub proof fn lemma_all_named(parts: Seq<Seq<char>>)
    requires
        forall|i: int| 0 <= i < parts.len() ==> names_something(#[trigger] parts[i]),
    ensures
        named(parts) == parts,
    decreases parts.len(),
{
    reveal(Seq::filter);
    if parts.len() > 0 {
        lemma_all_named(parts.drop_last());
        assert(names_something(parts.last()));
        assert(parts.drop_last().push(parts.last()) =~= parts);
    }
}

/// The pieces that name something, of two lists one behind the other.
proof fn lemma_named_of_two(a: Seq<Seq<char>>, b: Seq<Seq<char>>)
    ensures
        named(a + b) == named(a) + named(b),
    decreases b.len(),
{
    reveal(Seq::filter);
    if b.len() == 0 {
        assert(a + b =~= a);
        assert(named(a) + named(b) =~= named(a));
    } else {
        lemma_named_of_two(a, b.drop_last());
        assert((a + b).drop_last() =~= a + b.drop_last());
        assert((a + b).last() == b.last());
        assert(named(a + b) =~= named(a) + named(b));
    }
}

/// A path with a slash and another path behind it has the components of the
/// one and then those parts of the other that name something.
pub proof fn law_components_of_two(style: PathStyle, a: Seq<char>, b: Seq<char>)
    requires
        a.len() > 0,
    ensures
        components(style, a.push('/') + b) == components(style, a) + named(parts_of(style, b)),
{
    let path = a.push('/') + b;
    lemma_parts_of_two(style, a, b);
    lemma_pieces_exist(separated_by(style, a, '/'), '/');
    lemma_named_of_two(parts_of(style, a), parts_of(style, b));
    assert(path[0] == a[0]);
    assert(components(style, path) =~= components(style, a) + named(parts_of(style, b)));
}

/// The parts of a path with a slash and another path behind it.
pub proof fn lemma_parts_of_two(style: PathStyle, a: Seq<char>, b: Seq<char>)
    ensures
        parts_of(style, a.push('/') + b) == parts_of(style, a) + parts_of(style, b),
{
    let (x, y) = (separated_by(style, a, '/'), separated_by(style, b, '/'));
    assert(separated_by(style, a.push('/') + b, '/') =~= x.push('/') + y);
    law_pieces_of_two(x, y, '/');
}

/// A text without separators is its only part.
pub proof fn lemma_single_part(style: PathStyle, text: Seq<char>)
    requires
        is_undivided(style, text),
    ensures
        parts_of(style, text) == seq![text],
{
    assert(separated_by(style, text, '/') =~= text);
    lemma_single_piece(text, '/');
}

/// The components of a plain path are its parts.
proof fn lemma_plain_components(style: PathStyle, path: Seq<char>)
    requires
        plain(style, path),
    ensures
        components(style, path) == parts_of(style, path),
        path.len() > 0,
{
    let parts = parts_of(style, path);
    let slashed = separated_by(style, path, '/');
    lemma_pieces_exist(slashed, '/');
    lemma_all_named(parts);
    assert(names_something(parts[0]));
    if path.len() == 0 {
        assert(slashed =~= Seq::empty());
        assert(pieces(slashed, '/')[0] =~= Seq::empty());
    } else if style.is_separator(path[0]) {
        assert(slashed =~= Seq::empty().push('/') + slashed.drop_first());
        law_pieces_of_two(Seq::empty(), slashed.drop_first(), '/');
        assert(pieces(Seq::empty(), '/')[0] =~= Seq::<char>::empty());
        assert(parts[0].len() == 0);
    }
}

/// The last of the folders down to a plain path is the path itself, with the
/// separators that the machine writes.
pub proof fn law_plain_path_is_reached(style: PathStyle, path: Seq<char>)
    requires
        plain(style, path),
    ensures
        folder_chain(style, path).len() > 0,
        folder_chain(style, path).last() == rewritten(style, path),
{
    let parts = parts_of(style, path);
    lemma_plain_components(style, path);
    lemma_pieces_exist(separated_by(style, path, '/'), '/');
    lemma_plain_parts(style, path);
    lemma_path_is_glued(style, parts, parts.len());
    lemma_glued_parts(style, path);
}

/// The parts of a plain path are undivided, not empty and on no drive.
proof fn lemma_plain_parts(style: PathStyle, path: Seq<char>)
    requires
        plain(style, path),
    ensures
        forall|i: int|
            0 <= i < parts_of(style, path).len() ==> (#[trigger] parts_of(style, path)[i]).len() > 0
                && is_undivided(style, parts_of(style, path)[i]) && !has_drive(
                style,
                parts_of(style, path)[i],
            ),
{
    let parts = parts_of(style, path);
    assert forall|i: int| 0 <= i < parts.len() implies (#[trigger] parts[i]).len() > 0
        && is_undivided(style, parts[i]) && !has_drive(style, parts[i]) by {
        assert(names_something(parts[i]));
        lemma_undivided(style, path, i);
    }
}

/// The parts of a path with the machine's separator between them are the path
/// as the machine writes it.
proof fn lemma_glued_parts(style: PathStyle, path: Seq<char>)
    ensures
        glued(parts_of(style, path), parts_of(style, path).len(), style.main_separator())
            == rewritten(style, path),
{
    let slashed = separated_by(style, path, '/');
    let c = style.main_separator();
    lemma_glued_pieces(slashed, c);
    assert(separated_by(PathStyle::Unix, slashed, c) =~= rewritten(style, path));
}

/// The folders down to a path come first among those down to anything in it.
pub proof fn law_outer_folders_come_first(style: PathStyle, a: Seq<char>, b: Seq<char>)
    requires
        a.len() > 0,
    ensures
        folder_chain(style, a).len() <= folder_chain(style, a.push('/') + b).len(),
        folder_chain(style, a) == folder_chain(style, a.push('/') + b).take(
            folder_chain(style, a).len() as int,
        ),
{
    let path = a.push('/') + b;
    law_components_of_two(style, a, b);
    let n = components(style, a).len();
    assert forall|k: int| 0 <= k < n implies folder_chain(style, a)[k] == #[trigger] folder_chain(
        style,
        path,
    )[k] by {
        lemma_path_front(style, components(style, a), components(style, path), (k + 1) as nat);
    }
    assert(folder_chain(style, a) =~= folder_chain(style, path).take(n as int));
}

/// Each folder stands in the one before it.
pub proof fn law_folders_are_nested(style: PathStyle, path: Seq<char>, k: int)
    requires
        0 <= k,
        k + 1 < folder_chain(style, path).len(),
    ensures
        folder_chain(style, path)[k + 1] == joined(
            style,
            folder_chain(style, path)[k],
            components(style, path)[k + 1],
        ),
{
}

/// A path that stays as it is when a name is put behind it. A verbatim path
/// does if it is written as it is rebuilt.
pub open spec fn is_settled(style: PathStyle, path: Seq<char>) -> bool {
    is_verbatim(style, path) ==> VERBATIM@ + backslashed(rebuilt_from(path)) == path.push('\\')
}

/// A path with a simple name behind it stays as it is when another name is put
/// behind that.
pub proof fn law_joined_paths_are_settled(style: PathStyle, base: Seq<char>, name: Seq<char>)
    requires
        is_simple_name(style, name),
    ensures
        is_settled(style, joined(style, base, name)),
{
    let path = joined(style, base, name);
    reveal_strlit("\\\\?\\");
    assert(!style.is_separator(name[0]));
    if is_verbatim(style, path) {
        lemma_mark(path);
        if is_verbatim(style, base) {
            lemma_rebuilt_parts(base);
            assert(path.skip(4) =~= backslashed(rebuilt_from(base)) + name);
            lemma_rebuilt_is_settled(path, rebuilt_from(base), name);
        } else {
            let at = path.len() - name.len();
            if at < 4 {
                assert(name[3 - at] == path[3]);
            }
            assert(at >= 4);
            if base.len() >= 4 {
                assert(base.subrange(0, 4) =~= path.subrange(0, 4));
            }
            assert(path.skip(4) =~= backslashed(Seq::empty()) + name);
            lemma_rebuilt_is_settled(path, Seq::empty(), name);
        }
    }
}

/// The first characters of a verbatim path.
proof fn lemma_mark(path: Seq<char>)
    requires
        occurs_at(path, VERBATIM@, 0),
    ensures
        path.len() >= 4,
        path[0] == '\\' && path[1] == '\\' && path[2] == '?' && path[3] == '\\',
        path.take(4) == VERBATIM@,
        VERBATIM@.len() == 4,
{
    reveal_strlit("\\\\?\\");
    assert(VERBATIM@.len() == 4);
    let mark = path.subrange(0, 4);
    assert(mark[0] == path[0] && mark[1] == path[1] && mark[2] == path[2] && mark[3] == path[3]);
    assert(path.take(4) =~= mark);
}

/// No backslash stands in a part, and all parts but those that say where the
/// path begins are not empty.
spec fn are_rebuilt(parts: Seq<Seq<char>>) -> bool {
    &&& forall|i: int| 0 <= i < parts.len() ==> !(#[trigger] parts[i]).contains('\\')
    &&& parts.len() > 0 ==> !(has_drive(PathStyle::Windows, parts[0]) && parts[0].len() > 2
        && parts[0][2] == '/')
    &&& parts.len() > 0 ==> forall|i: int|
        prefix_parts(parts) <= i < parts.len() ==> (#[trigger] parts[i]).len() > 0
}

/// What a path is rebuilt from.
proof fn lemma_rebuilt_parts(path: Seq<char>)
    ensures
        are_rebuilt(rebuilt_from(path)),
{
    let raw = pieces(path.skip(4), '\\');
    let parts = verbatim_parts(path);
    let n = prefix_parts(parts) as int;
    let kept = rebuilt_from(path);
    lemma_pieces_exist(path.skip(4), '\\');
    assert forall|i: int| 0 <= i < parts.len() implies !(#[trigger] parts[i]).contains('\\') by {
        if parts == raw {
            lemma_piece_is_whole(path.skip(4), '\\', i);
        } else {
            lemma_piece_is_whole(path.skip(4), '\\', 0);
            assert forall|k: int| 0 <= k < raw[0].len() implies raw[0][k] != '\\' by {
                assert(raw[0].contains(raw[0][k]));
            }
            if i >= 2 {
                lemma_piece_is_whole(path.skip(4), '\\', i - 1);
            }
        }
    }
    lemma_without_empty(parts.skip(n));
    assert forall|i: int| 0 <= i < kept.len() implies !(#[trigger] kept[i]).contains('\\') by {
        if i < n {
            assert(kept[i] == parts[i]);
        } else {
            let part = without_empty(parts.skip(n))[i - n];
            let k = choose|k: int| 0 <= k < parts.skip(n).len() && parts.skip(n)[k] == part;
            assert(parts[n + k] == part);
        }
    }
    assert(kept[0] == parts[0]);
    assert(n > 1 ==> kept[1] == parts[1]);
    assert(n > 2 ==> kept[2] == parts[2]);
    assert(prefix_parts(kept) >= n);
    assert forall|i: int| prefix_parts(kept) <= i < kept.len() implies (#[trigger] kept[i]).len()
        > 0 by {
        assert(without_empty(parts.skip(n))[i - n].len() > 0);
    }
}

/// The parts that are not empty are parts.
proof fn lemma_without_empty(parts: Seq<Seq<char>>)
    ensures
        forall|i: int|
            0 <= i < without_empty(parts).len() ==> (#[trigger] without_empty(parts)[i]).len() > 0
                && exists|k: int| 0 <= k < parts.len() && parts[k] == without_empty(parts)[i],
        (forall|i: int| 0 <= i < parts.len() ==> (#[trigger] parts[i]).len() > 0) ==> without_empty(
            parts,
        ) == parts,
    decreases parts.len(),
{
    if parts.len() > 0 {
        let before = parts.drop_last();
        lemma_without_empty(before);
        assert forall|i: int| 0 <= i < without_empty(parts).len() implies (
        #[trigger] without_empty(parts)[i]).len() > 0 && exists|k: int|
            0 <= k < parts.len() && parts[k] == without_empty(parts)[i] by {
            if i < without_empty(before).len() {
                assert(without_empty(before)[i].len() > 0);
                let k = choose|k: int|
                    0 <= k < before.len() && before[k] == without_empty(before)[i];
                assert(parts[k] == without_empty(parts)[i]);
            } else {
                assert(parts[parts.len() - 1] == without_empty(parts)[i]);
            }
        }
        if forall|i: int| 0 <= i < parts.len() ==> (#[trigger] parts[i]).len() > 0 {
            assert forall|i: int| 0 <= i < before.len() implies (#[trigger] before[i]).len() > 0 by {
                assert(parts[i].len() > 0);
            }
            assert(parts[parts.len() - 1].len() > 0);
            assert(without_empty(parts) =~= parts);
        }
    }
}

/// The pieces of parts with a backslash behind each and a name behind them are
/// the parts and the name.
proof fn lemma_pieces_of_backslashed(parts: Seq<Seq<char>>, name: Seq<char>)
    requires
        forall|i: int| 0 <= i < parts.len() ==> !(#[trigger] parts[i]).contains('\\'),
        !name.contains('\\'),
    ensures
        pieces(backslashed(parts) + name, '\\') == parts.push(name),
    decreases parts.len(),
{
    lemma_single_piece(name, '\\');
    if parts.len() == 0 {
        assert(backslashed(parts) + name =~= name);
        assert(parts.push(name) =~= seq![name]);
    } else {
        let before = parts.drop_last();
        let text = backslashed(before) + parts.last();
        assert forall|i: int| 0 <= i < before.len() implies !(#[trigger] before[i]).contains('\\') by {
            assert(!parts[i].contains('\\'));
        }
        assert(!parts[parts.len() - 1].contains('\\'));
        lemma_pieces_of_backslashed(before, parts.last());
        assert(backslashed(parts) + name =~= text.push('\\') + name);
        law_pieces_of_two(text, name, '\\');
        assert(before.push(parts.last()) =~= parts);
        assert(parts + seq![name] =~= parts.push(name));
    }
}

/// A name behind rebuilt parts changes nothing of which of them are kept.
proof fn lemma_kept_with_name(parts: Seq<Seq<char>>, name: Seq<char>)
    requires
        are_rebuilt(parts),
        name.len() > 0,
    ensures
        ({
            let all = parts.push(name);
            let n = prefix_parts(all) as int;
            all.take(n) + without_empty(all.skip(n)) == all
        }),
{
    let all = parts.push(name);
    let n = prefix_parts(all) as int;
    assert(parts.len() > 0 ==> n >= prefix_parts(parts)) by {
        assert(parts.len() > 0 ==> all[0] == parts[0]);
        assert(parts.len() > 1 ==> all[1] == parts[1]);
        assert(parts.len() > 2 ==> all[2] == parts[2]);
    }
    assert(n <= all.len());
    assert forall|i: int| 0 <= i < all.skip(n).len() implies (#[trigger] all.skip(n)[i]).len()
        > 0 by {
        if n + i < parts.len() {
            assert(parts[n + i].len() > 0);
        }
    }
    lemma_without_empty(all.skip(n));
    assert(all.take(n) + all.skip(n) =~= all);
}

/// A path of rebuilt parts and a name is rebuilt as it is written.
proof fn lemma_rebuilt_is_settled(path: Seq<char>, parts: Seq<Seq<char>>, name: Seq<char>)
    requires
        occurs_at(path, VERBATIM@, 0),
        path.skip(4) == backslashed(parts) + name,
        are_rebuilt(parts),
        is_simple_name(PathStyle::Windows, name),
    ensures
        VERBATIM@ + backslashed(rebuilt_from(path)) == path.push('\\'),
{
    let all = parts.push(name);
    assert(verbatim_parts(path) == all) by {
        assert forall|k: int| 0 <= k < name.len() implies name[k] != '\\' && name[k] != '/' by {
            assert(!PathStyle::Windows.is_separator(name[k]));
        }
        lemma_pieces_of_backslashed(parts, name);
    }
    lemma_kept_with_name(parts, name);
    lemma_mark(path);
    assert(all.drop_last() =~= parts);
    assert(backslashed(all) =~= path.skip(4).push('\\'));
    assert(path.take(4) + path.skip(4).push('\\') =~= path.push('\\'));
}

/// On Unix a name is put behind a slash, unless there is one or nothing to put
/// it behind; a name from the root stands for itself.
pub proof fn law_joining_on_unix(base: Seq<char>, name: Seq<char>)
    requires
        name.len() > 0,
    ensures
        name[0] == '/' ==> joined(PathStyle::Unix, base, name) == name,
        base.len() == 0 ==> joined(PathStyle::Unix, base, name) == name,
        name[0] != '/' && base.len() > 0 && base.last() == '/' ==> joined(
            PathStyle::Unix,
            base,
            name,
        ) == base + name,
        name[0] != '/' && base.len() > 0 && base.last() != '/' ==> joined(
            PathStyle::Unix,
            base,
            name,
        ) == base + seq!['/'] + name,
{
    assert(Seq::<char>::empty() + name =~= name);
    if base.len() == 0 {
        assert(base + name =~= name);
    }
    assert(base.push('/') + name =~= base + seq!['/'] + name);
}

/// On Windows a simple name is put behind a backslash, unless there is a
/// separator, a drive or nothing to put it behind.
pub proof fn law_joining_on_windows(base: Seq<char>, name: Seq<char>)
    requires
        is_simple_name(PathStyle::Windows, name),
        !occurs_at(base, VERBATIM@, 0),
    ensures
        base.len() == 0 ==> joined(PathStyle::Windows, base, name) == name,
        base.len() > 0 && (base.last() == '/' || base.last() == '\\') ==> joined(
            PathStyle::Windows,
            base,
            name,
        ) == base + name,
        base.len() == 2 && base[1] == ':' && ('a' <= base[0] <= 'z' || 'A' <= base[0] <= 'Z')
            ==> joined(PathStyle::Windows, base, name) == base + name,
        base.len() > 0 && base.last() != '/' && base.last() != '\\' && base.last() != ':' ==> joined(
            PathStyle::Windows,
            base,
            name,
        ) == base + seq!['\\'] + name,
{
    assert(!PathStyle::Windows.is_separator(name[0]));
    if base.len() == 0 {
        assert(base + name =~= name);
    }
    assert(base.push('\\') + name =~= base + seq!['\\'] + name);
}

/// There is a folder for each component, and the first folder is the first
/// component.
pub proof fn law_folders_begin(style: PathStyle, path: Seq<char>)
    ensures
        folder_chain(style, path).len() == components(style, path).len(),
        components(style, path).len() > 0 ==> folder_chain(style, path)[0] == components(
            style,
            path,
        )[0],
{
    reveal_with_fuel(path_of, 2);
    if components(style, path).len() > 0 {
        let first = components(style, path)[0];
        lemma_not_verbatim(style, Seq::empty());
        assert(Seq::<char>::empty() + first =~= first);
    }
}

/// A name without separators is its only component.
pub proof fn law_single_component(style: PathStyle, text: Seq<char>)
    requires
        is_undivided(style, text),
        names_something(text),
    ensures
        components(style, text) == seq![text],
{
    lemma_single_part(style, text);
    lemma_all_named(seq![text]);
    assert(!style.is_separator(text[0]));
}

/// Separators are written as the machine writes them, and nothing else changes.
pub proof fn law_rewriting_keeps_names(style: PathStyle, path: Seq<char>, i: int)
    requires
        0 <= i < path.len(),
    ensures
        rewritten(style, path).len() == path.len(),
        path[i] == '/' || (style is Windows && path[i] == '\\') ==> rewritten(style, path)[i]
            == style.main_separator(),
        path[i] != '/' && !(style is Windows && path[i] == '\\') ==> rewritten(style, path)[i]
            == path[i],
        style is Unix ==> style.main_separator() == '/',
        style is Windows ==> style.main_separator() == '\\',
{
}

/// A piece is left out exactly where it is empty or a single dot, and the others
/// keep their order.
pub proof fn law_pieces_that_are_kept(parts: Seq<Seq<char>>, piece: Seq<char>)
    ensures
        named(Seq::empty()) == Seq::<Seq<char>>::empty(),
        named(parts.push(piece)) == (if piece.len() == 0 || (piece.len() == 1 && piece[0] == '.') {
            named(parts)
        } else {
            named(parts).push(piece)
        }),
{
    reveal(Seq::filter);
    assert(parts.push(piece).drop_last() =~= parts);
    if piece.len() == 1 && piece[0] == '.' {
        assert(piece =~= seq!['.']);
    }
}

/// Behind a verbatim path that is written as it is rebuilt, a simple name is put
/// behind a backslash.
pub proof fn law_joining_behind_a_settled_path(base: Seq<char>, name: Seq<char>)
    requires
        is_simple_name(PathStyle::Windows, name),
        occurs_at(base, VERBATIM@, 0),
        is_settled(PathStyle::Windows, base),
    ensures
        joined(PathStyle::Windows, base, name) == base + seq!['\\'] + name,
{
    assert(!PathStyle::Windows.is_separator(name[0]));
    assert(base.push('\\') + name =~= base + seq!['\\'] + name);
}

} // verus!
