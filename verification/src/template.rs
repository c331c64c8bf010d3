//! The note about a property, made from a template.
use vstd::prelude::*;

use crate::decimal::{
    grouped, law_commas_are_placed, law_decimal_parses_back, law_grouped_begins,
    law_grouped_is_digits_and_commas, law_grouped_without_commas, parsed, to_grouped,
};
use crate::page::{MetadataView, PropertyMetadata};
use crate::text::{
    law_first_is_replaced, law_front_is_kept, law_none_is_left, law_nothing_to_replace, occurs_at,
    occurs_in, replace, replaced, without_char,
};

verus! {

/// The link to the page of the listing.
pub open spec fn url_link(url: Seq<char>) -> Seq<char> {
    "[URL]("@ + url + ")"@
}

/// The price in dollars.
pub open spec fn price_text(price: u32) -> Seq<char> {
    "$"@ + grouped(price as nat)
}

/// The template with the placeholders filled in, one after the other. What one
/// of them is filled with may itself hold a later one, which is then filled in
/// as well.
pub open spec fn filled_in(template: Seq<char>, metadata: MetadataView) -> Seq<char> {
    let t1 = replaced(template, "{{property address}}"@, metadata.full_address());
    let t2 = replaced(t1, "{{url}}"@, url_link(metadata.url));
    let t3 = replaced(t2, "{{price}}"@, price_text(metadata.price));
    let t4 = replaced(t3, "{{description}}"@, metadata.description);
    let t5 = replaced(t4, "{{mls}}"@, metadata.mls);
    replaced(t5, "{{photo}}"@, "![First image](images/compass/1.webp)"@)
}

/// The template with the placeholders filled in.
pub fn fill_in(template: &str, metadata: &PropertyMetadata) -> (r: String)
    ensures
        r@ == filled_in(template@, metadata@),
        ({
            let address = metadata.street@ + ", "@ + metadata.city@ + ", "@ + metadata.state@ + " "@
                + metadata.zip@;
            let t1 = replaced(template@, "{{property address}}"@, address);
            let t2 = replaced(t1, "{{url}}"@, "[URL]("@ + metadata.url@ + ")"@);
            let t3 = replaced(t2, "{{price}}"@, "$"@ + grouped(metadata.price as nat));
            let t4 = replaced(t3, "{{description}}"@, metadata.description@);
            let t5 = replaced(t4, "{{mls}}"@, metadata.mls@);
            r@ == replaced(t5, "{{photo}}"@, "![First image](images/compass/1.webp)"@)
        }),
{
    proof {
        reveal_strlit("{{property address}}");
        reveal_strlit("{{url}}");
        reveal_strlit("{{price}}");
        reveal_strlit("{{description}}");
        reveal_strlit("{{mls}}");
        reveal_strlit("{{photo}}");
    }
    let link = "[URL](".to_owned().concat(metadata.url.as_str()).concat(")");
    let price = "$".to_owned().concat(to_grouped(metadata.price).as_str());
    let contents = replace(template, "{{property address}}", metadata.full_address().as_str());
    let contents = replace(contents.as_str(), "{{url}}", link.as_str());
    let contents = replace(contents.as_str(), "{{price}}", price.as_str());
    let contents = replace(contents.as_str(), "{{description}}", metadata.description.as_str());
    let contents = replace(contents.as_str(), "{{mls}}", metadata.mls.as_str());
    replace(contents.as_str(), "{{photo}}", "![First image](images/compass/1.webp)")
}

/// A template without placeholders stays as it is.
pub proof fn law_template_without_placeholders(template: Seq<char>, metadata: MetadataView)
    requires
        !occurs_in("{{property address}}"@, template),
        !occurs_in("{{url}}"@, template),
        !occurs_in("{{price}}"@, template),
        !occurs_in("{{description}}"@, template),
        !occurs_in("{{mls}}"@, template),
        !occurs_in("{{photo}}"@, template),
    ensures
        filled_in(template, metadata) == template,
{
    law_nothing_to_replace(template, "{{property address}}"@, metadata.full_address());
    law_nothing_to_replace(template, "{{url}}"@, url_link(metadata.url));
    law_nothing_to_replace(template, "{{price}}"@, price_text(metadata.price));
    law_nothing_to_replace(template, "{{description}}"@, metadata.description);
    law_nothing_to_replace(template, "{{mls}}"@, metadata.mls);
    law_nothing_to_replace(template, "{{photo}}"@, "![First image](images/compass/1.webp)"@);
}

/// The place of the photo is filled in wherever it stands, be it in the
/// template or in a text that came in for another placeholder.
pub proof fn law_photo_is_filled_in(template: Seq<char>, metadata: MetadataView)
    ensures
        !occurs_in("{{photo}}"@, filled_in(template, metadata)),
{
    let t1 = replaced(template, "{{property address}}"@, metadata.full_address());
    let t2 = replaced(t1, "{{url}}"@, url_link(metadata.url));
    let t3 = replaced(t2, "{{price}}"@, price_text(metadata.price));
    let t4 = replaced(t3, "{{description}}"@, metadata.description);
    let t5 = replaced(t4, "{{mls}}"@, metadata.mls);
    let mark = "{{photo}}"@;
    let photo = "![First image](images/compass/1.webp)"@;
    reveal_strlit("{{photo}}");
    reveal_strlit("![First image](images/compass/1.webp)");
    assert forall|i: int| !occurs_at(photo, mark, i) by {
        if occurs_at(photo, mark, i) {
            assert(photo.subrange(i, i + mark.len())[0] == photo[i]);
            assert(photo[i] == '{');
        }
    }
    law_none_is_left(t5, mark, photo);
}

/// The price in the note, read as a price on a page is read, is the price.
pub proof fn law_price_reads_back(price: u32)
    ensures
        parsed(without_char(grouped(price as nat), ','), u32::MAX as nat) == Some(price as nat),
{
    law_grouped_without_commas(price as nat);
    law_decimal_parses_back(price as nat, u32::MAX as nat);
}

/// The placeholders, in the order in which they are filled in.
pub open spec fn placeholder(k: int) -> Seq<char> {
    if k == 0 {
        "{{property address}}"@
    } else if k == 1 {
        "{{url}}"@
    } else if k == 2 {
        "{{price}}"@
    } else if k == 3 {
        "{{description}}"@
    } else if k == 4 {
        "{{mls}}"@
    } else {
        "{{photo}}"@
    }
}

/// What a placeholder stands for.
pub open spec fn meaning(k: int, metadata: MetadataView) -> Seq<char> {
    if k == 0 {
        metadata.full_address()
    } else if k == 1 {
        url_link(metadata.url)
    } else if k == 2 {
        price_text(metadata.price)
    } else if k == 3 {
        metadata.description
    } else if k == 4 {
        metadata.mls
    } else {
        "![First image](images/compass/1.webp)"@
    }
}

/// A name in two pairs of braces.
spec fn is_mark(m: Seq<char>) -> bool {
    &&& m.len() >= 5
    &&& m[0] == '{' && m[1] == '{'
    &&& m[m.len() - 2] == '}' && m[m.len() - 1] == '}'
    &&& forall|i: int| 2 <= i < m.len() - 2 ==> #[trigger] m[i] != '{' && m[i] != '}'
}

/// Every placeholder is a name in two pairs of braces, and no two have the same
/// name.
proof fn lemma_placeholders(j: int, k: int)
    requires
        0 <= j < 6,
        0 <= k < 6,
    ensures
        is_mark(placeholder(j)),
        j != k ==> placeholder(j) != placeholder(k),
{
    reveal_strlit("{{property address}}");
    reveal_strlit("{{url}}");
    reveal_strlit("{{price}}");
    reveal_strlit("{{description}}");
    reveal_strlit("{{mls}}");
    reveal_strlit("{{photo}}");
    assert("{{property address}}"@.len() == 20 && "{{description}}"@.len() == 15);
    assert("{{mls}}"@.len() == 7 && "{{url}}"@.len() == 7);
    assert("{{price}}"@.len() == 9 && "{{photo}}"@.len() == 9);
    assert("{{mls}}"@[2] == 'm' && "{{url}}"@[2] == 'u');
    assert("{{price}}"@[3] == 'r' && "{{photo}}"@[3] == 'h');
}

/// A name in braces does not occur where there is no brace.
proof fn lemma_no_brace_no_mark(s: Seq<char>, m: Seq<char>)
    requires
        is_mark(m),
        !s.contains('{'),
    ensures
        !occurs_in(m, s),
{
    assert forall|i: int| !occurs_at(s, m, i) by {
        if occurs_at(s, m, i) {
            assert(s.subrange(i, i + m.len())[0] == s[i]);
        }
    }
}

/// In a text with one name in braces, nothing but that name in braces occurs,
/// and it occurs at its place alone.
proof fn lemma_only_mark(a: Seq<char>, m: Seq<char>, b: Seq<char>, q: Seq<char>, i: int)
    requires
        is_mark(m),
        is_mark(q),
        !a.contains('{'),
        !b.contains('{'),
        occurs_at(a + m + b, q, i),
    ensures
        i == a.len(),
        q == m,
{
    let s = a + m + b;
    assert(s.subrange(i, i + q.len())[0] == s[i]);
    assert(s.subrange(i, i + q.len())[1] == s[i + 1]);
    assert forall|k: int| 0 <= k < s.len() && #[trigger] s[k] == '{' implies k == a.len() || k
        == a.len() + 1 by {
        if k < a.len() {
            assert(a[k] == s[k]);
        } else if k < a.len() + m.len() {
            assert(m[k - a.len()] == s[k]);
        } else {
            assert(b[k - a.len() - m.len()] == s[k]);
        }
    }
    assert(s[i] == '{' && s[i + 1] == '{');
    assert(i == a.len());
    assert forall|k: int| 0 <= k < q.len() && k < m.len() implies q[k] == m[k] by {
        assert(s.subrange(i, i + q.len())[k] == s[i + k]);
    }
    if q.len() < m.len() {
        assert(m[q.len() - 2] == q[q.len() - 2]);
    } else if m.len() < q.len() {
        assert(q[m.len() - 2] == m[m.len() - 2]);
    }
    assert(q =~= m);
}

/// The text with one placeholder before placeholder `j` is filled in: the
/// placeholder is still there, or what it stands for is.
spec fn filling(a: Seq<char>, k: int, b: Seq<char>, metadata: MetadataView, j: int) -> Seq<char> {
    if j <= k {
        a + placeholder(k) + b
    } else {
        a + meaning(k, metadata) + b
    }
}

/// Filling in placeholder `j` in a text with placeholder `k` alone.
proof fn lemma_filling_step(a: Seq<char>, k: int, b: Seq<char>, metadata: MetadataView, j: int)
    requires
        0 <= j < 6,
        0 <= k < 6,
        !a.contains('{'),
        !b.contains('{'),
        !meaning(k, metadata).contains('{'),
    ensures
        replaced(filling(a, k, b, metadata, j), placeholder(j), meaning(j, metadata)) == filling(
            a,
            k,
            b,
            metadata,
            j + 1,
        ),
{
    let before = a + placeholder(k) + b;
    let after = a + meaning(k, metadata) + b;
    let (m, w) = (placeholder(j), meaning(j, metadata));
    lemma_placeholders(j, k);
    lemma_placeholders(k, j);
    if j < k {
        assert forall|i: int| !occurs_at(before, m, i) by {
            if occurs_at(before, m, i) {
                lemma_only_mark(a, placeholder(k), b, m, i);
            }
        }
        law_nothing_to_replace(before, m, w);
    } else if j == k {
        assert forall|i: int| 0 <= i < a.len() implies !occurs_at(before, m, i) by {
            if occurs_at(before, m, i) {
                lemma_only_mark(a, m, b, m, i);
            }
        }
        law_first_is_replaced(a, m, b, w);
        lemma_no_brace_no_mark(b, m);
        law_nothing_to_replace(b, m, w);
    } else {
        if after.contains('{') {
            let n = choose|n: int| 0 <= n < after.len() && after[n] == '{';
            let v = meaning(k, metadata);
            if n < a.len() {
                assert(a[n] == '{');
            } else if n < a.len() + v.len() {
                assert(v[n - a.len()] == '{');
            } else {
                assert(b[n - a.len() - v.len()] == '{');
            }
        }
        lemma_no_brace_no_mark(after, m);
        law_nothing_to_replace(after, m, w);
    }
}

/// A placeholder in a text without other braces is filled in with what it
/// stands for, and the text around it is kept.
pub proof fn law_placeholder_is_filled_in(
    a: Seq<char>,
    k: int,
    b: Seq<char>,
    metadata: MetadataView,
)
    requires
        0 <= k < 6,
        !a.contains('{'),
        !b.contains('{'),
        !meaning(k, metadata).contains('{'),
    ensures
        filled_in(a + placeholder(k) + b, metadata) == a + meaning(k, metadata) + b,
{
    lemma_filling_step(a, k, b, metadata, 0);
    lemma_filling_step(a, k, b, metadata, 1);
    lemma_filling_step(a, k, b, metadata, 2);
    lemma_filling_step(a, k, b, metadata, 3);
    lemma_filling_step(a, k, b, metadata, 4);
    lemma_filling_step(a, k, b, metadata, 5);
}

/// A text after the first `j` placeholders are filled in.
spec fn partly_filled(text: Seq<char>, metadata: MetadataView, j: nat) -> Seq<char>
    decreases j,
{
    if j == 0 {
        text
    } else {
        replaced(
            partly_filled(text, metadata, (j - 1) as nat),
            placeholder(j - 1),
            meaning(j - 1, metadata),
        )
    }
}

/// No name in braces begins in the text: behind each opening brace stands
/// another character.
pub open spec fn opens_nothing(text: Seq<char>) -> bool {
    forall|i: int|
        0 <= i < text.len() && #[trigger] text[i] == '{' ==> i + 1 < text.len() && text[i + 1]
            != '{'
}

/// No name in braces begins in a text that opens none.
proof fn lemma_no_mark_begins(a: Seq<char>, y: Seq<char>, q: Seq<char>, i: int)
    requires
        is_mark(q),
        opens_nothing(a),
        0 <= i < a.len(),
    ensures
        !occurs_at(a + y, q, i),
{
    if occurs_at(a + y, q, i) {
        assert((a + y).subrange(i, i + q.len())[0] == (a + y)[i]);
        assert((a + y).subrange(i, i + q.len())[1] == (a + y)[i + 1]);
        assert(a[i] == '{' && a[i + 1] == '{');
    }
}

/// No name in braces begins in another one, or in a text that opens none before
/// it.
proof fn lemma_no_other_mark_begins(
    a: Seq<char>,
    m: Seq<char>,
    y: Seq<char>,
    q: Seq<char>,
    i: int,
)
    requires
        is_mark(m),
        is_mark(q),
        q != m,
        opens_nothing(a),
        0 <= i < a.len() + m.len(),
    ensures
        !occurs_at(a + m + y, q, i),
{
    let s = a + m + y;
    if occurs_at(s, q, i) {
        assert forall|k: int| 0 <= k < q.len() implies s[i + k] == q[k] by {
            assert(s.subrange(i, i + q.len())[k] == s[i + k]);
        }
        assert(s[i + 0] == q[0] && s[i + 1] == q[1]);
        if i < a.len() {
            assert(a[i] == '{');
        } else {
            let at = i - a.len();
            assert(s[i] == m[at]);
            assert(at <= 1);
            if at == 1 {
                assert(s[i + 1] == m[2]);
            } else {
                assert forall|k: int| 0 <= k < q.len() && k < m.len() implies q[k] == m[k] by {
                    assert(s[i + k] == q[k]);
                }
                if q.len() < m.len() {
                    assert(m[q.len() - 2] == q[q.len() - 2]);
                } else if m.len() < q.len() {
                    assert(q[m.len() - 2] == m[m.len() - 2]);
                }
                assert(q =~= m);
            }
        }
    }
}

/// Filling in placeholder `j` in a text that begins with a front that opens none
/// and placeholder `k`.
proof fn lemma_front_step(
    a: Seq<char>,
    k: int,
    b: Seq<char>,
    metadata: MetadataView,
    j: nat,
)
    requires
        0 <= j < 6,
        0 <= k < 6,
        opens_nothing(a),
        opens_nothing(meaning(k, metadata)),
    ensures
        ({
            let rest = partly_filled(b, metadata, j);
            let done = partly_filled(b, metadata, j + 1);
            let front = if j <= k {
                a + placeholder(k)
            } else {
                a + meaning(k, metadata)
            };
            let next_front = if j + 1 <= k {
                a + placeholder(k)
            } else {
                a + meaning(k, metadata)
            };
            replaced(front + rest, placeholder(j as int), meaning(j as int, metadata)) == next_front
                + done
        }),
{
    let rest = partly_filled(b, metadata, j);
    let (m, w) = (placeholder(j as int), meaning(j as int, metadata));
    lemma_placeholders(j as int, k);
    lemma_placeholders(k, j as int);
    if j < k {
        let front = a + placeholder(k);
        assert forall|i: int| 0 <= i < front.len() implies !occurs_at(front + rest, m, i) by {
            lemma_no_other_mark_begins(a, placeholder(k), rest, m, i);
        }
        law_front_is_kept(front, rest, m, w);
    } else if j == k {
        assert forall|i: int| 0 <= i < a.len() implies !occurs_at(a + m + rest, m, i) by {
            lemma_no_mark_begins(a, m + rest, m, i);
            assert(a + m + rest =~= a + (m + rest));
        }
        law_first_is_replaced(a, m, rest, w);
    } else {
        let v = meaning(k, metadata);
        let front = a + v;
        assert forall|n: int| 0 <= n < front.len() && #[trigger] front[n] == '{' implies n + 1
            < front.len() && front[n + 1] != '{' by {
            if n < a.len() {
                assert(a[n] == '{' && front[n + 1] == a[n + 1]);
            } else {
                assert(v[n - a.len()] == '{' && front[n + 1] == v[n + 1 - a.len()]);
            }
        }
        assert forall|i: int| 0 <= i < front.len() implies !occurs_at(front + rest, m, i) by {
            lemma_no_mark_begins(front, rest, m, i);
        }
        law_front_is_kept(front, rest, m, w);
    }
}

/// A placeholder behind a text that opens none is filled in, and so is what
/// stands behind it.
proof fn lemma_filled_from_the_front(
    a: Seq<char>,
    k: int,
    b: Seq<char>,
    metadata: MetadataView,
)
    requires
        0 <= k < 6,
        opens_nothing(a),
        opens_nothing(meaning(k, metadata)),
    ensures
        filled_in(a + placeholder(k) + b, metadata) == a + meaning(k, metadata) + filled_in(
            b,
            metadata,
        ),
{
    reveal_with_fuel(partly_filled, 7);
    lemma_front_step(a, k, b, metadata, 0);
    lemma_front_step(a, k, b, metadata, 1);
    lemma_front_step(a, k, b, metadata, 2);
    lemma_front_step(a, k, b, metadata, 3);
    lemma_front_step(a, k, b, metadata, 4);
    lemma_front_step(a, k, b, metadata, 5);
    assert(partly_filled(b, metadata, 6) == filled_in(b, metadata));
}

/// The place of the address is filled in with the street, the city, the state
/// and the zip code in one line.
pub proof fn law_address_is_filled_in(a: Seq<char>, b: Seq<char>, metadata: MetadataView)
    requires
        opens_nothing(a),
        opens_nothing(metadata.full_address()),
    ensures
        filled_in(a + "{{property address}}"@ + b, metadata) == a + metadata.street + ", "@
            + metadata.city + ", "@ + metadata.state + " "@ + metadata.zip + filled_in(b, metadata),
{
    lemma_filled_from_the_front(a, 0, b, metadata);
    assert(a + metadata.full_address() + filled_in(b, metadata) =~= a + metadata.street + ", "@
        + metadata.city + ", "@ + metadata.state + " "@ + metadata.zip + filled_in(b, metadata));
}

/// The place of the link is filled in with a link to the page.
pub proof fn law_link_is_filled_in(a: Seq<char>, b: Seq<char>, metadata: MetadataView)
    requires
        opens_nothing(a),
        opens_nothing(metadata.url),
    ensures
        filled_in(a + "{{url}}"@ + b, metadata) == a + "[URL]("@ + metadata.url + ")"@ + filled_in(
            b,
            metadata,
        ),
{
    let link = url_link(metadata.url);
    reveal_strlit("[URL](");
    reveal_strlit(")");
    assert forall|n: int| 0 <= n < link.len() && #[trigger] link[n] == '{' implies n + 1
        < link.len() && link[n + 1] != '{' by {
        let at = "[URL]("@.len() as int;
        assert(at <= n < at + metadata.url.len());
        assert(metadata.url[n - at] == '{' && link[n + 1] == metadata.url[n + 1 - at]);
    }
    lemma_filled_from_the_front(a, 1, b, metadata);
    assert(a + link + filled_in(b, metadata) =~= a + "[URL]("@ + metadata.url + ")"@ + filled_in(
        b,
        metadata,
    ));
}

/// The price in dollars as it is written: read as a number without its commas,
/// it is the price, and a comma stands before every third digit from the right.
pub open spec fn writes_price(text: Seq<char>, price: u32) -> bool {
    &&& parsed(without_char(text, ','), u32::MAX as nat) == Some(price as nat)
    &&& text.len() > 0 && text[0] != ',' && text[0] != '+'
    &&& price > 0 ==> text[0] != '0'
    &&& price == 0 ==> text.len() == 1
    &&& forall|i: int|
        0 <= i < text.len() ==> (#[trigger] text[i] == ',' <==> (text.len() - i) % 4 == 0)
}

/// The place of the price is filled in with a dollar sign and the property's
/// price.
pub proof fn law_price_is_filled_in(a: Seq<char>, b: Seq<char>, metadata: MetadataView)
    requires
        opens_nothing(a),
    ensures
        exists|text: Seq<char>| #[trigger] writes_price(text, metadata.price) && filled_in(
            a + "{{price}}"@ + b,
            metadata,
        ) == a + "$"@ + text + filled_in(b, metadata),
{
    let text = grouped(metadata.price as nat);
    lemma_price_is_written(metadata.price);
    lemma_no_brace_in_price(metadata.price);
    lemma_filled_from_the_front(a, 2, b, metadata);
    assert(price_text(metadata.price) == "$"@ + text);
    assert(a + ("$"@ + text) + filled_in(b, metadata) =~= a + "$"@ + text + filled_in(b, metadata));
}

/// The grouped notation of a price writes it.
proof fn lemma_price_is_written(price: u32)
    ensures
        writes_price(grouped(price as nat), price),
{
    let text = grouped(price as nat);
    law_price_reads_back(price);
    law_grouped_begins(price as nat);
    assert forall|i: int| 0 <= i < text.len() implies (#[trigger] text[i] == ',' <==> (text.len()
        - i) % 4 == 0) by {
        law_commas_are_placed(price as nat, i);
    }
}

/// No brace stands in a price.
proof fn lemma_no_brace_in_price(price: u32)
    ensures
        opens_nothing(price_text(price)),
{
    let text = grouped(price as nat);
    reveal_strlit("$");
    law_grouped_is_digits_and_commas(price as nat);
    assert forall|n: int| 0 <= n < price_text(price).len() implies #[trigger] price_text(price)[n]
        != '{' by {
        if n > 0 {
            assert(price_text(price)[n] == text[n - 1]);
        }
    }
}

/// The places of the description and of the MLS number are filled in with
/// them.
pub proof fn law_texts_are_filled_in(a: Seq<char>, b: Seq<char>, metadata: MetadataView)
    requires
        opens_nothing(a),
    ensures
        opens_nothing(metadata.description) ==> filled_in(a + "{{description}}"@ + b, metadata) == a
            + metadata.description + filled_in(b, metadata),
        opens_nothing(metadata.mls) ==> filled_in(a + "{{mls}}"@ + b, metadata) == a + metadata.mls
            + filled_in(b, metadata),
{
    if opens_nothing(metadata.description) {
        lemma_filled_from_the_front(a, 3, b, metadata);
    }
    if opens_nothing(metadata.mls) {
        lemma_filled_from_the_front(a, 4, b, metadata);
    }
}

/// The place of the photo is filled in with the first image.
pub proof fn law_first_image_is_the_photo(a: Seq<char>, b: Seq<char>, metadata: MetadataView)
    requires
        opens_nothing(a),
    ensures
        filled_in(a + "{{photo}}"@ + b, metadata) == a + "![First image](images/compass/1.webp)"@
            + filled_in(b, metadata),
{
    reveal_strlit("![First image](images/compass/1.webp)");
    lemma_filled_from_the_front(a, 5, b, metadata);
}

/// Before its turn a placeholder alone stays as it is.
proof fn lemma_alone(k: int, metadata: MetadataView, j: nat)
    requires
        0 <= j <= k < 6,
    ensures
        partly_filled(placeholder(k), metadata, j) == placeholder(k),
    decreases j,
{
    if j > 0 {
        lemma_alone(k, metadata, (j - 1) as nat);
        lemma_placeholders(j - 1, k);
        lemma_placeholders(k, j - 1);
        let (m, q) = (placeholder(k), placeholder(j - 1));
        assert forall|i: int| !occurs_at(m, q, i) by {
            if occurs_at(m, q, i) {
                assert(Seq::empty() + m + Seq::empty() =~= m);
                lemma_only_mark(Seq::empty(), m, Seq::empty(), q, i);
            }
        }
        law_nothing_to_replace(m, q, meaning(j - 1, metadata));
    }
}

/// At its turn a placeholder alone becomes what it stands for.
proof fn lemma_alone_is_filled(k: int, metadata: MetadataView)
    requires
        0 <= k < 6,
    ensures
        partly_filled(placeholder(k), metadata, (k + 1) as nat) == meaning(k, metadata),
{
    let (m, w) = (placeholder(k), meaning(k, metadata));
    let none = Seq::<char>::empty();
    lemma_alone(k, metadata, k as nat);
    lemma_placeholders(k, k);
    assert(none + m + none =~= m);
    law_first_is_replaced(none, m, none, w);
    assert(replaced(none, m, w) =~= none);
    assert(none + w + none =~= w);
}

/// A text that comes in for a placeholder stays as it is where it holds none of
/// the later placeholders, whatever else it holds.
pub proof fn law_texts_come_in_as_they_are(metadata: MetadataView)
    ensures
        !occurs_in("{{photo}}"@, metadata.mls) ==> filled_in("{{mls}}"@, metadata) == metadata.mls,
        !occurs_in("{{mls}}"@, metadata.description) && !occurs_in(
            "{{photo}}"@,
            metadata.description,
        ) ==> filled_in("{{description}}"@, metadata) == metadata.description,
{
    reveal_with_fuel(partly_filled, 7);
    lemma_alone_is_filled(3, metadata);
    lemma_alone_is_filled(4, metadata);
    let photo = "![First image](images/compass/1.webp)"@;
    if !occurs_in("{{photo}}"@, metadata.mls) {
        law_nothing_to_replace(metadata.mls, "{{photo}}"@, photo);
    }
    if !occurs_in("{{mls}}"@, metadata.description) && !occurs_in(
        "{{photo}}"@,
        metadata.description,
    ) {
        law_nothing_to_replace(metadata.description, "{{mls}}"@, metadata.mls);
        law_nothing_to_replace(metadata.description, "{{photo}}"@, photo);
    }
    assert(filled_in("{{mls}}"@, metadata) == partly_filled(placeholder(4), metadata, 6));
    assert(filled_in("{{description}}"@, metadata) == partly_filled(placeholder(3), metadata, 6));
}

/// A later placeholder in a description is filled in as if it stood in the
/// template.
pub proof fn law_later_placeholders_are_filled_in(metadata: MetadataView)
    requires
        !occurs_in("{{property address}}"@, metadata.description),
        !occurs_in("{{url}}"@, metadata.description),
        !occurs_in("{{price}}"@, metadata.description),
        !occurs_in("{{description}}"@, metadata.description),
    ensures
        filled_in("{{description}}"@, metadata) == filled_in(metadata.description, metadata),
{
    reveal_with_fuel(partly_filled, 7);
    let d = metadata.description;
    lemma_alone_is_filled(3, metadata);
    law_nothing_to_replace(d, "{{property address}}"@, metadata.full_address());
    law_nothing_to_replace(d, "{{url}}"@, url_link(metadata.url));
    law_nothing_to_replace(d, "{{price}}"@, price_text(metadata.price));
    law_nothing_to_replace(d, "{{description}}"@, d);
    assert(filled_in("{{description}}"@, metadata) == partly_filled(placeholder(3), metadata, 6));
}

} // verus!
