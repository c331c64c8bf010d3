//! What a listing page says about a property.
use vstd::pervasive::unreached;
use vstd::prelude::*;

use crate::decimal::{all_digits, digits_value, is_digit, parse_up_to, parsed};
use crate::error::{AppError, ErrorView};
use crate::text::{occurs_at, occurs_in, remove_char, views, without_char};

verus! {

/// The links to the images, in their full size.
pub const IMAGE_LINK: &'static str = "\"(https://[^\"]*?origin\\.webp)\"";

/// The title of the page: street, city, state, zip code and MLS number.
pub const TITLE: &'static str =
    "<title>(.*?), (.*?), (..) (\\d{5}) \\| MLS #(\\d*?) \\| Compass</title>";

/// The price that the first entry of the property's history gives.
pub const PRICE: &'static str = "propertyHistory-table-td.><div>\\$([0-9,]+)</div></td></tr>";

/// The description of the property.
pub const DESCRIPTION: &'static str =
    ".,.addressCountry.:.US.}},.description.:.(.+?).,.floorSize.:";

/// The capture groups of one match: the whole match first, and what each group
/// matched, where it took part in the match.
pub type Groups = Vec<Option<String>>;

/// What the capture groups of one match hold.
pub open spec fn groups_view(groups: Seq<Option<String>>) -> Seq<Option<Seq<char>>> {
    Seq::new(
        groups.len(),
        |i: int|
            match groups[i] {
                Some(text) => Some(text@),
                None => None,
            },
    )
}

/// What the capture groups of a match hold, if there is one.
pub open spec fn match_view(found: Option<Groups>) -> Option<Seq<Option<Seq<char>>>> {
    match found {
        Some(groups) => Some(groups_view(groups@)),
        None => None,
    }
}

/// What the capture groups of several matches hold.
pub open spec fn matches_view(found: Seq<Groups>) -> Seq<Seq<Option<Seq<char>>>> {
    Seq::new(found.len(), |i: int| groups_view(found[i]@))
}

/// Each group that took part in a match stands in the text.
pub open spec fn groups_from(groups: Seq<Option<String>>, text: Seq<char>) -> bool {
    forall|i: int|
        0 <= i < groups.len() ==> ((#[trigger] groups[i]) matches Some(group) ==> occurs_in(
            group@,
            text,
        ))
}

/// Why a pattern could not be compiled.
#[verifier::external_type_specification]
#[verifier::external_body]
pub struct ExRegexError(regex::Error);

/// What `regex::Regex::captures` gives for a pattern and a text: the capture
/// groups of the first match. `None` where the pattern does not compile.
pub uninterp spec fn first_match(pattern: Seq<char>, text: Seq<char>) -> Option<
    Option<Seq<Option<Seq<char>>>>,
>;

/// What `regex::Regex::captures_iter` gives for a pattern and a text: the
/// capture groups of each match, from left to right. `None` where the pattern
/// does not compile.
pub uninterp spec fn all_matches(pattern: Seq<char>, text: Seq<char>) -> Option<
    Seq<Seq<Option<Seq<char>>>>,
>;

/// A decimal digit of any script: what the class `\d` of a pattern matches.
pub open spec fn is_any_digit(c: char) -> bool {
    first_match("\\d"@, seq![c]) matches Some(Some(_))
}

/// The groups of a match of `TITLE`: all of them take part, with the fixed
/// text of the title between them and in one line. The street ends at the
/// first comma that a space follows.
pub open spec fn is_title(groups: Seq<Option<Seq<char>>>) -> bool {
    &&& groups.len() == 6
    &&& forall|i: int| 0 <= i < 6 ==> (#[trigger] groups[i]) is Some
    &&& groups[0]->0 == "<title>"@ + groups[1]->0 + ", "@ + groups[2]->0 + ", "@ + groups[3]->0
        + " "@ + groups[4]->0 + " | MLS #"@ + groups[5]->0 + " | Compass</title>"@
    &&& !groups[0]->0.contains('\n')
    &&& !occurs_in(", "@, groups[1]->0)
    &&& groups[3]->0.len() == 2
    &&& groups[4]->0.len() == 5
    &&& forall|i: int| 0 <= i < groups[4]->0.len() ==> is_any_digit(#[trigger] groups[4]->0[i])
    &&& forall|i: int| 0 <= i < groups[5]->0.len() ==> is_any_digit(#[trigger] groups[5]->0[i])
}

/// The text is the template, with some character of a line in the place of each
/// dot.
pub open spec fn fits(text: Seq<char>, template: Seq<char>) -> bool {
    &&& text.len() == template.len()
    &&& forall|i: int|
        0 <= i < text.len() ==> #[trigger] text[i] == template[i] || (template[i] == '.' && text[i]
            != '\n')
}

/// The text is `part` between two texts that fit the templates.
pub open spec fn is_framed(
    text: Seq<char>,
    part: Seq<char>,
    before: Seq<char>,
    after: Seq<char>,
) -> bool {
    let (n, m) = (before.len() as int, (before.len() + part.len()) as int);
    &&& text.len() == before.len() + part.len() + after.len()
    &&& fits(text.take(n), before)
    &&& text.subrange(n, m) == part
    &&& fits(text.skip(m), after)
}

/// What stands before a price, and what behind it.
pub open spec fn price_frame() -> (Seq<char>, Seq<char>) {
    ("propertyHistory-table-td.><div>$"@, "</div></td></tr>"@)
}

/// What stands before the description, and what behind it.
pub open spec fn description_frame() -> (Seq<char>, Seq<char>) {
    (".,.addressCountry.:.US.}},.description.:."@, ".,.floorSize.:"@)
}

/// The groups of a match of `PRICE`: digits and commas, at least one of them, in
/// their frame.
pub open spec fn is_price(groups: Seq<Option<Seq<char>>>) -> bool {
    &&& groups.len() == 2
    &&& groups[0] is Some && groups[1] is Some
    &&& is_framed(groups[0]->0, groups[1]->0, price_frame().0, price_frame().1)
    &&& groups[1]->0.len() > 0
    &&& forall|i: int|
        0 <= i < groups[1]->0.len() ==> is_digit(#[trigger] groups[1]->0[i]) || groups[1]->0[i]
            == ','
}

/// The groups of a match of `DESCRIPTION`: a text in one line, not empty, in its
/// frame. It ends where the frame can first follow it.
pub open spec fn is_description(groups: Seq<Option<Seq<char>>>) -> bool {
    let (before, after) = description_frame();
    &&& groups.len() == 2
    &&& groups[0] is Some && groups[1] is Some
    &&& is_framed(groups[0]->0, groups[1]->0, before, after)
    &&& forall|k: int|
        1 <= k < groups[1]->0.len() ==> !fits(
            #[trigger] groups[0]->0.subrange(before.len() + k, before.len() + k + after.len()),
            after,
        )
    &&& groups[1]->0.len() > 0
    &&& !groups[1]->0.contains('\n')
}

/// An address of an image in its full size, as a page quotes it.
pub open spec fn is_image_address(link: Seq<char>) -> bool {
    &&& occurs_at(link, "https://"@, 0)
    &&& occurs_at(link, "origin.webp"@, link.len() - "origin.webp"@.len())
    &&& !link.contains('"')
}

/// The groups of a match of `IMAGE_LINK`: an address between quotes.
pub open spec fn is_image_link(groups: Seq<Option<Seq<char>>>) -> bool {
    &&& groups.len() == 2
    &&& groups[0] is Some && groups[1] is Some
    &&& groups[0]->0 == "\""@ + groups[1]->0 + "\""@
    &&& is_image_address(groups[1]->0)
}

/// `regex::Regex::captures`, on a pattern compiled by `regex::Regex::new`. What
/// the groups hold depends on the pattern and the text alone, and every group
/// that took part in the match is a slice of the text. `TITLE`, `PRICE` and
/// `DESCRIPTION` compile, and a match of one of them has the form that the
/// pattern asks for: `.` matches any character but a line feed, `\d` a decimal
/// digit, `*?` and `+?` as few characters as they can. Which text a pattern matches is
/// otherwise left to the name `first_match`.
#[verifier::external_body]
fn captures(pattern: &str, text: &str) -> (r: Result<Option<Groups>, regex::Error>)
    ensures
        match r {
            Ok(found) => first_match(pattern@, text@) == Some(match_view(found)),
            Err(_) => first_match(pattern@, text@) is None,
        },
        r matches Ok(Some(groups)) ==> groups_from(groups@, text@),
        pattern@ == TITLE@ || pattern@ == PRICE@ || pattern@ == DESCRIPTION@ ==> r is Ok,
        r matches Ok(Some(groups)) ==> {
            &&& pattern@ == TITLE@ ==> is_title(groups_view(groups@))
            &&& pattern@ == PRICE@ ==> is_price(groups_view(groups@))
            &&& pattern@ == DESCRIPTION@ ==> is_description(groups_view(groups@))
        },
{
    let found = regex::Regex::new(pattern)?.captures(text);
    Ok(found.map(|caps| caps.iter().map(|group| group.map(|m| m.as_str().to_string())).collect()))
}

/// `regex::Regex::captures_iter`, on a pattern compiled by `regex::Regex::new`.
/// What the groups of each match hold depends on the pattern and the text
/// alone, and every group that took part in a match is a slice of the text.
/// `IMAGE_LINK` compiles, and each match of it has the form that the pattern
/// asks for. Which texts a pattern matches is otherwise left to the name
/// `all_matches`.
#[verifier::external_body]
fn captures_iter(pattern: &str, text: &str) -> (r: Result<Vec<Groups>, regex::Error>)
    ensures
        match r {
            Ok(found) => all_matches(pattern@, text@) == Some(matches_view(found@)),
            Err(_) => all_matches(pattern@, text@) is None,
        },
        r matches Ok(found) ==> forall|i: int|
            0 <= i < found.len() ==> groups_from((#[trigger] found@[i])@, text@),
        pattern@ == IMAGE_LINK@ ==> r is Ok,
        r matches Ok(found) ==> pattern@ == IMAGE_LINK@ ==> forall|i: int|
            0 <= i < found.len() ==> is_image_link(groups_view((#[trigger] found@[i])@)),
{
    let re = regex::Regex::new(pattern)?;
    Ok(
        re.captures_iter(text).map(
            |caps| caps.iter().map(|group| group.map(|m| m.as_str().to_string())).collect(),
        ).collect(),
    )
}

/// The matches of the four patterns on a page.
#[derive(Debug)]
pub struct PageMatches {
    pub title: Option<Groups>,
    pub price: Option<Groups>,
    pub description: Option<Groups>,
    pub image_links: Vec<Groups>,
}

/// What a `PageMatches` holds.
#[verifier::ext_equal]
pub struct PageView {
    pub title: Option<Seq<Option<Seq<char>>>>,
    pub price: Option<Seq<Option<Seq<char>>>>,
    pub description: Option<Seq<Option<Seq<char>>>>,
    pub image_links: Seq<Seq<Option<Seq<char>>>>,
}

impl View for PageMatches {
    type V = PageView;

    open spec fn view(&self) -> PageView {
        PageView {
            title: match_view(self.title),
            price: match_view(self.price),
            description: match_view(self.description),
            image_links: matches_view(self.image_links@),
        }
    }
}

/// What a listing page says about a property.
#[derive(Debug)]
pub struct PropertyMetadata {
    pub url: String,
    pub street: String,
    pub city: String,
    pub state: String,
    pub zip: String,
    pub mls: String,
    pub price: u32,
    pub description: String,
    pub image_links: Vec<String>,
}

/// What a `PropertyMetadata` holds.
#[verifier::ext_equal]
pub struct MetadataView {
    pub url: Seq<char>,
    pub street: Seq<char>,
    pub city: Seq<char>,
    pub state: Seq<char>,
    pub zip: Seq<char>,
    pub mls: Seq<char>,
    pub price: u32,
    pub description: Seq<char>,
    pub image_links: Seq<Seq<char>>,
}

impl View for PropertyMetadata {
    type V = MetadataView;

    open spec fn view(&self) -> MetadataView {
        MetadataView {
            url: self.url@,
            street: self.street@,
            city: self.city@,
            state: self.state@,
            zip: self.zip@,
            mls: self.mls@,
            price: self.price,
            description: self.description@,
            image_links: views(self.image_links@),
        }
    }
}

impl MetadataView {
    /// The address of the property in one line.
    pub open spec fn full_address(self) -> Seq<char> {
        self.street + ", "@ + self.city + ", "@ + self.state + " "@ + self.zip
    }

    /// The title of the page that the property was read from.
    pub open spec fn title(self) -> Seq<char> {
        "<title>"@ + self.full_address() + " | MLS #"@ + self.mls + " | Compass</title>"@
    }

    /// The parts have the form that a listing gives them. A unit belongs to the
    /// city, and the MLS number may be missing.
    pub open spec fn in_form(self) -> bool {
        &&& !occurs_in(", "@, self.street)
        &&& self.state.len() == 2
        &&& self.zip.len() == 5
        &&& forall|i: int| 0 <= i < self.zip.len() ==> is_any_digit(#[trigger] self.zip[i])
        &&& forall|i: int| 0 <= i < self.mls.len() ==> is_any_digit(#[trigger] self.mls[i])
        &&& self.description.len() > 0
        &&& !self.title().contains('\n')
        &&& !self.street.contains('\n')
        &&& !self.city.contains('\n')
        &&& !self.state.contains('\n')
        &&& !self.zip.contains('\n')
        &&& !self.mls.contains('\n')
        &&& !self.description.contains('\n')
        &&& forall|i: int|
            0 <= i < self.image_links.len() ==> is_image_address(#[trigger] self.image_links[i])
    }
}

/// What a result of reading a page holds.
pub open spec fn reading_view(r: Result<PropertyMetadata, AppError>) -> Result<
    MetadataView,
    ErrorView,
> {
    match r {
        Ok(metadata) => Ok(metadata@),
        Err(e) => Err(e@),
    }
}

/// What group `i` matched, if it took part in the match.
pub open spec fn group(groups: Seq<Option<Seq<char>>>, i: int) -> Option<Seq<char>> {
    if 0 <= i < groups.len() {
        groups[i]
    } else {
        None
    }
}

/// What the first group matched, if there is a match and it took part in it.
pub open spec fn first_group(found: Option<Seq<Option<Seq<char>>>>) -> Option<Seq<char>> {
    match found {
        Some(groups) => group(groups, 1),
        None => None,
    }
}

impl PageView {
    /// The page has an address, a price and a description.
    pub open spec fn complete(self) -> bool {
        &&& self.title is Some
        &&& first_group(self.price) is Some
        &&& first_group(self.description) is Some
    }

    /// The groups are there that a complete page is read from: five in the
    /// title and one in each image link.
    pub open spec fn readable(self) -> bool {
        self.complete() ==> {
            &&& forall|i: int| 1 <= i <= 5 ==> (#[trigger] group(self.title->0, i)) is Some
            &&& forall|i: int|
                0 <= i < self.image_links.len() ==> group(#[trigger] self.image_links[i], 1) is Some
        }
    }

    /// Every match has the form that its pattern asks for.
    pub open spec fn in_form(self) -> bool {
        &&& self.title matches Some(groups) ==> is_title(groups)
        &&& self.price matches Some(groups) ==> is_price(groups)
        &&& self.description matches Some(groups) ==> is_description(groups)
        &&& forall|i: int|
            0 <= i < self.image_links.len() ==> is_image_link(#[trigger] self.image_links[i])
    }

    /// The digits of the price.
    pub open spec fn price_digits(self) -> Seq<char> {
        without_char(first_group(self.price)->0, ',')
    }

    /// What the page at `url` says about the property.
    pub open spec fn metadata(self, url: Seq<char>) -> Result<MetadataView, ErrorView> {
        if self.title is None {
            Err(ErrorView::Parse("Could not extract address and MLS info from HTML title"@))
        } else if first_group(self.price) is None {
            Err(ErrorView::Parse("Could not extract price"@))
        } else if first_group(self.description) is None {
            Err(ErrorView::Parse("Could not extract property description"@))
        } else {
            match parsed(self.price_digits(), u32::MAX as nat) {
                None => Err(ErrorView::Parse("Failed to parse price: "@ + self.price_digits())),
                Some(price) => Ok(
                    MetadataView {
                        url,
                        street: group(self.title->0, 1)->0,
                        city: group(self.title->0, 2)->0,
                        state: group(self.title->0, 3)->0,
                        zip: group(self.title->0, 4)->0,
                        mls: group(self.title->0, 5)->0,
                        price: price as u32,
                        description: first_group(self.description)->0,
                        image_links: Seq::new(
                            self.image_links.len(),
                            |i: int| group(self.image_links[i], 1)->0,
                        ),
                    },
                ),
            }
        }
    }
}

/// The matches of the four patterns on a page; all of them compile.
pub open spec fn page_of(html: Seq<char>) -> Option<PageView> {
    match (
        first_match(TITLE@, html),
        first_match(PRICE@, html),
        first_match(DESCRIPTION@, html),
        all_matches(IMAGE_LINK@, html),
    ) {
        (Some(title), Some(price), Some(description), Some(image_links)) => Some(
            PageView { title, price, description, image_links },
        ),
        _ => None,
    }
}

/// `part` stands in the text between two texts that fit the templates.
pub open spec fn stands_framed(
    part: Seq<char>,
    before: Seq<char>,
    after: Seq<char>,
    text: Seq<char>,
) -> bool {
    exists|whole: Seq<char>| #[trigger] is_framed(whole, part, before, after) && occurs_in(
        whole,
        text,
    )
}

/// The price stands on the page where the property's history gives it.
pub open spec fn price_stands_on(price: u32, html: Seq<char>) -> bool {
    exists|digits: Seq<char>|
        #[trigger] stands_framed(digits, price_frame().0, price_frame().1, html) && parsed(
            without_char(digits, ','),
            u32::MAX as nat,
        ) == Some(price as nat)
}

/// Every text of the property stands on the page: the address as the title
/// writes it, the price and the description in their frames, and each link
/// between quotes.
pub open spec fn stands_on(metadata: MetadataView, html: Seq<char>) -> bool {
    &&& occurs_in(metadata.title(), html)
    &&& occurs_in(metadata.street, html)
    &&& occurs_in(metadata.city, html)
    &&& occurs_in(metadata.state, html)
    &&& occurs_in(metadata.zip, html)
    &&& occurs_in(metadata.mls, html)
    &&& occurs_in(metadata.description, html)
    &&& stands_framed(metadata.description, description_frame().0, description_frame().1, html)
    &&& price_stands_on(metadata.price, html)
    &&& forall|i: int|
        0 <= i < metadata.image_links.len() ==> occurs_in(
            "\""@ + #[trigger] metadata.image_links[i] + "\""@,
            html,
        )
}

/// What group `i` matched, if it took part in the match.
fn group_text(groups: &Groups, i: usize) -> (r: Option<&String>)
    ensures
        match r {
            Some(text) => group(groups_view(groups@), i as int) == Some(text@),
            None => group(groups_view(groups@), i as int) is None,
        },
        r matches Some(text) ==> i < groups.len() && groups@[i as int] == Some(*text),
{
    if i < groups.len() {
        groups[i].as_ref()
    } else {
        None
    }
}

/// What the first group matched, if there is a match and it took part in it.
fn first_group_text(found: &Option<Groups>) -> (r: Option<&String>)
    ensures
        match r {
            Some(text) => first_group(match_view(*found)) == Some(text@),
            None => first_group(match_view(*found)) is None,
        },
{
    match found {
        Some(groups) => group_text(groups, 1),
        None => None,
    }
}

impl PageMatches {
    /// The matches of the four patterns on a page.
    fn find(html: &str) -> (r: PageMatches)
        ensures
            page_of(html@) == Some(r@),
            r@.in_form(),
            r.taken_from(html@),
    {
        let title = match captures(TITLE, html) {
            Ok(found) => found,
            Err(_) => unreached(),
        };
        let price = match captures(PRICE, html) {
            Ok(found) => found,
            Err(_) => unreached(),
        };
        let description = match captures(DESCRIPTION, html) {
            Ok(found) => found,
            Err(_) => unreached(),
        };
        let image_links = match captures_iter(IMAGE_LINK, html) {
            Ok(found) => found,
            Err(_) => unreached(),
        };
        let page = PageMatches { title, price, description, image_links };
        assert forall|i: int| 0 <= i < page@.image_links.len() implies is_image_link(
            #[trigger] page@.image_links[i],
        ) by {
            assert(is_image_link(groups_view(page.image_links@[i]@)));
        }
        page
    }

    /// Every group stands on the page.
    closed spec fn taken_from(self, html: Seq<char>) -> bool {
        &&& self.title matches Some(groups) ==> groups_from(groups@, html)
        &&& self.price matches Some(groups) ==> groups_from(groups@, html)
        &&& self.description matches Some(groups) ==> groups_from(groups@, html)
        &&& forall|i: int|
            0 <= i < self.image_links.len() ==> groups_from(
                (#[trigger] self.image_links@[i])@,
                html,
            )
    }

    /// Whether the groups are there that a complete page is read from.
    pub fn is_readable(&self) -> (r: bool)
        ensures
            r == self@.readable(),
    {
        let title = match &self.title {
            Some(groups) => groups,
            None => return true,
        };
        if first_group_text(&self.price).is_none() || first_group_text(&self.description).is_none() {
            return true;
        }
        for i in 1..6usize
            invariant
                self.title == Some(*title),
                self@.complete(),
                forall|k: int| 1 <= k < i ==> (#[trigger] group(self@.title->0, k)) is Some,
        {
            if group_text(title, i).is_none() {
                assert(group(self@.title->0, i as int) is None);
                return false;
            }
        }
        for i in 0..self.image_links.len()
            invariant
                self@.complete(),
                forall|k: int|
                    0 <= k < i ==> group(#[trigger] self@.image_links[k], 1) is Some,
        {
            if group_text(&self.image_links[i], 1).is_none() {
                assert(group(self@.image_links[i as int], 1) is None);
                return false;
            }
        }
        true
    }
}

impl PropertyMetadata {
    /// The address of the property in one line.
    pub fn full_address(&self) -> (r: String)
        ensures
            r@ == self@.full_address(),
            r@ == self.street@ + ", "@ + self.city@ + ", "@ + self.state@ + " "@ + self.zip@,
    {
        self.street.clone().concat(", ").concat(self.city.as_str()).concat(", ").concat(
            self.state.as_str(),
        ).concat(" ").concat(self.zip.as_str())
    }

    /// What the page at `url` says about the property, by its matches.
    pub fn from_matches(url: &str, page: &PageMatches) -> (r: Result<PropertyMetadata, AppError>)
        requires
            page@.readable(),
        ensures
            reading_view(r) == page@.metadata(url@),
            r matches Ok(metadata) ==> {
                &&& metadata.url@ == url@
                &&& page.title is Some && page.price is Some && page.description is Some
                &&& metadata.street@ == (page.title->0)@[1]->0@
                &&& metadata.city@ == (page.title->0)@[2]->0@
                &&& metadata.state@ == (page.title->0)@[3]->0@
                &&& metadata.zip@ == (page.title->0)@[4]->0@
                &&& metadata.mls@ == (page.title->0)@[5]->0@
                &&& metadata.description@ == (page.description->0)@[1]->0@
                &&& parsed(without_char((page.price->0)@[1]->0@, ','), u32::MAX as nat) == Some(
                    metadata.price as nat,
                )
                &&& metadata.image_links.len() == page.image_links.len()
                &&& forall|i: int|
                    0 <= i < page.image_links.len() ==> (#[trigger] metadata.image_links@[i])@
                        == page.image_links@[i]@[1]->0@
            },
    {
        let title = match &page.title {
            Some(groups) => groups,
            None => return Err(
                AppError::Parse(
                    "Could not extract address and MLS info from HTML title".to_owned(),
                ),
            ),
        };
        let price_text = match first_group_text(&page.price) {
            Some(text) => remove_char(text.as_str(), ','),
            None => return Err(AppError::Parse("Could not extract price".to_owned())),
        };
        let description = match first_group_text(&page.description) {
            Some(text) => text,
            None => return Err(
                AppError::Parse("Could not extract property description".to_owned()),
            ),
        };
        assert forall|i: int| 1 <= i <= 5 implies group(groups_view(title@), i) is Some by {
            assert(group(page@.title->0, i) is Some);
        }
        let mut image_links: Vec<String> = Vec::new();
        for i in 0..page.image_links.len()
            invariant
                page@.complete(),
                page@.readable(),
                image_links.len() == i,
                forall|k: int|
                    0 <= k < i ==> (#[trigger] image_links@[k])@ == group(
                        page@.image_links[k],
                        1,
                    )->0,
        {
            assert(group(page@.image_links[i as int], 1) is Some);
            match group_text(&page.image_links[i], 1) {
                Some(link) => image_links.push(link.clone()),
                None => {},
            }
        }
        let price = match parse_up_to(price_text.as_str(), u32::MAX as u64) {
            Some(price) => price as u32,
            None => return Err(
                AppError::Parse("Failed to parse price: ".to_owned().concat(price_text.as_str())),
            ),
        };
        let metadata = PropertyMetadata {
            url: url.to_owned(),
            street: group_text(title, 1).unwrap().clone(),
            city: group_text(title, 2).unwrap().clone(),
            state: group_text(title, 3).unwrap().clone(),
            zip: group_text(title, 4).unwrap().clone(),
            mls: group_text(title, 5).unwrap().clone(),
            price,
            description: description.clone(),
            image_links,
        };
        assert(metadata@.image_links =~= page@.metadata(url@)->Ok_0.image_links);
        assert forall|i: int| 0 <= i < page.image_links.len() implies (
        #[trigger] metadata.image_links@[i])@ == page.image_links@[i]@[1]->0@ by {
            assert(group(page@.image_links[i], 1) is Some);
        }
        Ok(metadata)
    }

    /// What the page `html` at `url` says about the property.
    pub fn from_html(url: &str, html: &str) -> (r: Result<PropertyMetadata, AppError>)
        ensures
            page_of(html@) matches Some(page) && page.in_form() && page.readable()
                && reading_view(r) == page.metadata(url@),
            r matches Ok(metadata) ==> metadata@.in_form() && stands_on(metadata@, html@),
            r matches Ok(metadata) ==> all_matches(IMAGE_LINK@, html@) matches Some(found)
                && found.len() == metadata.image_links.len() && forall|i: int|
                0 <= i < found.len() ==> (#[trigger] found[i])[1] == Some(
                    metadata.image_links@[i]@,
                ),
    {
        let page = PageMatches::find(html);
        proof {
            law_matches_are_readable(page@);
        }
        let reading = PropertyMetadata::from_matches(url, &page);
        proof {
            if reading is Ok {
                law_parts_have_their_form(page@, url@);
                lemma_stands_on(url@, page, html@);
                let found = all_matches(IMAGE_LINK@, html@)->0;
                assert forall|i: int| 0 <= i < found.len() implies (#[trigger] found[i])[1] == Some(
                    reading->Ok_0.image_links@[i]@,
                ) by {
                    assert(is_image_link(page@.image_links[i]));
                    assert(reading->Ok_0.image_links@[i]@ == page.image_links@[i]@[1]->0@);
                }
            }
        }
        reading
    }
}

/// What the patterns match has the groups that a page is read from.
pub proof fn law_matches_are_readable(page: PageView)
    requires
        page.in_form(),
    ensures
        page.readable(),
{
    assert forall|i: int| page.complete() && 0 <= i < page.image_links.len() implies group(
        #[trigger] page.image_links[i],
        1,
    ) is Some by {
        assert(is_image_link(page.image_links[i]));
    }
}

/// What a page says of a property has the form that a listing gives it, and the
/// title of the page is the address, joined again, with the MLS number behind
/// it.
pub proof fn law_parts_have_their_form(page: PageView, url: Seq<char>)
    requires
        page.in_form(),
        page.metadata(url) is Ok,
    ensures
        page.metadata(url)->Ok_0.in_form(),
        page.metadata(url)->Ok_0.title() == group(page.title->0, 0)->0,
        page.metadata(url)->Ok_0.url == url,
{
    let groups = page.title->0;
    let metadata = page.metadata(url)->Ok_0;
    let whole = groups[0]->0;
    assert(whole =~= metadata.title());
    let n1 = "<title>"@.len();
    let n2 = n1 + metadata.street.len() + ", "@.len();
    let n3 = n2 + metadata.city.len() + ", "@.len();
    let n4 = n3 + metadata.state.len() + " "@.len();
    let n5 = n4 + metadata.zip.len() + " | MLS #"@.len();
    lemma_part_in_line(whole, metadata.street, n1 as int);
    lemma_part_in_line(whole, metadata.city, n2 as int);
    lemma_part_in_line(whole, metadata.state, n3 as int);
    lemma_part_in_line(whole, metadata.zip, n4 as int);
    lemma_part_in_line(whole, metadata.mls, n5 as int);
    assert forall|i: int| 0 <= i < metadata.image_links.len() implies is_image_address(
        #[trigger] metadata.image_links[i],
    ) by {
        assert(is_image_link(page.image_links[i]));
    }
}

/// A part of a line is in one line.
proof fn lemma_part_in_line(whole: Seq<char>, part: Seq<char>, at: int)
    requires
        !whole.contains('\n'),
        0 <= at,
        at + part.len() <= whole.len(),
        part =~= whole.subrange(at, at + part.len()),
    ensures
        !part.contains('\n'),
{
    assert forall|i: int| 0 <= i < part.len() implies part[i] != '\n' by {
        assert(whole.contains(whole[at + i]));
    }
}

/// What is read from a page stands on it.
proof fn lemma_stands_on(url: Seq<char>, page: PageMatches, html: Seq<char>)
    requires
        page.taken_from(html),
        page@.in_form(),
        page@.readable(),
        page@.metadata(url) is Ok,
    ensures
        stands_on(page@.metadata(url)->Ok_0, html),
{
    let title = page.title->0;
    law_parts_have_their_form(page@, url);
    assert(title@[0] is Some);
    assert forall|i: int| 1 <= i <= 5 implies occurs_in(
        (#[trigger] group(groups_view(title@), i))->0,
        html,
    ) by {
        assert(group(page@.title->0, i) is Some);
        assert(title@[i] is Some);
    }
    assert(occurs_in(group(groups_view(title@), 1)->0, html));
    assert(page.description->0@[0] is Some && page.description->0@[1] is Some);
    assert(page.price->0@[0] is Some && page.price->0@[1] is Some);
    let price = first_group(page@.price)->0;
    assert(is_framed(page@.price->0[0]->0, price, price_frame().0, price_frame().1));
    assert(stands_framed(price, price_frame().0, price_frame().1, html));
    let description = first_group(page@.description)->0;
    let (before, after) = description_frame();
    assert(is_framed(page@.description->0[0]->0, description, before, after));
    let links = page@.metadata(url)->Ok_0.image_links;
    assert forall|i: int| 0 <= i < links.len() implies occurs_in(
        "\""@ + #[trigger] links[i] + "\""@,
        html,
    ) by {
        assert(is_image_link(page@.image_links[i]));
        assert(groups_from(page.image_links@[i]@, html));
        assert(page.image_links@[i]@[0] is Some);
    }
}

/// A price of digits and commas is read unless it holds no digit or is too
/// large for the number type.
pub proof fn law_prices_are_read(page: PageView, url: Seq<char>)
    requires
        page.complete(),
        forall|i: int|
            0 <= i < first_group(page.price)->0.len() ==> is_digit(
                #[trigger] first_group(page.price)->0[i],
            ) || first_group(page.price)->0[i] == ',',
    ensures
        page.metadata(url) is Ok <==> page.price_digits().len() > 0 && digits_value(
            page.price_digits(),
        ) <= u32::MAX,
        page.metadata(url) matches Ok(metadata) ==> metadata.price == digits_value(
            page.price_digits(),
        ),
{
    let text = first_group(page.price)->0;
    lemma_digits_are_left(text);
    let digits = page.price_digits();
    if digits.len() > 0 {
        assert(is_digit(digits[0]));
    }
}

/// Of digits and commas, only digits are left without the commas.
proof fn lemma_digits_are_left(text: Seq<char>)
    requires
        forall|i: int| 0 <= i < text.len() ==> is_digit(#[trigger] text[i]) || text[i] == ',',
    ensures
        all_digits(without_char(text, ',')),
    decreases text.len(),
{
    reveal(Seq::filter);
    if text.len() > 0 {
        assert forall|i: int| 0 <= i < text.drop_last().len() implies is_digit(
            #[trigger] text.drop_last()[i],
        ) || text.drop_last()[i] == ',' by {
            assert(text[i] == text.drop_last()[i]);
        }
        lemma_digits_are_left(text.drop_last());
    }
}

/// No link of a page is dropped, repeated or moved: there are as many as the
/// page has matches, and each is the first group of its match.
pub proof fn law_every_link_is_kept(page: PageView, url: Seq<char>)
    requires
        page.readable(),
        page.metadata(url) is Ok,
    ensures
        page.metadata(url)->Ok_0.image_links.len() == page.image_links.len(),
        forall|i: int|
            0 <= i < page.image_links.len() ==> page.image_links[i].len() > 1
                && page.image_links[i][1] == Some(
                #[trigger] page.metadata(url)->Ok_0.image_links[i],
            ),
{
    let links = page.metadata(url)->Ok_0.image_links;
    assert forall|i: int| 0 <= i < page.image_links.len() implies page.image_links[i].len() > 1
        && page.image_links[i][1] == Some(#[trigger] links[i]) by {
        assert(group(page.image_links[i], 1) is Some);
    }
}

/// More matches of links give more links behind the others, and change nothing
/// else of what is read.
pub proof fn law_links_add_up(page: PageView, more: Seq<Seq<Option<Seq<char>>>>, url: Seq<char>)
    ensures
        ({
            let longer = PageView { image_links: page.image_links + more, ..page };
            let rest = PageView { image_links: more, ..page };
            match (page.metadata(url), longer.metadata(url), rest.metadata(url)) {
                (Ok(a), Ok(all), Ok(b)) => {
                    &&& all.image_links == a.image_links + b.image_links
                    &&& all == MetadataView { image_links: all.image_links, ..a }
                },
                (Err(a), Err(all), _) => a == all,
                _ => false,
            }
        }),
{
    let longer = PageView { image_links: page.image_links + more, ..page };
    let rest = PageView { image_links: more, ..page };
    if page.metadata(url) is Ok {
        assert(longer.metadata(url)->Ok_0.image_links =~= page.metadata(url)->Ok_0.image_links
            + rest.metadata(url)->Ok_0.image_links);
    }
}

/// What a page says of the property are the groups of its matches: five of the
/// title, one of the description, and the number that one of the price denotes
/// without its commas.
pub proof fn law_fields_are_groups(page: PageView, url: Seq<char>)
    requires
        page.readable(),
        page.metadata(url) is Ok,
    ensures
        ({
            let metadata = page.metadata(url)->Ok_0;
            &&& metadata.url == url
            &&& page.title matches Some(title) && title.len() > 5 && title[1] == Some(
                metadata.street,
            ) && title[2] == Some(metadata.city) && title[3] == Some(metadata.state) && title[4]
                == Some(metadata.zip) && title[5] == Some(metadata.mls)
            &&& page.description matches Some(found) && found.len() > 1 && found[1] == Some(
                metadata.description,
            )
            &&& page.price matches Some(found) && found.len() > 1 && (found[1] matches Some(price)
                && parsed(without_char(price, ','), u32::MAX as nat) == Some(
                metadata.price as nat,
            ))
        }),
{
    assert(group(page.title->0, 1) is Some);
    assert(group(page.title->0, 2) is Some);
    assert(group(page.title->0, 3) is Some);
    assert(group(page.title->0, 4) is Some);
    assert(group(page.title->0, 5) is Some);
}

/// The title of a page holds the property's address in one line and its MLS
/// number, and nothing else.
pub proof fn law_title_holds_the_address(page: PageView, url: Seq<char>)
    requires
        page.in_form(),
        page.metadata(url) is Ok,
    ensures
        ({
            let metadata = page.metadata(url)->Ok_0;
            page.title matches Some(title) && title[0] == Some(
                "<title>"@ + metadata.full_address() + " | MLS #"@ + metadata.mls
                    + " | Compass</title>"@,
            )
        }),
{
    law_parts_have_their_form(page, url);
}

/// What is missing on a page is reported: the title first, then the price, then
/// the description, and at last a price that is no number or too large.
pub proof fn law_what_is_missing_is_reported(page: PageView, url: Seq<char>)
    ensures
        page.title is None ==> page.metadata(url) == Err::<MetadataView, ErrorView>(
            ErrorView::Parse("Could not extract address and MLS info from HTML title"@),
        ),
        page.title is Some && page.price is None ==> page.metadata(url) == Err::<
            MetadataView,
            ErrorView,
        >(ErrorView::Parse("Could not extract price"@)),
        page.title is Some && (page.price matches Some(found) && found.len() > 1 && found[1] is Some)
            && page.description is None ==> page.metadata(url) == Err::<MetadataView, ErrorView>(
            ErrorView::Parse("Could not extract property description"@),
        ),
        page.title is Some && (page.price matches Some(found) && found.len() > 1 && found[1] is Some)
            && (page.description matches Some(found) && found.len() > 1 && found[1] is Some) ==> ({
            let digits = without_char(page.price->0[1]->0, ',');
            match parsed(digits, u32::MAX as nat) {
                Some(_) => page.metadata(url) is Ok,
                None => page.metadata(url) == Err::<MetadataView, ErrorView>(
                    ErrorView::Parse("Failed to parse price: "@ + digits),
                ),
            }
        }),
{
}

/// What is found on a page are the matches of the four patterns on it.
pub proof fn law_found_on_a_page(html: Seq<char>)
    requires
        page_of(html) is Some,
    ensures
        first_match(TITLE@, html) == Some(page_of(html)->0.title),
        first_match(PRICE@, html) == Some(page_of(html)->0.price),
        first_match(DESCRIPTION@, html) == Some(page_of(html)->0.description),
        all_matches(IMAGE_LINK@, html) == Some(page_of(html)->0.image_links),
{
}

/// Every match shows all its groups, in their places.
pub proof fn law_every_group_is_shown(page: PageMatches, i: int, k: int)
    ensures
        page.title is Some <==> page@.title is Some,
        page.title matches Some(groups) ==> page@.title->0 == groups_view(groups@),
        page.price is Some <==> page@.price is Some,
        page.price matches Some(groups) ==> page@.price->0 == groups_view(groups@),
        page.description is Some <==> page@.description is Some,
        page.description matches Some(groups) ==> page@.description->0 == groups_view(groups@),
        page@.image_links.len() == page.image_links.len(),
        0 <= i < page.image_links.len() ==> {
            let groups = page.image_links@[i]@;
            &&& page@.image_links[i] == groups_view(groups)
            &&& groups_view(groups).len() == groups.len()
            &&& 0 <= k < groups.len() ==> match groups[k] {
                Some(text) => groups_view(groups)[k] == Some(text@),
                None => groups_view(groups)[k] is None,
            }
        },
{
}

/// Everything that is known of a property is shown.
pub proof fn law_every_field_is_shown(metadata: PropertyMetadata, i: int)
    ensures
        metadata@.url == metadata.url@,
        metadata@.street == metadata.street@,
        metadata@.city == metadata.city@,
        metadata@.state == metadata.state@,
        metadata@.zip == metadata.zip@,
        metadata@.mls == metadata.mls@,
        metadata@.price == metadata.price,
        metadata@.description == metadata.description@,
        metadata@.image_links.len() == metadata.image_links.len(),
        0 <= i < metadata.image_links.len() ==> metadata@.image_links[i]
            == metadata.image_links@[i]@,
{
}

} // verus!
