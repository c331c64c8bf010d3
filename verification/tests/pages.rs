use listing_importer::error::AppError;
use listing_importer::page::{PageMatches, PropertyMetadata};
use listing_importer::template::fill_in;

const URL: &str = "https://www.compass.com/listing/1-main-st/123/";

const TITLE: &str =
    "<title>1 Main St, Springfield, IL 62701 | MLS #12345 | Compass</title>";
const PRICE: &str = "<td class=\"propertyHistory-table-td\"><div>$1,250,000</div></td></tr>";
const DESCRIPTION: &str =
    "\"x\",\"addressCountry\":\"US\"}},\"description\":\"A sunny home.\",\"floorSize\":1";

fn page(parts: &[&str]) -> String {
    parts.join("\n")
}

fn read(html: &str) -> Result<PropertyMetadata, AppError> {
    PropertyMetadata::from_html(URL, html)
}

fn parse_error(html: &str) -> String {
    match read(html) {
        Err(AppError::Parse(text)) => text,
        other => panic!("{:?}", other),
    }
}

#[test]
fn a_page_is_read() {
    let html = page(&[
        "<html>",
        TITLE,
        "<img src=\"https://a.b/1/origin.webp\"><img src=\"https://a.b/1/small.webp\">",
        "[\"https://a.b/2/origin.webp\",\"http://a.b/3/origin.webp\",\"https://a.b/4/originXwebp\"]",
        PRICE,
        DESCRIPTION,
    ]);
    let m = read(&html).unwrap();
    assert_eq!(m.url, URL);
    assert_eq!(m.street, "1 Main St");
    assert_eq!(m.city, "Springfield");
    assert_eq!(m.state, "IL");
    assert_eq!(m.zip, "62701");
    assert_eq!(m.mls, "12345");
    assert_eq!(m.price, 1_250_000);
    assert_eq!(m.description, "A sunny home.");
    assert_eq!(m.image_links, vec!["https://a.b/1/origin.webp", "https://a.b/2/origin.webp"]);
    assert_eq!(m.full_address(), "1 Main St, Springfield, IL 62701");
    for text in [&m.street, &m.city, &m.state, &m.zip, &m.mls, &m.description] {
        assert!(html.contains(text.as_str()));
    }
}

#[test]
fn a_page_without_images_or_mls_number_is_read() {
    let title = "<title>1 Main St, Unit 2, Springfield, IL 62701 | MLS # | Compass</title>";
    let m = read(&page(&[title, PRICE, DESCRIPTION])).unwrap();
    assert_eq!(m.street, "1 Main St");
    assert_eq!(m.city, "Unit 2, Springfield");
    assert_eq!(m.mls, "");
    assert!(m.image_links.is_empty());
}

#[test]
fn the_first_price_and_the_shortest_description_count() {
    let html = page(&[
        TITLE,
        PRICE,
        "propertyHistory-table-td\"><div>$7</div></td></tr>",
        DESCRIPTION,
        DESCRIPTION,
    ]);
    let m = read(&html).unwrap();
    assert_eq!(m.price, 1_250_000);
    assert_eq!(m.description, "A sunny home.");
}

#[test]
fn what_is_missing_is_reported_in_order() {
    assert_eq!(parse_error(""), "Could not extract address and MLS info from HTML title");
    assert_eq!(
        parse_error(&page(&[PRICE, DESCRIPTION])),
        "Could not extract address and MLS info from HTML title"
    );
    assert_eq!(parse_error(TITLE), "Could not extract price");
    assert_eq!(parse_error(&page(&[TITLE, DESCRIPTION])), "Could not extract price");
    assert_eq!(parse_error(&page(&[TITLE, PRICE])), "Could not extract property description");
}

#[test]
fn prices_that_do_not_fit_are_reported() {
    let with_price = |price: &str| {
        let price = format!("propertyHistory-table-td\"><div>${}</div></td></tr>", price);
        page(&[TITLE, &price, DESCRIPTION])
    };
    assert_eq!(read(&with_price("4,294,967,295")).unwrap().price, u32::MAX);
    assert_eq!(read(&with_price("1,2,3")).unwrap().price, 123);
    assert_eq!(parse_error(&with_price("4,294,967,296")), "Failed to parse price: 4294967296");
    assert_eq!(parse_error(&with_price(",")), "Failed to parse price: ");
}

fn groups(texts: &[&str]) -> Vec<Option<String>> {
    texts.iter().map(|t| Some(t.to_string())).collect()
}

fn matches() -> PageMatches {
    PageMatches {
        title: Some(groups(&["whole", "s", "c", "st", "z", "m"])),
        price: Some(groups(&["whole", "1,000"])),
        description: Some(groups(&["whole", "d"])),
        image_links: vec![groups(&["\"l1\"", "l1"]), groups(&["\"l2\"", "l2"])],
    }
}

#[test]
fn matches_are_read() {
    let found = matches();
    assert!(found.is_readable());
    let m = PropertyMetadata::from_matches("u", &found).unwrap();
    assert_eq!(m.url, "u");
    assert_eq!(
        (m.street.as_str(), m.city.as_str(), m.state.as_str(), m.zip.as_str(), m.mls.as_str()),
        ("s", "c", "st", "z", "m")
    );
    assert_eq!(m.price, 1000);
    assert_eq!(m.description, "d");
    assert_eq!(m.image_links, vec!["l1", "l2"]);
}

#[test]
fn matches_without_their_groups_are_not_readable() {
    let mut found = matches();
    found.title = Some(groups(&["whole", "s", "c", "st", "z"]));
    assert!(!found.is_readable());
    found.price = None;
    assert!(found.is_readable());
    let mut found = matches();
    found.image_links.push(vec![Some("whole".to_string()), None]);
    assert!(!found.is_readable());
}

#[test]
fn a_group_that_took_no_part_counts_as_missing() {
    let mut found = matches();
    found.description = Some(vec![Some("whole".to_string()), None]);
    assert!(found.is_readable());
    match PropertyMetadata::from_matches("u", &found) {
        Err(AppError::Parse(text)) => assert_eq!(text, "Could not extract property description"),
        other => panic!("{:?}", other),
    }
}

fn metadata() -> PropertyMetadata {
    read(&page(&[TITLE, PRICE, DESCRIPTION])).unwrap()
}

#[test]
fn a_template_is_filled_in() {
    let template = "# {{property address}}\n{{url}} {{price}}\n{{photo}}\n{{description}} ({{mls}}) {{price}}\n{{other}}";
    assert_eq!(
        fill_in(template, &metadata()),
        "# 1 Main St, Springfield, IL 62701\n[URL](https://www.compass.com/listing/1-main-st/123/) $1,250,000\n![First image](images/compass/1.webp)\nA sunny home. (12345) $1,250,000\n{{other}}"
    );
}

#[test]
fn a_template_without_placeholders_is_kept() {
    assert_eq!(fill_in("no {placeholders} {{here}}", &metadata()), "no {placeholders} {{here}}");
    assert_eq!(fill_in("", &metadata()), "");
}

#[test]
fn a_later_placeholder_in_a_text_is_filled_in_and_an_earlier_one_is_not() {
    let mut m = metadata();
    m.description = "see {{photo}} {{mls}} {{url}}".to_string();
    assert_eq!(
        fill_in("{{description}}", &m),
        "see ![First image](images/compass/1.webp) 12345 {{url}}"
    );
}

#[test]
fn prices_are_grouped_by_thousands() {
    let mut m = metadata();
    let prices = [
        (0u32, "$0"),
        (7, "$7"),
        (999, "$999"),
        (1000, "$1,000"),
        (10_050, "$10,050"),
        (999_999, "$999,999"),
        (1_000_000, "$1,000,000"),
        (u32::MAX, "$4,294,967,295"),
    ];
    for (price, text) in prices {
        m.price = price;
        assert_eq!(fill_in("{{price}}", &m), text);
        let page = format!("propertyHistory-table-td\"><div>{}</div></td></tr>", text);
        assert_eq!(read(&format!("{}\n{}\n{}", TITLE, page, DESCRIPTION)).unwrap().price, price);
    }
}

#[test]
fn the_title_is_the_address_joined_again() {
    let titles = [
        "1 Main St, Springfield, IL 62701 | MLS #12345",
        "1 Main St, Unit 2, Springfield, IL 62701 | MLS #",
        "A,, B,C, D, ,, 00000 | MLS #0",
        ", , é\u{3000} \u{0661}\u{0662}\u{0663}\u{0664}\u{0665} | MLS #\u{0666}",
        "x<title>1 Main St, City, ?, 12345 | MLS #7",
    ];
    for title in titles {
        let html = page(&[&format!("a<title>{} | Compass</title>b", title), PRICE, DESCRIPTION]);
        let m = read(&html).unwrap();
        assert_eq!(format!("{} | MLS #{}", m.full_address(), m.mls), title);
        assert!(!m.street.contains(", "));
        assert_eq!(m.state.chars().count(), 2);
        assert_eq!(m.zip.chars().count(), 5);
        let digit = regex::Regex::new("^\\d$").unwrap();
        for c in m.zip.chars().chain(m.mls.chars()) {
            assert!(digit.is_match(&c.to_string()));
        }
        assert!(!m.full_address().contains('\n'));
    }
}

#[test]
fn titles_of_another_form_are_not_read() {
    let titles = [
        "1 Main St, Springfield, IL 6270 | MLS #12345",
        "1 Main St, Springfield, ILL 62701 | MLS #12345",
        "1 Main St, IL 62701 | MLS #12345",
        "1 Main St, Springfield, IL 62701 | MLS #12a45",
        "1 Main\nSt, Springfield, IL 62701 | MLS #12345",
    ];
    for title in titles {
        let html = page(&[&format!("<title>{} | Compass</title>", title), PRICE, DESCRIPTION]);
        assert_eq!(parse_error(&html), "Could not extract address and MLS info from HTML title");
    }
}

#[test]
fn image_links_have_their_form() {
    let links = "\"https://origin.webp\" \"https://a\nb/origin.webp\" \"https://a/originXwebp\"";
    let m = read(&page(&[TITLE, links, PRICE, DESCRIPTION])).unwrap();
    assert_eq!(m.image_links, vec!["https://origin.webp", "https://a\nb/origin.webp"]);
}

#[test]
fn a_description_is_one_line_and_not_empty() {
    for text in ["", "two\nlines"] {
        let description = DESCRIPTION.replace("A sunny home.", text);
        let html = page(&[TITLE, PRICE, &description]);
        assert_eq!(parse_error(&html), "Could not extract property description");
    }
}

#[test]
fn what_is_read_stands_in_its_frame() {
    let link = "\"https://a.b/1/origin.webp\"";
    let html = page(&[TITLE, link, PRICE, DESCRIPTION]);
    let m = read(&html).unwrap();
    assert!(html.contains(&format!("\"{}\"", m.image_links[0])));
    assert!(html.contains("propertyHistory-table-td\"><div>$1,250,000</div></td></tr>"));
    assert!(html.contains(&format!("\"description\":\"{}\",\"floorSize\":", m.description)));
}

#[test]
fn a_description_ends_where_its_frame_first_follows() {
    let long = format!("{}, \"description\":\"more\",\"floorSize\":2", DESCRIPTION);
    assert_eq!(read(&page(&[TITLE, PRICE, &long])).unwrap().description, "A sunny home.");
    let odd = DESCRIPTION.replace('"', "'");
    assert_eq!(read(&page(&[TITLE, PRICE, &odd])).unwrap().description, "A sunny home.");
}

#[test]
fn what_stands_outside_its_frame_is_not_read() {
    let link = "'https://a.b/1/origin.webp'";
    assert!(read(&page(&[TITLE, link, PRICE, DESCRIPTION])).unwrap().image_links.is_empty());
    let price = "propertyHistory-table-td\"><div>1,250,000</div></td></tr>";
    assert_eq!(parse_error(&page(&[TITLE, price, DESCRIPTION])), "Could not extract price");
}
