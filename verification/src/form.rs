//! What a visitor submits, and what they are told.
use vstd::prelude::*;

use crate::decimal::decimal;
use crate::error::{lemma_reads, reads, AppError, ErrorView};
use crate::text::{
    contains, is_space, law_only_white_space_is_trimmed, occurs_at, occurs_in, starts_with, trim,
    trimmed,
};

verus! {

/// What becomes of a submitted text.
#[derive(Debug)]
pub enum Submission {
    /// The text names no listing. The visitor is told why.
    Rejected(String),
    /// The address of the listing to import.
    Accepted(String),
}

/// An address of a listing: a web address with the listing path of the site
/// in it.
pub open spec fn is_listing_url(url: Seq<char>) -> bool {
    &&& occurs_at(url, "http://"@, 0) || occurs_at(url, "https://"@, 0)
    &&& occurs_in("compass.com/listing/"@, url)
}

/// What becomes of a submitted text: the address of the listing, or what the
/// visitor is told.
pub open spec fn decision(listing_text: Seq<char>) -> Result<Seq<char>, Seq<char>> {
    let url = trimmed(listing_text);
    if url.len() == 0 {
        Err("Listing URL cannot be empty.\n"@)
    } else if is_listing_url(url) {
        Ok(url)
    } else {
        Err("Invalid Compass listing URL.\n"@)
    }
}

/// What the visitor is told when the import has ended.
pub open spec fn farewell(outcome: Result<(), ErrorView>) -> Seq<char> {
    match outcome {
        Ok(()) => "Listing created successfully.\n"@,
        Err(e) => "Failed to create listing: "@ + e.text() + "\n"@,
    }
}

/// Decides on a submitted text: white space around the address is ignored.
pub fn check_submission(listing_text: &str) -> (r: Submission)
    ensures
        match r {
            Submission::Rejected(reply) => {
                let url = trimmed(listing_text@);
                ||| url.len() == 0 && reply@ == "Listing URL cannot be empty.\n"@
                ||| url.len() > 0 && !is_listing_url(url) && reply@
                    == "Invalid Compass listing URL.\n"@
            },
            Submission::Accepted(url) => {
                &&& url@ == trimmed(listing_text@)
                &&& url@.len() > 0
                &&& is_listing_url(url@)
            },
        },
        match r {
            Submission::Rejected(reply) => decision(listing_text@) == Err::<Seq<char>, Seq<char>>(
                reply@,
            ),
            Submission::Accepted(url) => decision(listing_text@) == Ok::<Seq<char>, Seq<char>>(
                url@,
            ),
        },
{
    let url = trim(listing_text);
    if url.as_str().is_empty() {
        return Submission::Rejected("Listing URL cannot be empty.\n".to_owned());
    }
    if (!starts_with(url.as_str(), "http://") && !starts_with(url.as_str(), "https://"))
        || !contains(url.as_str(), "compass.com/listing/") {
        return Submission::Rejected("Invalid Compass listing URL.\n".to_owned());
    }
    Submission::Accepted(url)
}

/// What the visitor is told when the import has ended.
pub fn closing_message(outcome: &Result<(), AppError>) -> (r: String)
    requires
        outcome matches Err(e) ==> e@.valid(),
    ensures
        r@ == match outcome {
            Ok(()) => "Listing created successfully.\n"@,
            Err(e) => "Failed to create listing: "@ + e@.text() + "\n"@,
        },
        r@ == farewell(
            match outcome {
                Ok(()) => Ok(()),
                Err(e) => Err(e@),
            },
        ),
        outcome matches Err(e) ==> (e@ matches ErrorView::Nextcloud { status, .. } ==> occurs_at(
            r@,
            "Failed to create listing: "@ + ("Nextcloud server error: "@ + decimal(
                status as nat,
            ).push(' ')),
            0,
        )),
{
    match outcome {
        Ok(()) => "Listing created successfully.\n".to_owned(),
        Err(e) => {
            let message = e.message();
            let reply = "Failed to create listing: ".to_owned().concat(message.as_str()).concat("\n");
            proof {
                if let ErrorView::Nextcloud { status, .. } = e@ {
                    let number = "Nextcloud server error: "@ + decimal(status as nat).push(' ');
                    let begin = "Failed to create listing: "@ + number;
                    assert forall|i: int| 0 <= i < number.len() implies message@[i] == number[i] by {
                        assert(message@.subrange(0, number.len() as int)[i] == message@[i]);
                    }
                    assert(reply@.subrange(0, begin.len() as int) =~= begin);
                }
            }
            reply
        },
    }
}

/// An address of a listing is `http://` or `https://`, anything, the listing
/// path of the site, and anything.
pub proof fn law_listing_addresses(a: Seq<char>, b: Seq<char>)
    ensures
        is_listing_url("http://"@ + a + "compass.com/listing/"@ + b),
        is_listing_url("https://"@ + a + "compass.com/listing/"@ + b),
{
    lemma_is_listing_url("http://"@, a, b);
    lemma_is_listing_url("https://"@, a, b);
}

/// A scheme, anything, the listing path and anything.
proof fn lemma_is_listing_url(scheme: Seq<char>, a: Seq<char>, b: Seq<char>)
    requires
        scheme == "http://"@ || scheme == "https://"@,
    ensures
        is_listing_url(scheme + a + "compass.com/listing/"@ + b),
{
    let path = "compass.com/listing/"@;
    let url = scheme + a + path + b;
    let at = (scheme.len() + a.len()) as int;
    assert(url.subrange(0, scheme.len() as int) =~= scheme);
    assert(url.subrange(at, at + path.len()) =~= path);
    assert(occurs_at(url, path, at));
}

/// Nothing else is an address of a listing.
pub proof fn law_other_addresses(url: Seq<char>)
    requires
        is_listing_url(url),
    ensures
        exists|a: Seq<char>, b: Seq<char>|
            url == #[trigger] ("http://"@ + a + "compass.com/listing/"@ + b) || url == "https://"@
                + a + "compass.com/listing/"@ + b,
{
    let path = "compass.com/listing/"@;
    let scheme = if occurs_at(url, "http://"@, 0) {
        "http://"@
    } else {
        "https://"@
    };
    let at = choose|i: int| occurs_at(url, path, i);
    reveal_strlit("http://");
    reveal_strlit("https://");
    reveal_strlit("compass.com/listing/");
    assert("http://"@.len() == 7 && "https://"@.len() == 8 && path.len() == 20);
    let n = scheme.len() as int;
    assert(url.subrange(at, at + path.len())[0] == url[at]);
    assert(at >= n) by {
        if at < n {
            assert(url.subrange(0, n)[at] == url[at]);
            assert(scheme[at] == 'c');
        }
    }
    let a = url.subrange(n, at);
    let b = url.skip(at + path.len());
    assert(url =~= url.subrange(0, n) + a + url.subrange(at, at + path.len()) + b);
    assert(url == scheme + a + path + b);
    let other = "http://"@ + a + path + b;
}

/// An address of a listing is accepted as it is, with any white space around
/// it.
pub proof fn law_listings_are_accepted(
    before: Seq<char>,
    scheme: Seq<char>,
    a: Seq<char>,
    b: Seq<char>,
    after: Seq<char>,
)
    requires
        scheme == "http://"@ || scheme == "https://"@,
        forall|i: int| 0 <= i < before.len() ==> is_space(#[trigger] before[i]),
        forall|i: int| 0 <= i < after.len() ==> is_space(#[trigger] after[i]),
        !is_space((scheme + a + "compass.com/listing/"@ + b).last()),
    ensures
        decision(before + (scheme + a + "compass.com/listing/"@ + b) + after) == Ok::<
            Seq<char>,
            Seq<char>,
        >(scheme + a + "compass.com/listing/"@ + b),
{
    let url = scheme + a + "compass.com/listing/"@ + b;
    let text = before + url + after;
    reveal_strlit("http://");
    reveal_strlit("https://");
    assert(url[0] == 'h');
    lemma_is_listing_url(scheme, a, b);
    let (i, j) = law_only_white_space_is_trimmed(text);
    let (n, m) = (before.len() as int, (before.len() + url.len()) as int);
    assert(text[n] == url[0] && text[m - 1] == url.last());
    assert(i <= n && m <= j);
    assert(i == n) by {
        if i < n {
            assert(is_space(before[i]));
            assert(text[i] == before[i]);
        }
    }
    assert(j == m) by {
        if j > m {
            assert(is_space(after[j - 1 - m]));
            assert(text[j - 1] == after[j - 1 - m]);
        }
    }
    assert(text.subrange(n, m) =~= url);
}

/// What is accepted is the submitted text without the white space at its ends,
/// and names a listing. Where nothing but white space was submitted, the visitor
/// is told so, and otherwise that it is no listing.
pub proof fn law_other_texts_are_rejected(text: Seq<char>)
    ensures
        match decision(text) {
            Ok(url) => url == trimmed(text) && is_listing_url(url),
            Err(reply) => {
                &&& !is_listing_url(trimmed(text))
                &&& (forall|i: int| 0 <= i < text.len() ==> is_space(#[trigger] text[i]))
                    ==> reply == "Listing URL cannot be empty.\n"@
                &&& (exists|i: int| 0 <= i < text.len() && !is_space(#[trigger] text[i])) ==> reply
                    == "Invalid Compass listing URL.\n"@
            },
        },
{
    let (i, j) = law_only_white_space_is_trimmed(text);
    reveal_strlit("http://");
    reveal_strlit("https://");
    assert("http://"@.len() == 7 && "https://"@.len() == 8);
    if exists|k: int| 0 <= k < text.len() && !is_space(#[trigger] text[k]) {
        let k = choose|k: int| 0 <= k < text.len() && !is_space(#[trigger] text[k]);
        assert(i <= k < j);
    } else if i < j {
        assert(is_space(text[i]));
    }
}

/// The visitor is told of a success in fixed words, and of a failure in those of
/// the failure.
pub proof fn law_farewells(e: ErrorView)
    ensures
        farewell(Ok(())) == "Listing created successfully.\n"@,
        exists|begin: Seq<char>|
            #[trigger] reads(farewell(Err(e)), begin, "\n"@) && reads(
                begin,
                "Failed to create listing: "@,
                e.text(),
            ),
{
    let begin = "Failed to create listing: "@ + e.text();
    lemma_reads("Failed to create listing: "@, e.text());
    lemma_reads(begin, "\n"@);
    assert(reads(farewell(Err(e)), begin, "\n"@));
}

} // verus!
