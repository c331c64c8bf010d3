//! What can go wrong while a listing is imported.
use vstd::prelude::*;

use crate::decimal::decimal;
use crate::text::occurs_at;

verus! {

/// A failure. Where it came from outside the library, it carries the text of
/// the outside error.
#[derive(Debug)]
pub enum AppError {
    /// A request could not be made or answered.
    Request(String),
    /// A file or a folder could not be read or written.
    Io(String),
    /// The page does not hold what was looked for.
    Parse(String),
    /// A setting is missing.
    Config(String),
    /// The Nextcloud server refused a request.
    Nextcloud { status: u16, body: String },
    /// The metadata could not be serialized.
    Json(String),
}

/// What an `AppError` holds.
#[verifier::ext_equal]
pub enum ErrorView {
    Request(Seq<char>),
    Io(Seq<char>),
    Parse(Seq<char>),
    Config(Seq<char>),
    Nextcloud { status: u16, body: Seq<char> },
    Json(Seq<char>),
}

impl View for AppError {
    type V = ErrorView;

    open spec fn view(&self) -> ErrorView {
        match self {
            AppError::Request(t) => ErrorView::Request(t@),
            AppError::Io(t) => ErrorView::Io(t@),
            AppError::Parse(t) => ErrorView::Parse(t@),
            AppError::Config(t) => ErrorView::Config(t@),
            AppError::Nextcloud { status, body } => ErrorView::Nextcloud {
                status: *status,
                body: body@,
            },
            AppError::Json(t) => ErrorView::Json(t@),
        }
    }
}

/// The numbers that an HTTP response can have as its status.
pub open spec fn is_status(status: u16) -> bool {
    100 <= status <= 999
}

impl ErrorView {
    /// A server's answer has a status that HTTP knows of.
    pub open spec fn valid(self) -> bool {
        self matches ErrorView::Nextcloud { status, .. } ==> is_status(status)
    }

    /// The failure in words.
    pub open spec fn text(self) -> Seq<char> {
        match self {
            ErrorView::Request(t) => "Network request failed: "@ + t,
            ErrorView::Io(t) => "File I/O error: "@ + t,
            ErrorView::Parse(t) => "Failed to parse data: "@ + t,
            ErrorView::Config(t) => "Configuration error: "@ + t,
            ErrorView::Nextcloud { status, body } => "Nextcloud server error: "@ + status_text(
                status,
            ) + " - "@ + body,
            ErrorView::Json(t) => "Failed to serialize data: "@ + t,
        }
    }
}

/// What `Display` of `reqwest::StatusCode` writes for a status: the number and
/// its standard reason phrase, or a placeholder where there is none.
pub uninterp spec fn status_text(status: u16) -> Seq<char>;

/// `Display` of `reqwest::StatusCode`, through `StatusCode::from_u16`. The text
/// depends on the number alone and begins with the number and a space; the
/// reason phrase behind them is left to the name `status_text`.
#[verifier::external_body]
fn status_line(status: u16) -> (r: String)
    requires
        is_status(status),
    ensures
        r@ == status_text(status),
        occurs_at(r@, decimal(status as nat).push(' '), 0),
{
    reqwest::StatusCode::from_u16(status).unwrap().to_string()
}

impl AppError {
    /// Whether a server's answer has a status that HTTP knows of.
    pub fn is_valid(&self) -> (r: bool)
        ensures
            r == self@.valid(),
    {
        match self {
            AppError::Nextcloud { status, .. } => 100 <= *status && *status <= 999,
            _ => true,
        }
    }

    /// The failure in words.
    pub fn message(&self) -> (r: String)
        requires
            self@.valid(),
        ensures
            r@ == self@.text(),
            self@ matches ErrorView::Nextcloud { status, .. } ==> occurs_at(
                r@,
                "Nextcloud server error: "@ + decimal(status as nat).push(' '),
                0,
            ),
    {
        match self {
            AppError::Request(t) => "Network request failed: ".to_owned().concat(t.as_str()),
            AppError::Io(t) => "File I/O error: ".to_owned().concat(t.as_str()),
            AppError::Parse(t) => "Failed to parse data: ".to_owned().concat(t.as_str()),
            AppError::Config(t) => "Configuration error: ".to_owned().concat(t.as_str()),
            AppError::Nextcloud { status, body } => {
                let line = status_line(*status);
                let message = "Nextcloud server error: ".to_owned().concat(line.as_str()).concat(
                    " - ",
                ).concat(body.as_str());
                proof {
                    let number = decimal(*status as nat).push(' ');
                    let begin = "Nextcloud server error: "@ + number;
                    assert(line@.subrange(0, number.len() as int) == number);
                    assert forall|i: int| 0 <= i < number.len() implies line@[i] == number[i] by {
                        assert(line@.subrange(0, number.len() as int)[i] == line@[i]);
                    }
                    assert(message@.subrange(0, begin.len() as int) =~= begin);
                }
                message
            },
            AppError::Json(t) => "Failed to serialize data: ".to_owned().concat(t.as_str()),
        }
    }
}

/// `text` is `begin` and, right behind it, `end`.
pub open spec fn reads(text: Seq<char>, begin: Seq<char>, end: Seq<char>) -> bool {
    &&& text.len() == begin.len() + end.len()
    &&& occurs_at(text, begin, 0)
    &&& occurs_at(text, end, begin.len() as int)
}

/// One text and another behind it.
pub proof fn lemma_reads(begin: Seq<char>, end: Seq<char>)
    ensures
        reads(begin + end, begin, end),
{
    assert((begin + end).subrange(0, begin.len() as int) =~= begin);
    assert((begin + end).subrange(begin.len() as int, (begin + end).len() as int) =~= end);
}

/// The words for a failure say what failed and then, in full, what was said of
/// it.
pub proof fn law_failures_are_put_in_words(t: Seq<char>)
    ensures
        reads(ErrorView::Request(t).text(), "Network request failed: "@, t),
        reads(ErrorView::Io(t).text(), "File I/O error: "@, t),
        reads(ErrorView::Parse(t).text(), "Failed to parse data: "@, t),
        reads(ErrorView::Config(t).text(), "Configuration error: "@, t),
        reads(ErrorView::Json(t).text(), "Failed to serialize data: "@, t),
{
    lemma_reads("Network request failed: "@, t);
    lemma_reads("File I/O error: "@, t);
    lemma_reads("Failed to parse data: "@, t);
    lemma_reads("Configuration error: "@, t);
    lemma_reads("Failed to serialize data: "@, t);
}

/// The words for a refusal name the status and end in the body of the answer.
pub proof fn law_refusals_are_put_in_words(status: u16, body: Seq<char>)
    ensures
        ({
            let text = (ErrorView::Nextcloud { status, body }).text();
            exists|named: Seq<char>|
                {
                    &&& #[trigger] reads(text, named, " - "@ + body)
                    &&& reads(named, "Nextcloud server error: "@, status_text(status))
                }
        }),
{
    let text = (ErrorView::Nextcloud { status, body }).text();
    let named = "Nextcloud server error: "@ + status_text(status);
    lemma_reads("Nextcloud server error: "@, status_text(status));
    lemma_reads(named, " - "@ + body);
    assert(named + (" - "@ + body) =~= text);
    assert(reads(text, named, " - "@ + body));
}

/// A failure is valid unless it is a refusal with a number that no answer can
/// have.
pub proof fn law_valid_failures(e: ErrorView)
    ensures
        e.valid() <==> !(e matches ErrorView::Nextcloud { status, .. } && (status < 100 || 999
            < status)),
{
}

/// Every failure shows what it holds.
pub proof fn law_every_failure_is_shown(e: AppError)
    ensures
        e matches AppError::Request(t) ==> e@ == ErrorView::Request(t@),
        e matches AppError::Io(t) ==> e@ == ErrorView::Io(t@),
        e matches AppError::Parse(t) ==> e@ == ErrorView::Parse(t@),
        e matches AppError::Config(t) ==> e@ == ErrorView::Config(t@),
        e matches AppError::Json(t) ==> e@ == ErrorView::Json(t@),
        e matches AppError::Nextcloud { status, body } ==> e@ == (ErrorView::Nextcloud {
            status,
            body: body@,
        }),
{
}

} // verus!
