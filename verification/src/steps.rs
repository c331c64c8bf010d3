//! What an import asks to be done, and what it is told in return.
use vstd::prelude::*;

use crate::error::{is_status, AppError, ErrorView};
use crate::page::{reading_view, MetadataView, PropertyMetadata};

verus! {

/// What is written to the console.
#[derive(Debug)]
pub enum Console {
    /// A line of progress.
    Line(String),
    /// An image that could not be uploaded.
    UploadFailure { file_name: String, error: AppError },
}

/// What a `Console` holds.
#[verifier::ext_equal]
pub enum ConsoleView {
    Line(Seq<char>),
    UploadFailure { file_name: Seq<char>, error: ErrorView },
}

impl View for Console {
    type V = ConsoleView;

    open spec fn view(&self) -> ConsoleView {
        match self {
            Console::Line(text) => ConsoleView::Line(text@),
            Console::UploadFailure { file_name, error } => ConsoleView::UploadFailure {
                file_name: file_name@,
                error: error@,
            },
        }
    }
}

/// A report of progress: what the console shows and what the visitor is sent.
#[derive(Debug)]
pub struct Notice {
    pub console: Console,
    pub stream: String,
}

/// What a `Notice` holds.
#[verifier::ext_equal]
pub struct NoticeView {
    pub console: ConsoleView,
    pub stream: Seq<char>,
}

impl View for Notice {
    type V = NoticeView;

    open spec fn view(&self) -> NoticeView {
        NoticeView { console: self.console@, stream: self.stream@ }
    }
}

/// What the notices of a list hold.
pub open spec fn notice_views(notices: Seq<Notice>) -> Seq<NoticeView> {
    Seq::new(notices.len(), |i: int| notices[i]@)
}

/// What is to be done next.
#[derive(Debug)]
pub enum Action {
    /// Make a folder on this machine, with the folders it stands in.
    CreateDirs(String),
    /// Make the client for the requests to the listing site.
    OpenClient,
    /// Fetch the page of the listing, for what it says.
    FetchPage(String),
    /// Fetch the text at an address.
    FetchText(String),
    /// Write the metadata of the property to a file.
    WriteMetadata(String),
    /// Write a text to a file.
    WriteText { path: String, text: String },
    /// Look whether a file is there.
    CheckExists(String),
    /// Fetch an image and write it to a file.
    FetchImage { link: String, path: String },
    /// Wait for a number of seconds.
    Sleep(u64),
    /// Ask the server to make a folder.
    MakeCollection(String),
    /// Read the contents of a file, to be sent.
    LoadFile(String),
    /// Send the contents that were read to the server.
    PutFile(String),
    /// Ask the server for a file.
    GetRemote(String),
    /// Write the body of the server's last answer to a file.
    SaveBody(String),
    /// Read the body of the server's last answer.
    ReadBody,
    /// Read the text of a file.
    ReadText(String),
    /// Nothing: the import has ended.
    Finish(Result<(), AppError>),
}

/// What an `Action` holds.
#[verifier::ext_equal]
pub enum ActionView {
    CreateDirs(Seq<char>),
    OpenClient,
    FetchPage(Seq<char>),
    FetchText(Seq<char>),
    WriteMetadata(Seq<char>),
    WriteText { path: Seq<char>, text: Seq<char> },
    CheckExists(Seq<char>),
    FetchImage { link: Seq<char>, path: Seq<char> },
    Sleep(u64),
    MakeCollection(Seq<char>),
    LoadFile(Seq<char>),
    PutFile(Seq<char>),
    GetRemote(Seq<char>),
    SaveBody(Seq<char>),
    ReadBody,
    ReadText(Seq<char>),
    Finish(Result<(), ErrorView>),
}

impl View for Action {
    type V = ActionView;

    open spec fn view(&self) -> ActionView {
        match self {
            Action::CreateDirs(path) => ActionView::CreateDirs(path@),
            Action::OpenClient => ActionView::OpenClient,
            Action::FetchPage(url) => ActionView::FetchPage(url@),
            Action::FetchText(url) => ActionView::FetchText(url@),
            Action::WriteMetadata(path) => ActionView::WriteMetadata(path@),
            Action::WriteText { path, text } => ActionView::WriteText {
                path: path@,
                text: text@,
            },
            Action::CheckExists(path) => ActionView::CheckExists(path@),
            Action::FetchImage { link, path } => ActionView::FetchImage {
                link: link@,
                path: path@,
            },
            Action::Sleep(secs) => ActionView::Sleep(*secs),
            Action::MakeCollection(url) => ActionView::MakeCollection(url@),
            Action::LoadFile(path) => ActionView::LoadFile(path@),
            Action::PutFile(url) => ActionView::PutFile(url@),
            Action::GetRemote(url) => ActionView::GetRemote(url@),
            Action::SaveBody(path) => ActionView::SaveBody(path@),
            Action::ReadBody => ActionView::ReadBody,
            Action::ReadText(path) => ActionView::ReadText(path@),
            Action::Finish(Ok(())) => ActionView::Finish(Ok(())),
            Action::Finish(Err(e)) => ActionView::Finish(Err(e@)),
        }
    }
}

/// The notices to give and then the action to take.
#[derive(Debug)]
pub struct Step {
    pub notices: Vec<Notice>,
    pub action: Action,
}

/// What a `Step` holds.
#[verifier::ext_equal]
pub struct StepView {
    pub notices: Seq<NoticeView>,
    pub action: ActionView,
}

impl View for Step {
    type V = StepView;

    open spec fn view(&self) -> StepView {
        StepView { notices: notice_views(self.notices@), action: self.action@ }
    }
}

/// What came of an action.
#[derive(Debug)]
pub enum Event {
    /// It was done.
    Done,
    /// It could not be done.
    Failed(AppError),
    /// The page was fetched and read.
    PageRead(Result<PropertyMetadata, AppError>),
    /// The text that was asked for.
    Text(String),
    /// Whether the file is there.
    Exists(bool),
    /// The server answered with this status.
    Status(u16),
}

/// What an `Event` holds.
#[verifier::ext_equal]
pub enum EventView {
    Done,
    Failed(ErrorView),
    PageRead(Result<MetadataView, ErrorView>),
    Text(Seq<char>),
    Exists(bool),
    Status(u16),
}

impl View for Event {
    type V = EventView;

    open spec fn view(&self) -> EventView {
        match self {
            Event::Done => EventView::Done,
            Event::Failed(e) => EventView::Failed(e@),
            Event::PageRead(reading) => EventView::PageRead(reading_view(*reading)),
            Event::Text(text) => EventView::Text(text@),
            Event::Exists(there) => EventView::Exists(*there),
            Event::Status(status) => EventView::Status(*status),
        }
    }
}

impl EventView {
    /// The statuses in the event are ones that HTTP knows of.
    pub open spec fn valid(self) -> bool {
        match self {
            EventView::Failed(e) => e.valid(),
            EventView::PageRead(Err(e)) => e.valid(),
            EventView::Status(status) => is_status(status),
            _ => true,
        }
    }
}

/// Every action shows what it is about.
pub proof fn law_every_action_is_shown(action: Action)
    ensures
        action matches Action::CreateDirs(path) ==> action@ == ActionView::CreateDirs(path@),
        action matches Action::OpenClient ==> action@ == ActionView::OpenClient,
        action matches Action::FetchPage(url) ==> action@ == ActionView::FetchPage(url@),
        action matches Action::FetchText(url) ==> action@ == ActionView::FetchText(url@),
        action matches Action::WriteMetadata(path) ==> action@ == ActionView::WriteMetadata(path@),
        action matches Action::WriteText { path, text } ==> action@ == (ActionView::WriteText {
            path: path@,
            text: text@,
        }),
        action matches Action::CheckExists(path) ==> action@ == ActionView::CheckExists(path@),
        action matches Action::FetchImage { link, path } ==> action@ == (ActionView::FetchImage {
            link: link@,
            path: path@,
        }),
        action matches Action::Sleep(secs) ==> action@ == ActionView::Sleep(secs),
        action matches Action::MakeCollection(url) ==> action@ == ActionView::MakeCollection(url@),
        action matches Action::LoadFile(path) ==> action@ == ActionView::LoadFile(path@),
        action matches Action::PutFile(url) ==> action@ == ActionView::PutFile(url@),
        action matches Action::GetRemote(url) ==> action@ == ActionView::GetRemote(url@),
        action matches Action::SaveBody(path) ==> action@ == ActionView::SaveBody(path@),
        action matches Action::ReadBody ==> action@ == ActionView::ReadBody,
        action matches Action::ReadText(path) ==> action@ == ActionView::ReadText(path@),
        action matches Action::Finish(Ok(())) ==> action@ == ActionView::Finish(Ok(())),
        action matches Action::Finish(Err(e)) ==> action@ == ActionView::Finish(Err(e@)),
{
}

/// Every notice of a step is shown, in its place and in full.
pub proof fn law_every_notice_is_shown(step: Step, i: int)
    requires
        0 <= i < step.notices.len(),
    ensures
        step@.notices.len() == step.notices.len(),
        step@.notices[i].stream == step.notices@[i].stream@,
        step.notices@[i].console matches Console::Line(text) ==> step@.notices[i].console
            == ConsoleView::Line(text@),
        step.notices@[i].console matches Console::UploadFailure { file_name, error }
            ==> step@.notices[i].console == (ConsoleView::UploadFailure {
            file_name: file_name@,
            error: error@,
        }),
        step@.action == step.action@,
{
}

/// Every event shows what it tells.
pub proof fn law_every_event_is_shown(event: Event)
    ensures
        event matches Event::Done ==> event@ == EventView::Done,
        event matches Event::Failed(e) ==> event@ == EventView::Failed(e@),
        event matches Event::PageRead(Ok(metadata)) ==> event@ == EventView::PageRead(
            Ok(metadata@),
        ),
        event matches Event::PageRead(Err(e)) ==> event@ == EventView::PageRead(Err(e@)),
        event matches Event::Text(text) ==> event@ == EventView::Text(text@),
        event matches Event::Exists(there) ==> event@ == EventView::Exists(there),
        event matches Event::Status(status) ==> event@ == EventView::Status(status),
{
}

} // verus!
