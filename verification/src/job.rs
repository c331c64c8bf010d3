//! The import of one listing, as a machine that is told what came of its last
//! action and answers with the next one.
use vstd::pervasive::unreached;
use vstd::prelude::*;

use crate::config::{Config, ConfigView};
use crate::decimal::{decimal, is_digit, law_decimal_is_digits, to_decimal};
use crate::error::{is_status, AppError, ErrorView};
use crate::nextcloud::{
    account, folder_is_there, folder_ready, is_success, opt_view, refusal, success, AccountView,
    NextcloudClient,
};
use crate::page::{page_of, reading_view, stands_on, MetadataView, PropertyMetadata};
use crate::paths::{
    folder_chain, folders_down_to, is_simple_name, join, joined, PathStyle,
};
use crate::steps::{
    notice_views, Action, ActionView, Console, ConsoleView, Event, EventView, Notice, NoticeView,
    Step, StepView,
};
use crate::template::{fill_in, filled_in};
use crate::text::views;

verus! {

/// The folder on the server that holds the properties.
pub const REMOTE_BASE: &'static str = "Propertes";

/// The template on the server.
pub const TEMPLATE_PATH: &'static str = "Templates/new-property.md";

/// Which action was asked for last. A number is the position of the image, or
/// of the folder, that the action is about; a status is the one with which the
/// server refused.
#[derive(Debug, Clone, Copy, PartialEq, Eq, Structural)]
pub enum Stage {
    Start,
    Dirs,
    Client,
    Page,
    Metadata,
    PageCopy,
    PageWrite,
    ImageCheck(usize),
    ImageFetch(usize),
    ImagePause(usize),
    Folder(usize),
    FolderBody(u16),
    UploadLoad(usize),
    UploadPut(usize),
    UploadBody(usize, u16),
    TemplateGet,
    TemplateBody(u16),
    TemplateSave,
    TemplateRead,
    TemplateWrite,
    InfoLoad,
    InfoPut,
    InfoBody(u16),
    Finished,
}

/// A `Stage`, with positions of any size.
pub enum StageView {
    Start,
    Dirs,
    Client,
    Page,
    Metadata,
    PageCopy,
    PageWrite,
    ImageCheck(nat),
    ImageFetch(nat),
    ImagePause(nat),
    Folder(nat),
    FolderBody(u16),
    UploadLoad(nat),
    UploadPut(nat),
    UploadBody(nat, u16),
    TemplateGet,
    TemplateBody(u16),
    TemplateSave,
    TemplateRead,
    TemplateWrite,
    InfoLoad,
    InfoPut,
    InfoBody(u16),
    Finished,
}

impl View for Stage {
    type V = StageView;

    open spec fn view(&self) -> StageView {
        match *self {
            Stage::Start => StageView::Start,
            Stage::Dirs => StageView::Dirs,
            Stage::Client => StageView::Client,
            Stage::Page => StageView::Page,
            Stage::Metadata => StageView::Metadata,
            Stage::PageCopy => StageView::PageCopy,
            Stage::PageWrite => StageView::PageWrite,
            Stage::ImageCheck(i) => StageView::ImageCheck(i as nat),
            Stage::ImageFetch(i) => StageView::ImageFetch(i as nat),
            Stage::ImagePause(i) => StageView::ImagePause(i as nat),
            Stage::Folder(k) => StageView::Folder(k as nat),
            Stage::FolderBody(status) => StageView::FolderBody(status),
            Stage::UploadLoad(i) => StageView::UploadLoad(i as nat),
            Stage::UploadPut(i) => StageView::UploadPut(i as nat),
            Stage::UploadBody(i, status) => StageView::UploadBody(i as nat, status),
            Stage::TemplateGet => StageView::TemplateGet,
            Stage::TemplateBody(status) => StageView::TemplateBody(status),
            Stage::TemplateSave => StageView::TemplateSave,
            Stage::TemplateRead => StageView::TemplateRead,
            Stage::TemplateWrite => StageView::TemplateWrite,
            Stage::InfoLoad => StageView::InfoLoad,
            Stage::InfoPut => StageView::InfoPut,
            Stage::InfoBody(status) => StageView::InfoBody(status),
            Stage::Finished => StageView::Finished,
        }
    }
}

/// The import of one listing.
#[derive(Debug)]
pub struct ListingJob {
    url: String,
    style: PathStyle,
    base_dir: String,
    download_delay_secs: u64,
    skip_images: bool,
    client: NextcloudClient,
    metadata: Option<PropertyMetadata>,
    stage: Stage,
}

/// What a `ListingJob` holds.
#[verifier::ext_equal]
pub struct JobView {
    pub url: Seq<char>,
    pub style: PathStyle,
    pub base_dir: Seq<char>,
    pub download_delay_secs: u64,
    pub skip_images: bool,
    pub account: AccountView,
    pub metadata: Option<MetadataView>,
    pub stage: StageView,
}

impl View for ListingJob {
    type V = JobView;

    closed spec fn view(&self) -> JobView {
        JobView {
            url: self.url@,
            style: self.style,
            base_dir: self.base_dir@,
            download_delay_secs: self.download_delay_secs,
            skip_images: self.skip_images,
            account: self.client@,
            metadata: match self.metadata {
                Some(metadata) => Some(metadata@),
                None => None,
            },
            stage: self.stage@,
        }
    }
}

/// A notice that shows one text on the console and sends another.
pub open spec fn notice(console: Seq<char>, stream: Seq<char>) -> NoticeView {
    NoticeView { console: ConsoleView::Line(console), stream }
}

/// A notice that shows and sends the same text.
pub open spec fn same(text: Seq<char>) -> NoticeView {
    notice(text, text)
}

/// The name of the file of image `i`, counted from one.
pub open spec fn image_name(i: nat) -> Seq<char> {
    decimal(i + 1) + ".webp"@
}

/// The import of the listing at `url` on a machine that writes paths in `style`,
/// before anything was done.
pub open spec fn new_job(
    config: ConfigView,
    url: Seq<char>,
    timestamp: u64,
    style: PathStyle,
) -> JobView {
    JobView {
        url,
        style,
        base_dir: joined(style, config.output_dir, decimal(timestamp as nat)),
        download_delay_secs: config.download_delay_secs,
        skip_images: config.skip_images,
        account: account(config.nc_url, config.nc_user, config.nc_pass),
        metadata: None,
        stage: StageView::Start,
    }
}

/// Where things are kept.
impl JobView {
    /// The links to the images.
    pub open spec fn links(self) -> Seq<Seq<char>> {
        self.metadata->0.image_links
    }

    /// The folder of the images on this machine.
    pub open spec fn images_dir(self) -> Seq<char> {
        joined(self.style, self.base_dir, "images"@)
    }

    /// The file of the metadata.
    pub open spec fn metadata_path(self) -> Seq<char> {
        joined(self.style, self.base_dir, "metadata.json"@)
    }

    /// The file of the page.
    pub open spec fn page_path(self) -> Seq<char> {
        joined(self.style, self.base_dir, "page.html"@)
    }

    /// The file of the note about the property.
    pub open spec fn info_path(self) -> Seq<char> {
        joined(self.style, self.base_dir, "info.md"@)
    }

    /// The file of image `i` on this machine.
    pub open spec fn image_path(self, i: nat) -> Seq<char> {
        joined(self.style, self.images_dir(), image_name(i))
    }

    /// The folder of the property on the server.
    pub open spec fn remote_dir(self) -> Seq<char> {
        REMOTE_BASE@ + "/"@ + self.metadata->0.street
    }

    /// The folder of the images on the server.
    pub open spec fn remote_images_dir(self) -> Seq<char> {
        self.remote_dir() + "/images/compass"@
    }

    /// The file of image `i` on the server.
    pub open spec fn remote_image(self, i: nat) -> Seq<char> {
        self.remote_images_dir() + "/"@ + image_name(i)
    }

    /// The note about the property on the server.
    pub open spec fn remote_info(self) -> Seq<char> {
        self.remote_dir() + "/info.md"@
    }

    /// The folders to be made on the server, each after the one it stands in.
    pub open spec fn folders(self) -> Seq<Seq<char>> {
        folder_chain(self.style, self.remote_images_dir())
    }
}

/// What is done next.
impl JobView {
    /// The import goes on: it gives `notices`, asks for `action` and waits in
    /// `stage` for what comes of it.
    pub open spec fn go(
        self,
        stage: StageView,
        notices: Seq<NoticeView>,
        action: ActionView,
    ) -> (JobView, StepView) {
        (JobView { stage, ..self }, StepView { notices, action })
    }

    /// The import ends with an error.
    pub open spec fn fail(self, e: ErrorView) -> (JobView, StepView) {
        self.go(StageView::Finished, Seq::empty(), ActionView::Finish(Err(e)))
    }

    /// Image `i` is fetched unless it is there; behind the last one the folders
    /// are made.
    pub open spec fn start_image(self, notices: Seq<NoticeView>, i: nat) -> (JobView, StepView) {
        if i < self.links().len() {
            self.go(
                StageView::ImageCheck(i),
                notices.push(
                    notice(
                        "Downloading "@ + self.links()[i as int] + "..."@,
                        "Downloading "@ + self.links()[i as int] + "...\n"@,
                    ),
                ),
                ActionView::CheckExists(self.image_path(i)),
            )
        } else {
            self.start_folder(
                notices.push(notice("Image download complete."@, "Image download complete.\n"@)),
                0,
            )
        }
    }

    /// Folder `k` is made; behind the last one the images are uploaded.
    pub open spec fn start_folder(self, notices: Seq<NoticeView>, k: nat) -> (JobView, StepView) {
        if k < self.folders().len() {
            self.go(
                StageView::Folder(k),
                notices.push(
                    same("Ensuring folder exists at '"@ + self.folders()[k as int] + "'"@),
                ),
                ActionView::MakeCollection(self.account.dav_url(self.folders()[k as int])),
            )
        } else {
            self.start_upload(notices, 0)
        }
    }

    /// Image `i` is uploaded; behind the last one the template is fetched.
    pub open spec fn start_upload(self, notices: Seq<NoticeView>, i: nat) -> (JobView, StepView) {
        if i < self.links().len() {
            self.go(
                StageView::UploadLoad(i),
                notices,
                ActionView::LoadFile(self.image_path(i)),
            )
        } else {
            self.go(
                StageView::TemplateGet,
                notices.push(
                    notice("Image upload complete."@, "Image upload complete.\n"@),
                ).push(
                    same(
                        "Downloading '"@ + TEMPLATE_PATH@ + "' to '"@ + self.info_path() + "'"@,
                    ),
                ),
                ActionView::GetRemote(self.account.dav_url(TEMPLATE_PATH@)),
            )
        }
    }

    /// Image `i` was not uploaded, which is reported; the next one follows.
    pub open spec fn upload_failed(self, i: nat, e: ErrorView) -> (JobView, StepView) {
        self.start_upload(
            seq![
                NoticeView {
                    console: ConsoleView::UploadFailure { file_name: image_name(i), error: e },
                    stream: "Failed to upload "@ + image_name(i) + ": "@ + e.text() + "\n"@,
                },
            ],
            i + 1,
        )
    }

    /// The notice of an upload.
    pub open spec fn uploading(self, local: Seq<char>, remote: Seq<char>) -> NoticeView {
        same("Uploading '"@ + local + "' to '"@ + remote + "'"@)
    }

    /// The last action was done.
    pub open spec fn on_done(self) -> (JobView, StepView) {
        match self.stage {
            StageView::Start => self.go(
                StageView::Dirs,
                Seq::empty(),
                ActionView::CreateDirs(self.images_dir()),
            ),
            StageView::Dirs => self.go(StageView::Client, Seq::empty(), ActionView::OpenClient),
            StageView::Client => self.go(
                StageView::Page,
                seq![
                    notice(
                        "Fetching HTML from "@ + self.url + "..."@,
                        "Fetching HTML from "@ + self.url + "...\n"@,
                    ),
                ],
                ActionView::FetchPage(self.url),
            ),
            StageView::Metadata => self.go(
                StageView::PageCopy,
                seq![same("Metadata saved to "@ + self.metadata_path())],
                ActionView::FetchText(self.url),
            ),
            StageView::PageWrite => {
                let saved = same("HTML saved to "@ + self.page_path());
                if self.skip_images {
                    self.start_folder(
                        seq![
                            saved,
                            notice(
                                "--skip-images flag is set, skipping download."@,
                                "Image download skipped.\n"@,
                            ),
                        ],
                        0,
                    )
                } else if self.links().len() > 0 {
                    self.start_image(
                        seq![
                            saved,
                            same(
                                "Downloading "@ + decimal(self.links().len())
                                    + " images sequentially..."@,
                            ),
                        ],
                        0,
                    )
                } else {
                    self.start_folder(seq![saved], 0)
                }
            },
            StageView::ImageFetch(i) => self.go(
                StageView::ImagePause(i),
                seq![same(" -> Saved to "@ + self.image_path(i))],
                ActionView::Sleep(self.download_delay_secs),
            ),
            StageView::ImagePause(i) => self.start_image(Seq::empty(), i + 1),
            StageView::UploadLoad(i) => self.go(
                StageView::UploadPut(i),
                seq![self.uploading(self.image_path(i), self.remote_image(i))],
                ActionView::PutFile(self.account.dav_url(self.remote_image(i))),
            ),
            StageView::TemplateSave => self.go(
                StageView::TemplateRead,
                Seq::empty(),
                ActionView::ReadText(self.info_path()),
            ),
            StageView::TemplateWrite => self.go(
                StageView::InfoLoad,
                Seq::empty(),
                ActionView::LoadFile(self.info_path()),
            ),
            StageView::InfoLoad => self.go(
                StageView::InfoPut,
                seq![self.uploading(self.info_path(), self.remote_info())],
                ActionView::PutFile(self.account.dav_url(self.remote_info())),
            ),
            _ => arbitrary(),
        }
    }

    /// The last action could not be done. An image that cannot be uploaded is
    /// passed over, and a refusal whose body cannot be read is a refusal all
    /// the same; anything else ends the import.
    pub open spec fn on_failed(self, e: ErrorView) -> (JobView, StepView) {
        match self.stage {
            StageView::UploadLoad(i) => self.upload_failed(i, e),
            StageView::UploadPut(i) => self.upload_failed(i, e),
            StageView::UploadBody(_, _) => self.on_body(None),
            StageView::FolderBody(_) => self.on_body(None),
            StageView::TemplateBody(_) => self.on_body(None),
            StageView::InfoBody(_) => self.on_body(None),
            _ => self.fail(e),
        }
    }

    /// The body of a refusal was read, or could not be.
    pub open spec fn on_body(self, body: Option<Seq<char>>) -> (JobView, StepView) {
        match self.stage {
            StageView::UploadBody(i, status) => self.upload_failed(i, refusal(status, body)),
            StageView::FolderBody(status) => self.fail(refusal(status, body)),
            StageView::TemplateBody(status) => self.fail(refusal(status, body)),
            StageView::InfoBody(status) => self.fail(refusal(status, body)),
            _ => arbitrary(),
        }
    }

    /// The page was read.
    pub open spec fn on_page(self, reading: Result<MetadataView, ErrorView>) -> (
        JobView,
        StepView,
    ) {
        match reading {
            Ok(metadata) => JobView { metadata: Some(metadata), ..self }.go(
                StageView::Metadata,
                Seq::empty(),
                ActionView::WriteMetadata(self.metadata_path()),
            ),
            Err(e) => self.fail(e),
        }
    }

    /// The text that was asked for is here.
    pub open spec fn on_text(self, text: Seq<char>) -> (JobView, StepView) {
        match self.stage {
            StageView::PageCopy => self.go(
                StageView::PageWrite,
                Seq::empty(),
                ActionView::WriteText { path: self.page_path(), text },
            ),
            StageView::TemplateRead => self.go(
                StageView::TemplateWrite,
                Seq::empty(),
                ActionView::WriteText {
                    path: self.info_path(),
                    text: filled_in(text, self.metadata->0),
                },
            ),
            _ => self.on_body(Some(text)),
        }
    }

    /// The file of an image is there, or is not.
    pub open spec fn on_exists(self, there: bool) -> (JobView, StepView) {
        let i = self.stage->ImageCheck_0;
        if there {
            self.start_image(seq![same(" -> File already exists. Skipping."@)], i + 1)
        } else {
            self.go(
                StageView::ImageFetch(i),
                Seq::empty(),
                ActionView::FetchImage {
                    link: self.links()[i as int],
                    path: self.image_path(i),
                },
            )
        }
    }

    /// The server answered.
    pub open spec fn on_status(self, status: u16) -> (JobView, StepView) {
        match self.stage {
            StageView::Folder(k) => if folder_is_there(status) {
                self.start_folder(Seq::empty(), k + 1)
            } else {
                self.go(StageView::FolderBody(status), Seq::empty(), ActionView::ReadBody)
            },
            StageView::UploadPut(i) => if success(status) {
                self.start_upload(Seq::empty(), i + 1)
            } else {
                self.go(StageView::UploadBody(i, status), Seq::empty(), ActionView::ReadBody)
            },
            StageView::TemplateGet => if success(status) {
                self.go(
                    StageView::TemplateSave,
                    Seq::empty(),
                    ActionView::SaveBody(self.info_path()),
                )
            } else {
                self.go(StageView::TemplateBody(status), Seq::empty(), ActionView::ReadBody)
            },
            StageView::InfoPut => if success(status) {
                self.go(
                    StageView::Finished,
                    seq![
                        same(
                            "Property info template updated and uploaded to "@
                                + self.remote_info(),
                        ),
                    ],
                    ActionView::Finish(Ok(())),
                )
            } else {
                self.go(StageView::InfoBody(status), Seq::empty(), ActionView::ReadBody)
            },
            _ => arbitrary(),
        }
    }

    /// The import after an event, and the step that it takes.
    pub open spec fn next(self, event: EventView) -> (JobView, StepView) {
        match event {
            EventView::Done => self.on_done(),
            EventView::Failed(e) => self.on_failed(e),
            EventView::PageRead(reading) => self.on_page(reading),
            EventView::Text(text) => self.on_text(text),
            EventView::Exists(there) => self.on_exists(there),
            EventView::Status(status) => self.on_status(status),
        }
    }

    /// The event can have come of the action that was asked for last.
    pub open spec fn accepts(self, event: EventView) -> bool {
        &&& event.valid()
        &&& match self.stage {
            StageView::Start | StageView::ImagePause(_) => event is Done,
            StageView::Dirs
            | StageView::Client
            | StageView::Metadata
            | StageView::PageWrite
            | StageView::ImageFetch(_)
            | StageView::UploadLoad(_)
            | StageView::TemplateSave
            | StageView::TemplateWrite
            | StageView::InfoLoad => event is Done || event is Failed,
            StageView::Page => event is PageRead || event is Failed,
            StageView::PageCopy
            | StageView::TemplateRead
            | StageView::FolderBody(_)
            | StageView::UploadBody(_, _)
            | StageView::TemplateBody(_)
            | StageView::InfoBody(_) => event is Text || event is Failed,
            StageView::ImageCheck(_) => event is Exists,
            StageView::Folder(_) | StageView::UploadPut(_) | StageView::TemplateGet | StageView::InfoPut => {
                event is Status || event is Failed
            },
            StageView::Finished => false,
        }
    }

    /// The stage fits what the import holds: the property is known once its
    /// page was read, images and folders are counted within their number,
    /// images are fetched only where they are wanted, and a refusal is one.
    pub open spec fn wf(self) -> bool {
        &&& match self.stage {
            StageView::Start | StageView::Dirs | StageView::Client | StageView::Page | StageView::Finished => true,
            _ => self.metadata is Some,
        }
        &&& match self.stage {
            StageView::ImageCheck(i) | StageView::ImageFetch(i) | StageView::ImagePause(i) => {
                i < self.links().len() && !self.skip_images
            },
            StageView::Folder(k) => k < self.folders().len(),
            StageView::UploadLoad(i) | StageView::UploadPut(i) => i < self.links().len(),
            StageView::UploadBody(i, status) => {
                i < self.links().len() && is_status(status) && !success(status)
            },
            StageView::FolderBody(status) => is_status(status) && !folder_is_there(status),
            StageView::TemplateBody(status) | StageView::InfoBody(status) => {
                is_status(status) && !success(status)
            },
            _ => true,
        }
    }
}

/// `before`, `middle` and `after` in one string.
fn around(before: &str, middle: &str, after: &str) -> (r: String)
    ensures
        r@ == before@ + middle@ + after@,
{
    before.to_owned().concat(middle).concat(after)
}

/// A notice that shows one text on the console and sends another.
fn make_notice(console: String, stream: String) -> (r: Notice)
    ensures
        r@ == notice(console@, stream@),
{
    Notice { console: Console::Line(console), stream }
}

/// A notice that shows and sends the same text.
fn make_same(text: String) -> (r: Notice)
    ensures
        r@ == same(text@),
{
    make_notice(text.clone(), text)
}

/// No notices.
fn no_notices() -> (r: Vec<Notice>)
    ensures
        notice_views(r@) == Seq::<NoticeView>::empty(),
{
    let r: Vec<Notice> = Vec::new();
    assert(notice_views(r@) =~= Seq::empty());
    r
}

/// One more notice behind the others.
fn add_notice(notices: &mut Vec<Notice>, notice: Notice)
    ensures
        notice_views(final(notices)@) == notice_views(old(notices)@).push(notice@),
{
    let ghost before = notices@;
    notices.push(notice);
    assert(notice_views(notices@) =~= notice_views(before).push(notice@));
}

/// A list of one notice.
fn one_notice(notice: Notice) -> (r: Vec<Notice>)
    ensures
        notice_views(r@) == seq![notice@],
{
    let mut r = no_notices();
    add_notice(&mut r, notice);
    assert(notice_views(r@) =~= seq![notice@]);
    r
}

/// A number is a simple name.
pub proof fn lemma_number_is_simple(style: PathStyle, n: nat)
    ensures
        is_simple_name(style, decimal(n)),
{
    let name = decimal(n);
    law_decimal_is_digits(n);
    assert(is_digit(name[0]));
    assert forall|i: int| 0 <= i < name.len() implies !style.is_separator(#[trigger] name[i]) by {
        assert(is_digit(name[i]));
    }
}

/// The name of an image is a simple name.
pub proof fn lemma_image_name_is_simple(style: PathStyle, i: nat)
    ensures
        is_simple_name(style, image_name(i)),
        is_digit(image_name(i)[0]),
{
    let name = image_name(i);
    let digits = decimal(i + 1);
    reveal_strlit(".webp");
    law_decimal_is_digits(i + 1);
    assert(name[0] == digits[0] && is_digit(digits[0]));
    assert forall|k: int| 0 <= k < name.len() implies !style.is_separator(#[trigger] name[k]) by {
        if k < digits.len() {
            assert(is_digit(digits[k]));
        } else {
            assert(name[k] == ".webp"@[k - digits.len()]);
        }
    }
}

/// The names of the other files and of the folder of the images are simple.
pub proof fn lemma_names_are_simple(style: PathStyle)
    ensures
        is_simple_name(style, "images"@),
        is_simple_name(style, "metadata.json"@),
        is_simple_name(style, "page.html"@),
        is_simple_name(style, "info.md"@),
{
    reveal_strlit("images");
    reveal_strlit("metadata.json");
    reveal_strlit("page.html");
    reveal_strlit("info.md");
    assert("images"@.len() == 6 && "metadata.json"@.len() == 13);
    assert("page.html"@.len() == 9 && "info.md"@.len() == 7);
    assert("images"@[1] == 'm' && "metadata.json"@[1] == 'e');
    assert("page.html"@[1] == 'a' && "info.md"@[1] == 'n');
}

/// The name of the file of image `i`, counted from one.
fn image_file_name(i: usize) -> (r: String)
    requires
        i < usize::MAX,
    ensures
        r@ == image_name(i as nat),
{
    to_decimal((i + 1) as u64).concat(".webp")
}

impl ListingJob {
    /// The import of the listing at `url`, with a time stamp that tells its
    /// files from those of other imports, on a machine that writes paths in
    /// `style`.
    pub fn new(config: &Config, url: &str, timestamp: u64, style: PathStyle) -> (r: ListingJob)
        ensures
            r@ == new_job(config@, url@, timestamp, style),
            r@.wf(),
    {
        proof {
            lemma_number_is_simple(style, timestamp as nat);
        }
        ListingJob {
            url: url.to_owned(),
            style,
            base_dir: join(style, config.output_dir.as_str(), to_decimal(timestamp).as_str()),
            download_delay_secs: config.download_delay_secs,
            skip_images: config.skip_images,
            client: NextcloudClient::new(
                config.nc_url.as_str(),
                config.nc_user.as_str(),
                config.nc_pass.as_str(),
            ),
            metadata: None,
            stage: Stage::Start,
        }
    }

    /// The account on the server.
    pub fn client(&self) -> (r: &NextcloudClient)
        ensures
            r@ == self@.account,
    {
        &self.client
    }

    /// The property, once its page was read.
    pub fn metadata(&self) -> (r: Option<&PropertyMetadata>)
        ensures
            match r {
                Some(metadata) => self@.metadata == Some(metadata@),
                None => self@.metadata is None,
            },
    {
        self.metadata.as_ref()
    }

    fn link_count(&self) -> (r: usize)
        requires
            self@.metadata is Some,
        ensures
            r == self@.links().len(),
    {
        self.metadata.as_ref().unwrap().image_links.len()
    }

    fn link(&self, i: usize) -> (r: &str)
        requires
            self@.metadata is Some,
            i < self@.links().len(),
        ensures
            r@ == self@.links()[i as int],
    {
        self.metadata.as_ref().unwrap().image_links[i].as_str()
    }

    fn metadata_path(&self) -> (r: String)
        ensures
            r@ == self@.metadata_path(),
    {
        proof {
            lemma_names_are_simple(self.style);
        }
        join(self.style, self.base_dir.as_str(), "metadata.json")
    }

    fn page_path(&self) -> (r: String)
        ensures
            r@ == self@.page_path(),
    {
        proof {
            lemma_names_are_simple(self.style);
        }
        join(self.style, self.base_dir.as_str(), "page.html")
    }

    fn info_path(&self) -> (r: String)
        ensures
            r@ == self@.info_path(),
    {
        proof {
            lemma_names_are_simple(self.style);
        }
        join(self.style, self.base_dir.as_str(), "info.md")
    }

    fn images_dir(&self) -> (r: String)
        ensures
            r@ == self@.images_dir(),
    {
        proof {
            lemma_names_are_simple(self.style);
        }
        join(self.style, self.base_dir.as_str(), "images")
    }

    fn image_path(&self, i: usize) -> (r: String)
        requires
            i < usize::MAX,
        ensures
            r@ == self@.image_path(i as nat),
    {
        proof {
            lemma_image_name_is_simple(self.style, i as nat);
        }
        join(self.style, self.images_dir().as_str(), image_file_name(i).as_str())
    }

    fn remote_dir(&self) -> (r: String)
        requires
            self@.metadata is Some,
        ensures
            r@ == self@.remote_dir(),
    {
        around(REMOTE_BASE, "/", self.metadata.as_ref().unwrap().street.as_str())
    }

    fn remote_images_dir(&self) -> (r: String)
        requires
            self@.metadata is Some,
        ensures
            r@ == self@.remote_images_dir(),
    {
        self.remote_dir().concat("/images/compass")
    }

    fn folders(&self) -> (r: Vec<String>)
        requires
            self@.metadata is Some,
        ensures
            views(r@) == self@.folders(),
            r.len() == self@.folders().len(),
    {
        let dir = self.remote_images_dir();
        proof {
            reveal_strlit("Propertes");
            reveal_strlit("/");
            assert(dir@[0] == 'P' && dir@[1] == 'r');
        }
        let folders = folders_down_to(self.style, dir.as_str());
        assert(views(folders@).len() == folders@.len());
        folders
    }

    fn remote_image(&self, i: usize) -> (r: String)
        requires
            self@.metadata is Some,
            i < usize::MAX,
        ensures
            r@ == self@.remote_image(i as nat),
    {
        self.remote_images_dir().concat("/").concat(image_file_name(i).as_str())
    }

    fn remote_info(&self) -> (r: String)
        requires
            self@.metadata is Some,
        ensures
            r@ == self@.remote_info(),
    {
        self.remote_dir().concat("/info.md")
    }

    fn uploading(&self, local: &str, remote: &str) -> (r: Notice)
        ensures
            r@ == self@.uploading(local@, remote@),
    {
        make_same(around("Uploading '", local, "' to '").concat(remote).concat("'"))
    }

    fn go(&mut self, stage: Stage, notices: Vec<Notice>, action: Action) -> (r: Step)
        ensures
            (final(self)@, r@) == old(self)@.go(stage@, notice_views(notices@), action@),
    {
        self.stage = stage;
        Step { notices, action }
    }

    fn fail(&mut self, e: AppError) -> (r: Step)
        ensures
            (final(self)@, r@) == old(self)@.fail(e@),
    {
        self.go(Stage::Finished, no_notices(), Action::Finish(Err(e)))
    }

    fn start_image(&mut self, notices: Vec<Notice>, i: usize) -> (r: Step)
        requires
            old(self)@.metadata is Some,
            !old(self)@.skip_images,
        ensures
            (final(self)@, r@) == old(self)@.start_image(notice_views(notices@), i as nat),
            final(self)@.wf(),
    {
        let mut notices = notices;
        if i < self.link_count() {
            add_notice(
                &mut notices,
                make_notice(
                    around("Downloading ", self.link(i), "..."),
                    around("Downloading ", self.link(i), "...\n"),
                ),
            );
            let path = self.image_path(i);
            self.go(Stage::ImageCheck(i), notices, Action::CheckExists(path))
        } else {
            add_notice(
                &mut notices,
                make_notice(
                    "Image download complete.".to_owned(),
                    "Image download complete.\n".to_owned(),
                ),
            );
            self.start_folder(notices, 0)
        }
    }

    fn start_folder(&mut self, notices: Vec<Notice>, k: usize) -> (r: Step)
        requires
            old(self)@.metadata is Some,
        ensures
            (final(self)@, r@) == old(self)@.start_folder(notice_views(notices@), k as nat),
            final(self)@.wf(),
    {
        let folders = self.folders();
        if k < folders.len() {
            let folder = folders[k].as_str();
            assert(self@.folders()[k as int] == folder@);
            let mut notices = notices;
            add_notice(
                &mut notices,
                make_same(around("Ensuring folder exists at '", folder, "'")),
            );
            let url = self.client.build_dav_url(folder);
            self.go(Stage::Folder(k), notices, Action::MakeCollection(url))
        } else {
            self.start_upload(notices, 0)
        }
    }

    fn start_upload(&mut self, notices: Vec<Notice>, i: usize) -> (r: Step)
        requires
            old(self)@.metadata is Some,
        ensures
            (final(self)@, r@) == old(self)@.start_upload(notice_views(notices@), i as nat),
            final(self)@.wf(),
    {
        if i < self.link_count() {
            let path = self.image_path(i);
            self.go(Stage::UploadLoad(i), notices, Action::LoadFile(path))
        } else {
            let mut notices = notices;
            add_notice(
                &mut notices,
                make_notice(
                    "Image upload complete.".to_owned(),
                    "Image upload complete.\n".to_owned(),
                ),
            );
            add_notice(
                &mut notices,
                make_same(
                    around("Downloading '", TEMPLATE_PATH, "' to '").concat(
                        self.info_path().as_str(),
                    ).concat("'"),
                ),
            );
            let url = self.client.build_dav_url(TEMPLATE_PATH);
            self.go(Stage::TemplateGet, notices, Action::GetRemote(url))
        }
    }

    fn upload_failed(&mut self, i: usize, e: AppError) -> (r: Step)
        requires
            old(self)@.metadata is Some,
            i < old(self)@.links().len(),
            e@.valid(),
        ensures
            (final(self)@, r@) == old(self)@.upload_failed(i as nat, e@),
            final(self)@.wf(),
    {
        let count = self.link_count();
        assert(i < count);
        let stream = around(
            "Failed to upload ",
            image_file_name(i).as_str(),
            ": ",
        ).concat(e.message().as_str()).concat("\n");
        let console = Console::UploadFailure { file_name: image_file_name(i), error: e };
        self.start_upload(one_notice(Notice { console, stream }), i + 1)
    }

    fn on_body(&mut self, body: Option<String>) -> (r: Step)
        requires
            old(self)@.wf(),
            old(self)@.stage is UploadBody || old(self)@.stage is FolderBody
                || old(self)@.stage is TemplateBody || old(self)@.stage is InfoBody,
        ensures
            (final(self)@, r@) == old(self)@.on_body(opt_view(body)),
            final(self)@.wf(),
    {
        match self.stage {
            Stage::UploadBody(i, status) => {
                let e = refused(status, body);
                self.upload_failed(i, e)
            },
            Stage::FolderBody(status)
            | Stage::TemplateBody(status)
            | Stage::InfoBody(status) => {
                let e = refused(status, body);
                self.fail(e)
            },
            _ => unreached(),
        }
    }

    fn on_done(&mut self) -> (r: Step)
        requires
            old(self)@.wf(),
            old(self)@.accepts(EventView::Done),
        ensures
            (final(self)@, r@) == old(self)@.on_done(),
            final(self)@.wf(),
    {
        match self.stage {
            Stage::Start => {
                let dir = self.images_dir();
                self.go(Stage::Dirs, no_notices(), Action::CreateDirs(dir))
            },
            Stage::Dirs => self.go(Stage::Client, no_notices(), Action::OpenClient),
            Stage::Client => {
                let url = self.url.clone();
                let notice = make_notice(
                    around("Fetching HTML from ", url.as_str(), "..."),
                    around("Fetching HTML from ", url.as_str(), "...\n"),
                );
                self.go(Stage::Page, one_notice(notice), Action::FetchPage(url))
            },
            Stage::Metadata => {
                let path = self.metadata_path();
                let notice = make_same("Metadata saved to ".to_owned().concat(path.as_str()));
                let url = self.url.clone();
                self.go(Stage::PageCopy, one_notice(notice), Action::FetchText(url))
            },
            Stage::PageWrite => self.on_page_written(),
            Stage::ImageFetch(i) => {
                let count = self.link_count();
                assert(i < count);
                let notice = make_same(" -> Saved to ".to_owned().concat(self.image_path(i).as_str()));
                let delay = self.download_delay_secs;
                self.go(Stage::ImagePause(i), one_notice(notice), Action::Sleep(delay))
            },
            Stage::ImagePause(i) => {
                let count = self.link_count();
                assert(i < count);
                self.start_image(no_notices(), i + 1)
            },
            Stage::UploadLoad(i) => {
                let count = self.link_count();
                assert(i < count);
                let remote = self.remote_image(i);
                let notice = self.uploading(self.image_path(i).as_str(), remote.as_str());
                let url = self.client.build_dav_url(remote.as_str());
                self.go(Stage::UploadPut(i), one_notice(notice), Action::PutFile(url))
            },
            Stage::TemplateSave => {
                let path = self.info_path();
                self.go(Stage::TemplateRead, no_notices(), Action::ReadText(path))
            },
            Stage::TemplateWrite => {
                let path = self.info_path();
                self.go(Stage::InfoLoad, no_notices(), Action::LoadFile(path))
            },
            Stage::InfoLoad => {
                let remote = self.remote_info();
                let notice = self.uploading(self.info_path().as_str(), remote.as_str());
                let url = self.client.build_dav_url(remote.as_str());
                self.go(Stage::InfoPut, one_notice(notice), Action::PutFile(url))
            },
            _ => unreached(),
        }
    }

    fn on_page_written(&mut self) -> (r: Step)
        requires
            old(self)@.wf(),
            old(self)@.stage is PageWrite,
        ensures
            (final(self)@, r@) == old(self)@.on_done(),
            final(self)@.wf(),
    {
        let path = self.page_path();
        let mut notices = one_notice(make_same("HTML saved to ".to_owned().concat(path.as_str())));
        let ghost saved = same("HTML saved to "@ + self@.page_path());
        let count = self.link_count();
        if self.skip_images {
            add_notice(
                &mut notices,
                make_notice(
                    "--skip-images flag is set, skipping download.".to_owned(),
                    "Image download skipped.\n".to_owned(),
                ),
            );
            assert(notice_views(notices@) =~= seq![
                saved,
                notice(
                    "--skip-images flag is set, skipping download."@,
                    "Image download skipped.\n"@,
                ),
            ]);
            self.start_folder(notices, 0)
        } else if count > 0 {
            let text = around(
                "Downloading ",
                to_decimal(count as u64).as_str(),
                " images sequentially...",
            );
            let ghost announced = same(text@);
            add_notice(&mut notices, make_same(text));
            assert(notice_views(notices@) =~= seq![saved, announced]);
            self.start_image(notices, 0)
        } else {
            self.start_folder(notices, 0)
        }
    }

    fn on_failed(&mut self, e: AppError) -> (r: Step)
        requires
            old(self)@.wf(),
            old(self)@.accepts(EventView::Failed(e@)),
        ensures
            (final(self)@, r@) == old(self)@.on_failed(e@),
            final(self)@.wf(),
    {
        match self.stage {
            Stage::UploadLoad(i) | Stage::UploadPut(i) => self.upload_failed(i, e),
            Stage::UploadBody(_, _)
            | Stage::FolderBody(_)
            | Stage::TemplateBody(_)
            | Stage::InfoBody(_) => self.on_body(None),
            _ => self.fail(e),
        }
    }

    fn on_page(&mut self, reading: Result<PropertyMetadata, AppError>) -> (r: Step)
        requires
            old(self)@.stage is Page,
        ensures
            (final(self)@, r@) == old(self)@.on_page(reading_view(reading)),
            final(self)@.wf(),
    {
        match reading {
            Ok(metadata) => {
                self.metadata = Some(metadata);
                let path = self.metadata_path();
                self.go(Stage::Metadata, no_notices(), Action::WriteMetadata(path))
            },
            Err(e) => self.fail(e),
        }
    }

    fn on_text(&mut self, text: String) -> (r: Step)
        requires
            old(self)@.wf(),
            old(self)@.accepts(EventView::Text(text@)),
        ensures
            (final(self)@, r@) == old(self)@.on_text(text@),
            final(self)@.wf(),
    {
        match self.stage {
            Stage::PageCopy => {
                let path = self.page_path();
                self.go(Stage::PageWrite, no_notices(), Action::WriteText { path, text })
            },
            Stage::TemplateRead => {
                let path = self.info_path();
                let text = fill_in(text.as_str(), self.metadata.as_ref().unwrap());
                self.go(Stage::TemplateWrite, no_notices(), Action::WriteText { path, text })
            },
            _ => self.on_body(Some(text)),
        }
    }

    fn on_exists(&mut self, there: bool) -> (r: Step)
        requires
            old(self)@.wf(),
            old(self)@.stage is ImageCheck,
        ensures
            (final(self)@, r@) == old(self)@.on_exists(there),
            final(self)@.wf(),
    {
        match self.stage {
            Stage::ImageCheck(i) => {
                let count = self.link_count();
                assert(i < count);
                if there {
                    let notice = make_same(" -> File already exists. Skipping.".to_owned());
                    self.start_image(one_notice(notice), i + 1)
                } else {
                    let link = self.link(i).to_owned();
                    let path = self.image_path(i);
                    self.go(
                        Stage::ImageFetch(i),
                        no_notices(),
                        Action::FetchImage { link, path },
                    )
                }
            },
            _ => unreached(),
        }
    }

    fn on_status(&mut self, status: u16) -> (r: Step)
        requires
            old(self)@.wf(),
            old(self)@.accepts(EventView::Status(status)),
        ensures
            (final(self)@, r@) == old(self)@.on_status(status),
            final(self)@.wf(),
    {
        match self.stage {
            Stage::Folder(k) => {
                if folder_ready(status) {
                    let count: usize = self.folders().len();
                    assert(k < count);
                    self.start_folder(no_notices(), k + 1)
                } else {
                    self.go(Stage::FolderBody(status), no_notices(), Action::ReadBody)
                }
            },
            Stage::UploadPut(i) => {
                if is_success(status) {
                    let count = self.link_count();
                    assert(i < count);
                    self.start_upload(no_notices(), i + 1)
                } else {
                    self.go(Stage::UploadBody(i, status), no_notices(), Action::ReadBody)
                }
            },
            Stage::TemplateGet => {
                if is_success(status) {
                    let path = self.info_path();
                    self.go(Stage::TemplateSave, no_notices(), Action::SaveBody(path))
                } else {
                    self.go(Stage::TemplateBody(status), no_notices(), Action::ReadBody)
                }
            },
            Stage::InfoPut => {
                if is_success(status) {
                    let notice = make_same(
                        "Property info template updated and uploaded to ".to_owned().concat(
                            self.remote_info().as_str(),
                        ),
                    );
                    self.go(Stage::Finished, one_notice(notice), Action::Finish(Ok(())))
                } else {
                    self.go(Stage::InfoBody(status), no_notices(), Action::ReadBody)
                }
            },
            _ => unreached(),
        }
    }

    /// Whether the event can have come of the action that was asked for last.
    pub fn is_acceptable(&self, event: &Event) -> (r: bool)
        ensures
            r == self@.accepts(event@),
    {
        let valid = match event {
            Event::Failed(e) => e.is_valid(),
            Event::PageRead(Err(e)) => e.is_valid(),
            Event::Status(status) => 100 <= *status && *status <= 999,
            _ => true,
        };
        valid && match self.stage {
            Stage::Start | Stage::ImagePause(_) => matches!(event, Event::Done),
            Stage::Dirs
            | Stage::Client
            | Stage::Metadata
            | Stage::PageWrite
            | Stage::ImageFetch(_)
            | Stage::UploadLoad(_)
            | Stage::TemplateSave
            | Stage::TemplateWrite
            | Stage::InfoLoad => matches!(event, Event::Done | Event::Failed(_)),
            Stage::Page => matches!(event, Event::PageRead(_) | Event::Failed(_)),
            Stage::PageCopy
            | Stage::TemplateRead
            | Stage::FolderBody(_)
            | Stage::UploadBody(_, _)
            | Stage::TemplateBody(_)
            | Stage::InfoBody(_) => matches!(event, Event::Text(_) | Event::Failed(_)),
            Stage::ImageCheck(_) => matches!(event, Event::Exists(_)),
            Stage::Folder(_) | Stage::UploadPut(_) | Stage::TemplateGet | Stage::InfoPut => {
                matches!(event, Event::Status(_) | Event::Failed(_))
            },
            Stage::Finished => false,
        }
    }

    /// Takes what came of the last action, and answers with the next one.
    pub fn step(&mut self, event: Event) -> (r: Step)
        requires
            old(self)@.wf(),
            old(self)@.accepts(event@),
        ensures
            (final(self)@, r@) == old(self)@.next(event@),
            final(self)@.wf(),
            r@.action matches ActionView::Finish(Err(e)) ==> e.valid(),
    {
        match event {
            Event::Done => self.on_done(),
            Event::Failed(e) => self.on_failed(e),
            Event::PageRead(reading) => self.on_page(reading),
            Event::Text(text) => self.on_text(text),
            Event::Exists(there) => self.on_exists(there),
            Event::Status(status) => self.on_status(status),
        }
    }

    /// Takes the page that was fetched; what is kept of it stands on it.
    pub fn receive_page(&mut self, html: &str) -> (r: Step)
        requires
            old(self)@.wf(),
            old(self)@.stage is Page,
        ensures
            page_of(html@) matches Some(page) && page.in_form() && page.readable() && (
                final(self)@,
                r@,
            ) == old(self)@.next(EventView::PageRead(page.metadata(old(self)@.url))),
            final(self)@.wf(),
            r@.action is WriteMetadata ==> final(self)@.metadata->0.in_form() && stands_on(
                final(self)@.metadata->0,
                html@,
            ),
            r@.action matches ActionView::Finish(Err(e)) ==> e.valid(),
    {
        let reading = PropertyMetadata::from_html(self.url.as_str(), html);
        self.on_page(reading)
    }
}

/// The server's refusal.
fn refused(status: u16, body: Option<String>) -> (r: AppError)
    requires
        !success(status),
    ensures
        r@ == refusal(status, opt_view(body)),
{
    match NextcloudClient::check_response(status, body) {
        Ok(()) => unreached(),
        Err(e) => e,
    }
}

} // verus!
