//! What an import does at each step, in full: where things go, what is said, and
//! which answers are taken.
use vstd::prelude::*;

use crate::config::ConfigView;
use crate::decimal::{decimal, law_decimal_is_injective};
use crate::error::ErrorView;
use crate::guarantees::{
    is_folder_name, law_new_job, law_remote_folders, law_steps_keep_wf, lemma_image_path,
    lemma_joined_is_inside,
};
use crate::job::{lemma_names_are_simple, new_job, JobView, StageView};
use crate::paths::{components, joined, law_folders_begin, named, parts_of, PathStyle};
use crate::steps::{ActionView, ConsoleView, EventView, NoticeView};
use crate::template::filled_in;

verus! {

/// A path in the folder of the import.
pub open spec fn here(job: JobView, rest: Seq<char>) -> Seq<char> {
    job.base_dir + seq![job.style.main_separator()] + rest
}

/// The file of the image with the number `n` in the folder of the import.
pub open spec fn image_here(job: JobView, n: nat) -> Seq<char> {
    here(job, "images"@ + seq![job.style.main_separator()] + decimal(n) + ".webp"@)
}

/// An address among the files of the account.
pub open spec fn there(job: JobView, rest: Seq<char>) -> Seq<char> {
    job.account.base_url + "/remote.php/dav/files/"@ + job.account.username + "/"@ + rest
}

/// The path of the image with the number `n` on the server.
pub open spec fn image_there(street: Seq<char>, n: nat) -> Seq<char> {
    "Propertes/"@ + street + "/images/compass/"@ + decimal(n) + ".webp"@
}

/// The path of the note on the server.
pub open spec fn note_there(street: Seq<char>) -> Seq<char> {
    "Propertes/"@ + street + "/info.md"@
}

/// The files of an import stand in its folder under their names, and those on
/// the server under the property's street.
pub proof fn law_places(job: JobView, i: nat)
    requires
        is_folder_name(job.style, job.base_dir),
    ensures
        job.images_dir() == here(job, "images"@),
        job.metadata_path() == here(job, "metadata.json"@),
        job.page_path() == here(job, "page.html"@),
        job.info_path() == here(job, "info.md"@),
        job.image_path(i) == image_here(job, i + 1),
        job.remote_image(i) == image_there(job.metadata->0.street, i + 1),
        job.remote_info() == note_there(job.metadata->0.street),
        job.account.dav_url(job.remote_image(i)) == there(job, job.remote_image(i)),
        job.account.dav_url(job.remote_info()) == there(job, job.remote_info()),
        job.account.dav_url("Templates/new-property.md"@) == there(
            job,
            "Templates/new-property.md"@,
        ),
{
    let style = job.style;
    let street = job.metadata->0.street;
    reveal_strlit("Propertes");
    reveal_strlit("Propertes/");
    reveal_strlit("/");
    reveal_strlit("/images/compass");
    reveal_strlit("/images/compass/");
    reveal_strlit("Templates/new-property.md");
    lemma_names_are_simple(style);
    lemma_joined_is_inside(style, job.base_dir, "images"@);
    lemma_joined_is_inside(style, job.base_dir, "metadata.json"@);
    lemma_joined_is_inside(style, job.base_dir, "page.html"@);
    lemma_joined_is_inside(style, job.base_dir, "info.md"@);
    lemma_image_path(job, i);
    assert(job.images_dir() =~= here(job, "images"@));
    assert(job.metadata_path() =~= here(job, "metadata.json"@));
    assert(job.page_path() =~= here(job, "page.html"@));
    assert(job.info_path() =~= here(job, "info.md"@));
    assert(job.image_path(i) =~= image_here(job, i + 1));
    assert("Propertes"@ + "/"@ =~= "Propertes/"@);
    assert("/images/compass"@ + "/"@ =~= "/images/compass/"@);
    assert(job.remote_image(i) =~= image_there(street, i + 1));
    assert(job.remote_info() =~= note_there(street));
    assert(job.remote_image(i)[0] == 'P');
    assert(job.remote_info()[0] == 'P');
    assert("Templates/new-property.md"@[0] == 'T');
}

/// What an import asks for fits the stage that it comes to. Every file is looked
/// for, fetched and loaded at its own place, and every image and the note are
/// sent to their own addresses.
pub proof fn law_actions(job: JobView, event: EventView)
    requires
        job.wf(),
        job.accepts(event),
        is_folder_name(job.style, job.base_dir),
    ensures
        ({
            let (now, step) = job.next(event);
            let action = step.action;
            let street = now.metadata->0.street;
            match now.stage {
                StageView::Start => false,
                StageView::Dirs => action == ActionView::CreateDirs(here(job, "images"@)),
                StageView::Client => action == ActionView::OpenClient,
                StageView::Page => action == ActionView::FetchPage(job.url),
                StageView::Metadata => action == ActionView::WriteMetadata(
                    here(job, "metadata.json"@),
                ),
                StageView::PageCopy => action == ActionView::FetchText(job.url),
                StageView::PageWrite => event matches EventView::Text(text) && action == (
                ActionView::WriteText { path: here(job, "page.html"@), text }),
                StageView::ImageCheck(i) => action == ActionView::CheckExists(
                    image_here(job, i + 1),
                ),
                StageView::ImageFetch(i) => action == (ActionView::FetchImage {
                    link: now.metadata->0.image_links[i as int],
                    path: image_here(job, i + 1),
                }),
                StageView::ImagePause(_) => action == ActionView::Sleep(job.download_delay_secs),
                StageView::Folder(k) => action == ActionView::MakeCollection(
                    job.account.dav_url(now.folders()[k as int]),
                ),
                StageView::FolderBody(_)
                | StageView::UploadBody(_, _)
                | StageView::TemplateBody(_)
                | StageView::InfoBody(_) => action == ActionView::ReadBody,
                StageView::UploadLoad(i) => action == ActionView::LoadFile(image_here(job, i + 1)),
                StageView::UploadPut(i) => action == ActionView::PutFile(
                    there(job, image_there(street, i + 1)),
                ),
                StageView::TemplateGet => action == ActionView::GetRemote(
                    there(job, "Templates/new-property.md"@),
                ),
                StageView::TemplateSave => action == ActionView::SaveBody(here(job, "info.md"@)),
                StageView::TemplateRead => action == ActionView::ReadText(here(job, "info.md"@)),
                StageView::TemplateWrite => event matches EventView::Text(text) && action == (
                ActionView::WriteText {
                    path: here(job, "info.md"@),
                    text: filled_in(text, now.metadata->0),
                }),
                StageView::InfoLoad => action == ActionView::LoadFile(here(job, "info.md"@)),
                StageView::InfoPut => action == ActionView::PutFile(there(job, note_there(street))),
                StageView::Finished => action is Finish,
            }
        }),
{
    let (now, step) = job.next(event);
    law_places(job, 0);
    match now.stage {
        StageView::ImageCheck(i)
        | StageView::ImageFetch(i)
        | StageView::UploadLoad(i)
        | StageView::UploadPut(i) => {
            law_places(job, i);
        },
        _ => {},
    }
}

/// The stage behind image `i` of the download.
pub open spec fn behind_image(job: JobView, i: nat) -> StageView {
    if i + 1 < job.metadata->0.image_links.len() {
        StageView::ImageCheck(i + 1)
    } else {
        StageView::Folder(0)
    }
}

/// The stage at image `i` of the upload, or behind the last one.
pub open spec fn upload_from(job: JobView, i: nat) -> StageView {
    if i < job.metadata->0.image_links.len() {
        StageView::UploadLoad(i)
    } else {
        StageView::TemplateGet
    }
}

/// The folders of an import are those that lead to its images: that of all
/// properties first, one for each name in the street, and two more.
pub proof fn law_folders_of_an_import(job: JobView)
    ensures
        job.folders().len() == 3 + named(parts_of(job.style, job.metadata->0.street)).len(),
        job.folders()[0] == "Propertes"@,
        forall|k: int|
            0 < k < job.folders().len() ==> #[trigger] job.folders()[k] == joined(
                job.style,
                job.folders()[k - 1],
                components(job.style, job.remote_images_dir())[k],
            ),
{
    law_remote_folders(job);
    law_folders_begin(job.style, job.remote_images_dir());
}

/// The download: from the first image to the last, and to the folders then.
/// Images are neither left out nor taken twice.
pub proof fn law_order_of_the_download(job: JobView, event: EventView)
    requires
        job.wf(),
        job.accepts(event),
    ensures
        ({
            let now = job.next(event).0.stage;
            match (job.stage, event) {
                (StageView::PageWrite, EventView::Done) => now == (if job.skip_images
                    || job.metadata->0.image_links.len() == 0 {
                    StageView::Folder(0)
                } else {
                    StageView::ImageCheck(0)
                }),
                (StageView::ImageCheck(i), EventView::Exists(true)) => now == behind_image(job, i),
                (StageView::ImageCheck(i), EventView::Exists(false)) => now
                    == StageView::ImageFetch(i),
                (StageView::ImageFetch(i), EventView::Done) => now == StageView::ImagePause(i),
                (StageView::ImagePause(i), EventView::Done) => now == behind_image(job, i),
                _ => true,
            }
        }),
{
    law_folders_of_an_import(job);
}

/// The folders and the upload: from the first to the last, whatever becomes of
/// an image, and to the template then.
pub proof fn law_order_of_the_upload(job: JobView, event: EventView)
    requires
        job.wf(),
        job.accepts(event),
    ensures
        ({
            let now = job.next(event).0.stage;
            match (job.stage, event) {
                (StageView::Folder(k), EventView::Status(status)) => now == (if 200 <= status <= 299
                    || status == 405 {
                    if k + 1 < job.folders().len() {
                        StageView::Folder(k + 1)
                    } else {
                        upload_from(job, 0)
                    }
                } else {
                    StageView::FolderBody(status)
                }),
                (StageView::UploadLoad(i), EventView::Done) => now == StageView::UploadPut(i),
                (StageView::UploadLoad(i), EventView::Failed(_)) => now == upload_from(job, i + 1),
                (StageView::UploadPut(i), EventView::Failed(_)) => now == upload_from(job, i + 1),
                (StageView::UploadPut(i), EventView::Status(status)) => now == (if 200 <= status
                    <= 299 {
                    upload_from(job, i + 1)
                } else {
                    StageView::UploadBody(i, status)
                }),
                (StageView::UploadBody(i, _), _) => now == upload_from(job, i + 1),
                _ => true,
            }
        }),
{
}

/// The other stages: the page first, then its copies, and the note at last.
pub proof fn law_order_of_the_rest(job: JobView, event: EventView)
    requires
        job.wf(),
        job.accepts(event),
    ensures
        ({
            let now = job.next(event).0.stage;
            match (job.stage, event) {
                (StageView::Start, EventView::Done) => now == StageView::Dirs,
                (StageView::Dirs, EventView::Done) => now == StageView::Client,
                (StageView::Client, EventView::Done) => now == StageView::Page,
                (StageView::Page, EventView::PageRead(Ok(_))) => now == StageView::Metadata,
                (StageView::Metadata, EventView::Done) => now == StageView::PageCopy,
                (StageView::PageCopy, EventView::Text(_)) => now == StageView::PageWrite,
                (StageView::TemplateGet, EventView::Status(status)) => now == (if 200 <= status
                    <= 299 {
                    StageView::TemplateSave
                } else {
                    StageView::TemplateBody(status)
                }),
                (StageView::TemplateSave, EventView::Done) => now == StageView::TemplateRead,
                (StageView::TemplateRead, EventView::Text(_)) => now == StageView::TemplateWrite,
                (StageView::TemplateWrite, EventView::Done) => now == StageView::InfoLoad,
                (StageView::InfoLoad, EventView::Done) => now == StageView::InfoPut,
                (StageView::InfoPut, EventView::Status(status)) => now == (if 200 <= status <= 299 {
                    StageView::Finished
                } else {
                    StageView::InfoBody(status)
                }),
                _ => true,
            }
        }),
{
}

/// What was read from the page is what the import goes by.
pub proof fn law_what_was_read_is_kept(job: JobView, event: EventView)
    requires
        job.wf(),
        job.accepts(event),
        event is PageRead,
    ensures
        event matches EventView::PageRead(Ok(metadata)) ==> job.next(event).0.metadata == Some(
            metadata,
        ),
        event matches EventView::PageRead(Err(e)) ==> job.next(event).1.action
            == ActionView::Finish(Err(e)) && job.next(event).1.notices.len() == 0,
{
}

/// An import ends well exactly when the server takes the note, and badly exactly
/// with the failure or the refusal that it was told of.
pub proof fn law_outcomes(job: JobView, event: EventView)
    requires
        job.wf(),
        job.accepts(event),
    ensures
        ({
            let action = job.next(event).1.action;
            &&& action == ActionView::Finish(Ok(())) <==> job.stage is InfoPut && (
            event matches EventView::Status(status) && 200 <= status <= 299)
            &&& action matches ActionView::Finish(Err(e)) ==> match (job.stage, event) {
                (StageView::FolderBody(status), EventView::Text(body))
                | (StageView::TemplateBody(status), EventView::Text(body))
                | (StageView::InfoBody(status), EventView::Text(body)) => e == (
                ErrorView::Nextcloud { status, body }),
                (StageView::FolderBody(status), _)
                | (StageView::TemplateBody(status), _)
                | (StageView::InfoBody(status), _) => e == (ErrorView::Nextcloud {
                    status,
                    body: Seq::empty(),
                }),
                (_, EventView::Failed(failure)) => e == failure,
                (_, EventView::PageRead(Err(failure))) => e == failure,
                _ => false,
            }
        }),
{
}

/// Two different images of an import are sent to different addresses, and each
/// from its own file.
pub proof fn law_each_image_is_sent_to_its_own_address(job: JobView, i: nat, j: nat)
    requires
        job.metadata is Some,
        i < job.metadata->0.image_links.len(),
        j < job.metadata->0.image_links.len(),
        i != j,
    ensures
        ({
            let one = JobView { stage: StageView::UploadLoad(i), ..job };
            let other = JobView { stage: StageView::UploadLoad(j), ..job };
            one.next(EventView::Done).1.action != other.next(EventView::Done).1.action
        }),
{
    let one = JobView { stage: StageView::UploadLoad(i), ..job };
    let other = JobView { stage: StageView::UploadLoad(j), ..job };
    let a = one.account.dav_url(one.remote_image(i));
    let b = other.account.dav_url(other.remote_image(j));
    reveal_strlit("Propertes");
    assert(one.remote_image(i)[0] == 'P' && other.remote_image(j)[0] == 'P');
    assert(one.remote_images_dir() == other.remote_images_dir());
    let front = job.account.files_url() + (one.remote_images_dir() + "/"@);
    let (x, y) = (decimal(i + 1), decimal(j + 1));
    if a == b {
        assert(a =~= front + x + ".webp"@);
        assert(b =~= front + y + ".webp"@);
        assert(x.len() == y.len());
        assert(x =~= a.subrange(front.len() as int, (front.len() + x.len()) as int));
        assert(y =~= b.subrange(front.len() as int, (front.len() + y.len()) as int));
        law_decimal_is_injective(i + 1, j + 1);
    }
}

/// An image is put where it belongs only after its own file was loaded: the
/// step before asked for that file.
pub proof fn law_each_image_is_sent_from_its_own_file(
    job: JobView,
    event: EventView,
    i: nat,
)
    requires
        job.wf(),
        job.accepts(event),
        is_folder_name(job.style, job.base_dir),
        job.next(event).0.stage == StageView::UploadLoad(i),
    ensures
        job.next(event).1.action == ActionView::LoadFile(image_here(job, i + 1)),
        job.next(event).0.next(EventView::Done).1.action == ActionView::PutFile(
            there(job, image_there(job.metadata->0.street, i + 1)),
        ),
{
    law_actions(job, event);
    law_steps_keep_wf(job, event);
    law_actions(job.next(event).0, EventView::Done);
}

/// The file that is looked for is the one that would be written: where it is not
/// there, the image is fetched to that very file.
pub proof fn law_the_file_looked_for_is_the_file_written(
    job: JobView,
    event: EventView,
    i: nat,
)
    requires
        job.wf(),
        job.accepts(event),
        job.next(event).0.stage == StageView::ImageCheck(i),
    ensures
        job.next(event).1.action matches ActionView::CheckExists(looked_for) && (job.next(
            event,
        ).0.next(EventView::Exists(false)).1.action matches ActionView::FetchImage { link, path }
            && path == looked_for && link == job.metadata->0.image_links[i as int]),
{
}

/// An import is set up with the settings: its folder is that of the time stamp in
/// the output folder, and the account is the one given.
pub proof fn law_import_is_set_up(
    config: ConfigView,
    url: Seq<char>,
    timestamp: u64,
    style: PathStyle,
)
    ensures
        ({
            let job = new_job(config, url, timestamp, style);
            &&& job.url == url
            &&& job.style == style
            &&& job.base_dir == joined(style, config.output_dir, decimal(timestamp as nat))
            &&& job.download_delay_secs == config.download_delay_secs
            &&& job.skip_images == config.skip_images
            &&& job.account.username == config.nc_user
            &&& job.account.password == config.nc_pass
            &&& (config.nc_url.len() > 0 ==> config.nc_url.last() != '/') ==> job.account.base_url
                == config.nc_url
            &&& job.metadata is None
            &&& is_folder_name(style, job.base_dir)
        }),
{
    law_new_job(config, url, timestamp, style);
}

/// The answers that are taken are those that the action can have: a look finds a
/// file or not, a wait is over, a server answers with a status, and anything else
/// is done, or gives its text, or fails.
pub proof fn law_answers(job: JobView, event: EventView, answer: EventView)
    requires
        job.wf(),
        job.accepts(event),
    ensures
        ({
            let (now, step) = job.next(event);
            let valid = match answer {
                EventView::Status(status) => 100 <= status <= 999,
                EventView::Failed(ErrorView::Nextcloud { status, .. }) => 100 <= status <= 999,
                EventView::PageRead(Err(ErrorView::Nextcloud { status, .. })) => 100 <= status
                    <= 999,
                _ => true,
            };
            now.accepts(answer) <==> valid && match step.action {
                ActionView::Finish(_) => false,
                ActionView::CheckExists(_) => answer is Exists,
                ActionView::Sleep(_) => answer is Done,
                ActionView::FetchPage(_) => answer is PageRead || answer is Failed,
                ActionView::FetchText(_) | ActionView::ReadText(_) | ActionView::ReadBody => {
                    answer is Text || answer is Failed
                },
                ActionView::MakeCollection(_)
                | ActionView::PutFile(_)
                | ActionView::GetRemote(_) => answer is Status || answer is Failed,
                _ => answer is Done || answer is Failed,
            }
        }),
{
}

/// A line on the console, and what the visitor is sent with it.
pub open spec fn said(line: Seq<char>, sent: Seq<char>) -> NoticeView {
    NoticeView { console: ConsoleView::Line(line), stream: sent }
}

/// The same on the console and to the visitor.
pub open spec fn told(text: Seq<char>) -> NoticeView {
    said(text, text)
}

/// What is said on coming to a stage: which image is looked for, which folder is
/// made, or that the uploads are over and the template is fetched.
pub open spec fn said_on_coming_to(job: JobView, stage: StageView) -> Seq<NoticeView> {
    match stage {
        StageView::ImageCheck(i) => {
            let link = job.metadata->0.image_links[i as int];
            seq![said("Downloading "@ + link + "..."@, "Downloading "@ + link + "...\n"@)]
        },
        StageView::Folder(k) => seq![
            told("Ensuring folder exists at '"@ + job.folders()[k as int] + "'"@),
        ],
        StageView::TemplateGet => seq![
            said("Image upload complete."@, "Image upload complete.\n"@),
            told(
                "Downloading 'Templates/new-property.md' to '"@ + here(job, "info.md"@) + "'"@,
            ),
        ],
        _ => Seq::empty(),
    }
}

/// The name of the template in the notice.
proof fn lemma_template_notice(path: Seq<char>)
    ensures
        "Downloading '"@ + "Templates/new-property.md"@ + "' to '"@ + path + "'"@
            == "Downloading 'Templates/new-property.md' to '"@ + path + "'"@,
{
    reveal_strlit("Downloading '");
    reveal_strlit("Templates/new-property.md");
    reveal_strlit("' to '");
    reveal_strlit("Downloading 'Templates/new-property.md' to '");
    assert("Downloading '"@ + "Templates/new-property.md"@ + "' to '"@
        =~= "Downloading 'Templates/new-property.md' to '"@);
}

/// What is said while the page is fetched and written, and before the images.
pub proof fn law_notices_of_the_page(job: JobView, event: EventView)
    requires
        job.wf(),
        job.accepts(event),
        is_folder_name(job.style, job.base_dir),
        event is Done,
    ensures
        ({
            let (now, step) = job.next(event);
            let saved = told("HTML saved to "@ + here(job, "page.html"@));
            let coming = said_on_coming_to(job, now.stage);
            &&& job.stage is Client ==> step.notices == seq![
                said(
                    "Fetching HTML from "@ + job.url + "..."@,
                    "Fetching HTML from "@ + job.url + "...\n"@,
                ),
            ]
            &&& job.stage is Metadata ==> step.notices == seq![
                told("Metadata saved to "@ + here(job, "metadata.json"@)),
            ]
            &&& job.stage is PageWrite ==> step.notices == (if job.skip_images {
                seq![
                    saved,
                    said(
                        "--skip-images flag is set, skipping download."@,
                        "Image download skipped.\n"@,
                    ),
                ]
            } else if job.metadata->0.image_links.len() > 0 {
                seq![
                    saved,
                    told(
                        "Downloading "@ + decimal(job.metadata->0.image_links.len())
                            + " images sequentially..."@,
                    ),
                ]
            } else {
                seq![saved]
            }) + coming
        }),
{
    law_places(job, 0);
    law_folders_of_an_import(job);
    if job.stage is PageWrite {
        let (now, step) = job.next(event);
        let saved = told("HTML saved to "@ + here(job, "page.html"@));
        assert(job.folders().len() > 0);
        if job.skip_images {
            assert(now.stage == StageView::Folder(0));
        } else if job.metadata->0.image_links.len() > 0 {
            assert(now.stage == StageView::ImageCheck(0));
        } else {
            assert(now.stage == StageView::Folder(0));
        }
    }
}

/// What is said while the images are downloaded.
pub proof fn law_notices_of_the_download(job: JobView, event: EventView)
    requires
        job.wf(),
        job.accepts(event),
        is_folder_name(job.style, job.base_dir),
    ensures
        ({
            let (now, step) = job.next(event);
            let coming = said_on_coming_to(job, now.stage);
            let complete = if now.stage is Folder {
                seq![said("Image download complete."@, "Image download complete.\n"@)]
            } else {
                Seq::empty()
            };
            match (job.stage, event) {
                (StageView::ImageCheck(_), EventView::Exists(true)) => step.notices == seq![
                    told(" -> File already exists. Skipping."@),
                ] + complete + coming,
                (StageView::ImageCheck(_), EventView::Exists(false)) => step.notices.len() == 0,
                (StageView::ImageFetch(i), EventView::Done) => step.notices == seq![
                    told(" -> Saved to "@ + image_here(job, i + 1)),
                ],
                (StageView::ImagePause(_), EventView::Done) => step.notices == complete + coming,
                _ => true,
            }
        }),
{
    law_folders_of_an_import(job);
    if let StageView::ImageFetch(i) = job.stage {
        law_places(job, i);
    }
    if let StageView::ImageCheck(i) = job.stage {
        law_order_of_the_download(job, event);
    }
    if let StageView::ImagePause(i) = job.stage {
        law_order_of_the_download(job, event);
    }
}

/// What is said of an image that was not uploaded.
pub open spec fn said_of_a_lost_image(n: nat, e: ErrorView) -> NoticeView {
    NoticeView {
        console: ConsoleView::UploadFailure { file_name: decimal(n) + ".webp"@, error: e },
        stream: "Failed to upload "@ + decimal(n) + ".webp: "@ + e.text() + "\n"@,
    }
}

/// What is said while the folders are made and the images are uploaded.
pub proof fn law_notices_of_the_upload(job: JobView, event: EventView)
    requires
        job.wf(),
        job.accepts(event),
        is_folder_name(job.style, job.base_dir),
    ensures
        ({
            let (now, step) = job.next(event);
            let coming = said_on_coming_to(job, now.stage);
            let street = job.metadata->0.street;
            match (job.stage, event) {
                (StageView::Folder(_), EventView::Status(_)) => step.notices == coming,
                (StageView::UploadLoad(i), EventView::Done) => step.notices == seq![
                    told(
                        "Uploading '"@ + image_here(job, i + 1) + "' to '"@ + image_there(
                            street,
                            i + 1,
                        ) + "'"@,
                    ),
                ],
                (StageView::UploadPut(_), EventView::Status(_)) => step.notices == coming,
                (StageView::UploadLoad(i), EventView::Failed(e)) => step.notices == seq![
                    said_of_a_lost_image(i + 1, e),
                ] + coming,
                (StageView::UploadPut(i), EventView::Failed(e)) => step.notices == seq![
                    said_of_a_lost_image(i + 1, e),
                ] + coming,
                (StageView::UploadBody(i, status), EventView::Text(body)) => step.notices == seq![
                    said_of_a_lost_image(i + 1, ErrorView::Nextcloud { status, body }),
                ] + coming,
                (StageView::UploadBody(i, status), EventView::Failed(_)) => step.notices == seq![
                    said_of_a_lost_image(
                        i + 1,
                        ErrorView::Nextcloud { status, body: Seq::empty() },
                    ),
                ] + coming,
                _ => true,
            }
        }),
{
    law_places(job, 0);
    lemma_template_notice(here(job, "info.md"@));
    law_order_of_the_upload(job, event);
    match job.stage {
        StageView::UploadLoad(i) | StageView::UploadPut(i) | StageView::UploadBody(i, _) => {
            law_places(job, i);
            reveal_strlit(".webp");
            reveal_strlit(": ");
            reveal_strlit(".webp: ");
            assert(".webp"@ + ": "@ =~= ".webp: "@);
            assert forall|e: ErrorView|
                "Failed to upload "@ + (decimal(i + 1) + ".webp"@) + ": "@ + (#[trigger] e.text())
                    + "\n"@ == "Failed to upload "@ + decimal(i + 1) + ".webp: "@ + e.text()
                    + "\n"@ by {
                assert("Failed to upload "@ + (decimal(i + 1) + ".webp"@) + ": "@ + e.text()
                    + "\n"@ =~= "Failed to upload "@ + decimal(i + 1) + (".webp"@ + ": "@)
                    + e.text() + "\n"@);
            }
        },
        _ => {},
    }
}

/// What is said of the note.
pub proof fn law_notices_of_the_note(job: JobView, event: EventView)
    requires
        job.wf(),
        job.accepts(event),
        is_folder_name(job.style, job.base_dir),
    ensures
        ({
            let (now, step) = job.next(event);
            let note = note_there(job.metadata->0.street);
            match (job.stage, event) {
                (StageView::InfoLoad, EventView::Done) => step.notices == seq![
                    told("Uploading '"@ + here(job, "info.md"@) + "' to '"@ + note + "'"@),
                ],
                (StageView::InfoPut, EventView::Status(status)) => step.notices == (if 200 <= status
                    <= 299 {
                    seq![told("Property info template updated and uploaded to "@ + note)]
                } else {
                    Seq::empty()
                }),
                _ => true,
            }
        }),
{
    law_places(job, 0);
}

/// Nothing is said of the other steps, nor of an end that is not a success.
pub proof fn law_quiet_steps(job: JobView, event: EventView)
    requires
        job.wf(),
        job.accepts(event),
    ensures
        ({
            let (now, step) = job.next(event);
            match now.stage {
                StageView::Dirs
                | StageView::Client
                | StageView::Metadata
                | StageView::PageWrite
                | StageView::ImageFetch(_)
                | StageView::FolderBody(_)
                | StageView::UploadBody(_, _)
                | StageView::TemplateBody(_)
                | StageView::TemplateSave
                | StageView::TemplateRead
                | StageView::TemplateWrite
                | StageView::InfoLoad
                | StageView::InfoBody(_) => step.notices.len() == 0,
                StageView::Finished => step.action != ActionView::Finish(Ok(()))
                    ==> step.notices.len() == 0,
                _ => true,
            }
        }),
{
}

} // verus!
