//! What holds of every import, whatever comes of its actions.
use vstd::prelude::*;

use crate::config::ConfigView;
use crate::decimal::{decimal, is_digit, law_decimal_is_digits, law_decimal_is_injective};
use crate::error::ErrorView;
use crate::job::{
    image_name, lemma_image_name_is_simple, lemma_names_are_simple, lemma_number_is_simple, new_job,
    JobView, StageView, REMOTE_BASE,
};
use crate::nextcloud::{folder_is_there, law_addresses_are_in_the_account, refusal, success};
use crate::paths::{
    components, folder_chain, has_drive, is_settled, is_simple_name, joined, law_components_of_two,
    law_joined_paths_are_settled,
    law_outer_folders_come_first, law_plain_path_is_reached, law_unix_paths_are_kept,
    lemma_all_named, lemma_parts_of_two, lemma_single_part, named, names_something, parts_of, plain,
    rewritten, takes_name, PathStyle,
};
use crate::steps::{ActionView, ConsoleView, EventView, StepView};
use crate::template::filled_in;
use crate::text::occurs_at;

verus! {

/// An import begins well-formed, with a folder of its own.
pub proof fn law_new_job(
    config: ConfigView,
    url: Seq<char>,
    timestamp: u64,
    style: PathStyle,
)
    ensures
        new_job(config, url, timestamp, style).wf(),
        new_job(config, url, timestamp, style).accepts(EventView::Done),
        is_folder_name(style, new_job(config, url, timestamp, style).base_dir),
{
    lemma_number_is_simple(style, timestamp as nat);
    law_decimal_is_digits(timestamp as nat);
    let name = decimal(timestamp as nat);
    let base_dir = joined(style, config.output_dir, name);
    assert(is_digit(name[0]) && is_digit(name.last()));
    assert(base_dir.last() == name.last());
    law_joined_paths_are_settled(style, config.output_dir, name);
}

/// A path that can be followed by a separator and the name of something in it.
pub open spec fn is_folder_name(style: PathStyle, path: Seq<char>) -> bool {
    &&& !takes_name(style, path)
    &&& is_settled(style, path)
}

/// Every event that an import accepts leaves it well-formed, and an error that
/// it ends with can be put in words.
pub proof fn law_steps_keep_wf(job: JobView, event: EventView)
    requires
        job.wf(),
        job.accepts(event),
    ensures
        job.next(event).0.wf(),
        job.next(event).1.action matches ActionView::Finish(Err(e)) ==> e.valid(),
{
}

/// What an import was made for stays the same, and the property does once it
/// is known.
pub proof fn law_purpose_is_kept(job: JobView, event: EventView)
    requires
        job.wf(),
        job.accepts(event),
    ensures
        ({
            let after = job.next(event).0;
            &&& after.url == job.url
            &&& after.style == job.style
            &&& after.base_dir == job.base_dir
            &&& after.download_delay_secs == job.download_delay_secs
            &&& after.skip_images == job.skip_images
            &&& after.account == job.account
            &&& !(job.stage is Page) ==> after.metadata == job.metadata
        }),
{
}

/// How much of an import is ahead: whether its page is still to be read, and
/// how many steps it can take at most until that changes.
pub open spec fn ahead(job: JobView) -> (nat, nat) {
    let images = job.links().len();
    let folders = job.folders().len();
    let images_done = 7 + 3 * images + folders;
    match job.stage {
        StageView::Start => (2, 4),
        StageView::Dirs => (2, 3),
        StageView::Client => (2, 2),
        StageView::Page => (2, 1),
        StageView::Metadata => (1, images_done + 3 * images + 3),
        StageView::PageCopy => (1, images_done + 3 * images + 2),
        StageView::PageWrite => (1, images_done + 3 * images + 1),
        StageView::ImageCheck(i) => (1, (images_done + 3 * (images - i)) as nat),
        StageView::ImageFetch(i) => (1, (images_done + 3 * (images - i) - 1) as nat),
        StageView::ImagePause(i) => (1, (images_done + 3 * (images - i) - 2) as nat),
        StageView::Folder(k) => (1, (7 + 3 * images + (folders - k)) as nat),
        StageView::UploadLoad(i) => (1, (7 + 3 * (images - i)) as nat),
        StageView::UploadPut(i) => (1, (6 + 3 * (images - i)) as nat),
        StageView::UploadBody(i, _) => (1, (5 + 3 * (images - i)) as nat),
        StageView::TemplateGet => (1, 7),
        StageView::TemplateSave => (1, 6),
        StageView::TemplateRead => (1, 5),
        StageView::TemplateWrite => (1, 4),
        StageView::InfoLoad => (1, 3),
        StageView::InfoPut => (1, 2),
        StageView::FolderBody(_) | StageView::TemplateBody(_) | StageView::InfoBody(_) => (1, 1),
        StageView::Finished => (0, 0),
    }
}

/// Every event brings an import nearer to its end, so that it ends after
/// finitely many steps.
#[verifier::rlimit(40)]
pub proof fn law_every_step_is_progress(job: JobView, event: EventView)
    requires
        job.wf(),
        job.accepts(event),
    ensures
        ({
            let before = ahead(job);
            let after = ahead(job.next(event).0);
            after.0 < before.0 || (after.0 == before.0 && after.1 < before.1)
        }),
{
    law_purpose_is_kept(job, event);
    let after = job.next(event).0;
    if !(job.stage is Page) {
        assert(after.links() == job.links());
        assert(after.folders() == job.folders());
    }
    match event {
        EventView::Done => {},
        EventView::Failed(_) => {},
        EventView::PageRead(_) => {},
        EventView::Text(_) => {},
        EventView::Exists(_) => {},
        EventView::Status(_) => {},
    }
}

/// An import that has ended accepts nothing more, and one that has not accepts
/// some event.
pub proof fn law_only_the_end_is_the_end(job: JobView)
    requires
        job.wf(),
    ensures
        job.stage is Finished <==> forall|event: EventView| !job.accepts(event),
{
    assert(!(job.stage is Finished) ==> {
        ||| job.accepts(EventView::Done)
        ||| job.accepts(EventView::Failed(ErrorView::Io(Seq::empty())))
        ||| job.accepts(EventView::Exists(true))
    });
}

/// An import ends exactly when it says so.
pub proof fn law_the_end_is_announced(job: JobView, event: EventView)
    requires
        job.wf(),
        job.accepts(event),
    ensures
        job.next(event).0.stage is Finished <==> job.next(event).1.action is Finish,
{
}

/// The stages in which an image is uploaded.
pub open spec fn is_uploading(stage: StageView) -> bool {
    stage is UploadLoad || stage is UploadPut || stage is UploadBody
}

/// The stages in which the server has refused a request.
pub open spec fn is_refused(stage: StageView) -> bool {
    stage is FolderBody || stage is UploadBody || stage is TemplateBody || stage is InfoBody
}

/// A failure ends the import with that failure and without another notice,
/// unless it concerns the upload of an image or the reading of a refusal.
pub proof fn law_failures_end_the_import(job: JobView, e: ErrorView)
    requires
        job.wf(),
        job.accepts(EventView::Failed(e)),
        !is_uploading(job.stage),
        !is_refused(job.stage),
    ensures
        job.next(EventView::Failed(e)).1.action == ActionView::Finish(Err(e)),
        job.next(EventView::Failed(e)).1.notices.len() == 0,
{
}

/// Nothing that comes of the upload of an image ends the import: the next
/// image follows, or the template.
pub proof fn law_lost_images_are_passed_over(job: JobView, event: EventView)
    requires
        job.wf(),
        job.accepts(event),
        is_uploading(job.stage),
    ensures
        !(job.next(event).1.action is Finish),
        is_uploading(job.next(event).0.stage) || job.next(event).0.stage is TemplateGet,
{
}

/// The visitor is told of every image that could not be uploaded, and why.
pub proof fn law_lost_images_are_reported(job: JobView, event: EventView)
    requires
        job.wf(),
        job.accepts(event),
        is_uploading(job.stage),
        event is Failed || job.stage is UploadBody,
    ensures
        ({
            let i = match job.stage {
                StageView::UploadLoad(i) => i,
                StageView::UploadPut(i) => i,
                StageView::UploadBody(i, _) => i,
                _ => 0,
            };
            let e = match (job.stage, event) {
                (StageView::UploadBody(_, status), EventView::Text(text)) => refusal(
                    status,
                    Some(text),
                ),
                (StageView::UploadBody(_, status), _) => refusal(status, None),
                (_, EventView::Failed(e)) => e,
                _ => arbitrary(),
            };
            let notices = job.next(event).1.notices;
            &&& notices.len() > 0
            &&& notices[0].console == ConsoleView::UploadFailure {
                file_name: image_name(i),
                error: e,
            }
            &&& notices[0].stream == "Failed to upload "@ + image_name(i) + ": "@ + e.text()
                + "\n"@
        }),
{
}

/// An import succeeds only when the server has taken the note about the
/// property.
pub proof fn law_success_means_the_note_was_taken(job: JobView, event: EventView)
    requires
        job.wf(),
        job.accepts(event),
        job.next(event).1.action == ActionView::Finish(Ok(())),
    ensures
        job.stage is InfoPut,
        event matches EventView::Status(status) && success(status),
{
}

/// A refusal by the server ends the import with the status of the refusal,
/// unless it concerns an image.
pub proof fn law_refusals_are_reported(job: JobView, event: EventView)
    requires
        job.wf(),
        job.accepts(event),
        is_refused(job.stage),
        !is_uploading(job.stage),
    ensures
        job.next(event).1.action matches ActionView::Finish(
            Err(ErrorView::Nextcloud { status, body }),
        ) && (job.stage == StageView::FolderBody(status) || job.stage == StageView::TemplateBody(status)
            || job.stage == StageView::InfoBody(status)) && body == (match event {
            EventView::Text(text) => text,
            _ => Seq::empty(),
        }),
{
}

/// Where images are to be skipped, none is looked for or fetched, and nothing
/// waits.
pub proof fn law_skipped_images_are_not_fetched(job: JobView, event: EventView)
    requires
        job.wf(),
        job.accepts(event),
        job.skip_images,
    ensures
        !(job.next(event).1.action is CheckExists),
        !(job.next(event).1.action is FetchImage),
        !(job.next(event).1.action is Sleep),
{
}

/// An image is fetched only after its file was not found.
pub proof fn law_images_are_not_fetched_twice(job: JobView, event: EventView)
    requires
        job.wf(),
        job.accepts(event),
        job.next(event).1.action is FetchImage,
    ensures
        job.stage is ImageCheck,
        event == EventView::Exists(false),
        ({
            let i = job.stage->ImageCheck_0;
            job.next(event).1.action == ActionView::FetchImage {
                link: job.links()[i as int],
                path: job.image_path(i),
            }
        }),
{
}

/// Every request that is made with the password goes to the files of the
/// account.
pub proof fn law_requests_stay_in_the_account(job: JobView, event: EventView)
    requires
        job.wf(),
        job.accepts(event),
    ensures
        match job.next(event).1.action {
            ActionView::MakeCollection(url)
            | ActionView::PutFile(url)
            | ActionView::GetRemote(url) => occurs_at(url, job.account.files_url(), 0),
            _ => true,
        },
{
    assert forall|path: Seq<char>|
        occurs_at(#[trigger] job.account.dav_url(path), job.account.files_url(), 0) by {
        law_addresses_are_in_the_account(job.account, path);
    }
}

/// The file on this machine that an action is about.
pub open spec fn local_path(action: ActionView) -> Option<Seq<char>> {
    match action {
        ActionView::CreateDirs(path)
        | ActionView::WriteMetadata(path)
        | ActionView::WriteText { path, .. }
        | ActionView::CheckExists(path)
        | ActionView::FetchImage { path, .. }
        | ActionView::LoadFile(path)
        | ActionView::SaveBody(path)
        | ActionView::ReadText(path) => Some(path),
        _ => None,
    }
}

/// Every file that an import reads or writes stands in its own folder.
pub proof fn law_files_stay_in_the_folder(job: JobView, event: EventView)
    requires
        job.wf(),
        job.accepts(event),
        is_folder_name(job.style, job.base_dir),
    ensures
        local_path(job.next(event).1.action) matches Some(path) ==> occurs_at(
            path,
            job.base_dir.push(job.style.main_separator()),
            0,
        ),
{
    let inside = job.base_dir.push(job.style.main_separator());
    lemma_names_are_simple(job.style);
    lemma_images_dir(job);
    lemma_joined_is_inside(job.style, job.base_dir, "metadata.json"@);
    lemma_joined_is_inside(job.style, job.base_dir, "page.html"@);
    lemma_joined_is_inside(job.style, job.base_dir, "info.md"@);
    assert forall|i: nat| occurs_at(#[trigger] job.image_path(i), inside, 0) by {
        lemma_image_path(job, i);
        assert(job.image_path(i).subrange(0, inside.len() as int) =~= job.images_dir().subrange(
            0,
            inside.len() as int,
        ));
    }
}

/// A simple name seen from a folder stands in the folder.
pub proof fn lemma_joined_is_inside(style: PathStyle, base: Seq<char>, name: Seq<char>)
    requires
        is_folder_name(style, base),
        is_simple_name(style, name),
    ensures
        joined(style, base, name) == base.push(style.main_separator()) + name,
        occurs_at(joined(style, base, name), base.push(style.main_separator()), 0),
{
    let inside = base.push(style.main_separator());
    assert(!style.is_separator(name[0]));
    assert(joined(style, base, name) == inside + name);
    assert(joined(style, base, name).subrange(0, inside.len() as int) =~= inside);
}

/// The folder of the images stands in that of the import.
proof fn lemma_images_dir(job: JobView)
    requires
        is_folder_name(job.style, job.base_dir),
    ensures
        is_folder_name(job.style, job.images_dir()),
        occurs_at(job.images_dir(), job.base_dir.push(job.style.main_separator()), 0),
{
    reveal_strlit("images");
    lemma_names_are_simple(job.style);
    lemma_joined_is_inside(job.style, job.base_dir, "images"@);
    assert(job.images_dir().last() == 's');
    law_joined_paths_are_settled(job.style, job.base_dir, "images"@);
}

/// The file of an image stands in the folder of the images.
pub proof fn lemma_image_path(job: JobView, i: nat)
    requires
        is_folder_name(job.style, job.base_dir),
    ensures
        job.image_path(i) == job.images_dir().push(job.style.main_separator()) + image_name(i),
{
    lemma_images_dir(job);
    lemma_image_name_is_simple(job.style, i);
    lemma_joined_is_inside(job.style, job.images_dir(), image_name(i));
}

/// Two images have the same name only if they are the same image.
pub proof fn law_image_names_differ(i: nat, j: nat)
    requires
        image_name(i) == image_name(j),
    ensures
        i == j,
{
    let suffix = ".webp"@;
    let (a, b) = (decimal(i + 1), decimal(j + 1));
    assert(image_name(i).len() == a.len() + suffix.len());
    assert(image_name(j).len() == b.len() + suffix.len());
    assert(a =~= image_name(i).take(a.len() as int));
    assert(b =~= image_name(j).take(b.len() as int));
    law_decimal_is_injective(i + 1, j + 1);
}

/// No two images share a file, on this machine or on the server.
pub proof fn law_images_do_not_share_a_file(job: JobView, i: nat, j: nat)
    requires
        is_folder_name(job.style, job.base_dir),
        i != j,
    ensures
        job.image_path(i) != job.image_path(j),
        job.remote_image(i) != job.remote_image(j),
{
    lemma_image_path(job, i);
    lemma_image_path(job, j);
    if job.image_path(i) == job.image_path(j) {
        lemma_same_tail(
            job.images_dir().push(job.style.main_separator()),
            image_name(i),
            image_name(j),
        );
        law_image_names_differ(i, j);
    }
    if job.remote_image(i) == job.remote_image(j) {
        lemma_same_tail(job.remote_images_dir() + "/"@, image_name(i), image_name(j));
        law_image_names_differ(i, j);
    }
}

/// What stands behind the same text is the same where the whole is.
proof fn lemma_same_tail(head: Seq<char>, a: Seq<char>, b: Seq<char>)
    requires
        head + a == head + b,
    ensures
        a == b,
{
    assert(a =~= (head + a).skip(head.len() as int));
    assert(b =~= (head + b).skip(head.len() as int));
}

/// An import after a number of events.
pub open spec fn after(job: JobView, events: Seq<EventView>) -> JobView
    decreases events.len(),
{
    if events.len() == 0 {
        job
    } else {
        after(job, events.drop_last()).next(events.last()).0
    }
}

/// The events are such that each is accepted when it comes.
pub open spec fn is_run(job: JobView, events: Seq<EventView>) -> bool {
    forall|n: int|
        0 <= n < events.len() ==> after(job, events.take(n)).accepts(#[trigger] events[n])
}

/// Folder `k` was asked for in the run, and the server answered that it is
/// there.
pub open spec fn folder_confirmed(job: JobView, events: Seq<EventView>, k: int) -> bool {
    exists|n: int|
        0 <= n < events.len() && (#[trigger] events[n] matches EventView::Status(status)
            && folder_is_there(status)) && after(job, events.take(n)).stage == StageView::Folder(
            k as nat,
        )
}

/// How many folders the server must have confirmed before a stage.
pub open spec fn folders_needed(job: JobView) -> nat {
    match job.stage {
        StageView::Folder(k) => k,
        StageView::UploadLoad(_)
        | StageView::UploadPut(_)
        | StageView::UploadBody(_, _)
        | StageView::TemplateGet
        | StageView::TemplateBody(_)
        | StageView::TemplateSave
        | StageView::TemplateRead
        | StageView::TemplateWrite
        | StageView::InfoLoad
        | StageView::InfoPut
        | StageView::InfoBody(_) => job.folders().len(),
        _ => 0,
    }
}

/// A step counts another folder only where the server has confirmed it.
proof fn lemma_folders_are_counted(job: JobView, event: EventView, k: nat)
    requires
        job.wf(),
        job.accepts(event),
        folders_needed(job) <= k < folders_needed(job.next(event).0),
    ensures
        job.stage == StageView::Folder(k),
        event matches EventView::Status(status) && folder_is_there(status),
{
}

/// Nothing is uploaded, and no folder asked for, before the server has
/// confirmed the folders that come before.
pub proof fn law_folders_come_first(
    config: ConfigView,
    url: Seq<char>,
    timestamp: u64,
    style: PathStyle,
    events: Seq<EventView>,
)
    requires
        is_run(new_job(config, url, timestamp, style), events),
    ensures
        ({
            let start = new_job(config, url, timestamp, style);
            let now = after(start, events);
            &&& now.wf()
            &&& forall|k: int|
                0 <= k < folders_needed(now) ==> #[trigger] folder_confirmed(start, events, k)
        }),
    decreases events.len(),
{
    let start = new_job(config, url, timestamp, style);
    law_new_job(config, url, timestamp, style);
    if events.len() > 0 {
        let earlier = events.drop_last();
        let before = after(start, earlier);
        let now = after(start, events);
        lemma_run_before(start, events);
        law_folders_come_first(config, url, timestamp, style, earlier);
        law_steps_keep_wf(before, events.last());
        assert(events.take(events.len() - 1) =~= earlier);
        assert forall|k: int| 0 <= k < folders_needed(now) implies #[trigger] folder_confirmed(
            start,
            events,
            k,
        ) by {
            if k < folders_needed(before) {
                assert(folder_confirmed(start, earlier, k));
                let n = choose|n: int|
                    0 <= n < earlier.len() && (#[trigger] earlier[n] matches EventView::Status(
                        status,
                    ) && folder_is_there(status)) && after(start, earlier.take(n)).stage
                        == StageView::Folder(k as nat);
                assert(earlier.take(n) =~= events.take(n));
                assert(events[n] == earlier[n]);
            } else {
                lemma_folders_are_counted(before, events.last(), k as nat);
                assert(events[events.len() - 1] is Status);
            }
        }
    }
}

/// The run came through a stage.
pub open spec fn came_through(job: JobView, events: Seq<EventView>, stage: StageView) -> bool {
    exists|n: int|
        0 <= n <= events.len() && (#[trigger] after(job, events.take(n))).stage == stage
}

/// How many images must have been looked for before a stage.
pub open spec fn images_looked_for(job: JobView) -> nat {
    match job.stage {
        StageView::ImageCheck(i) | StageView::ImageFetch(i) | StageView::ImagePause(i) => i + 1,
        StageView::Start
        | StageView::Dirs
        | StageView::Client
        | StageView::Page
        | StageView::Metadata
        | StageView::PageCopy
        | StageView::PageWrite
        | StageView::Finished => 0,
        _ => if job.skip_images {
            0
        } else {
            job.links().len()
        },
    }
}

/// For how many images an upload must have begun before a stage.
pub open spec fn uploads_begun(job: JobView) -> nat {
    match job.stage {
        StageView::UploadLoad(i) | StageView::UploadPut(i) | StageView::UploadBody(i, _) => i + 1,
        StageView::TemplateGet
        | StageView::TemplateBody(_)
        | StageView::TemplateSave
        | StageView::TemplateRead
        | StageView::TemplateWrite
        | StageView::InfoLoad
        | StageView::InfoPut
        | StageView::InfoBody(_) => job.links().len(),
        _ => 0,
    }
}

/// A step counts another image only by coming to it.
proof fn lemma_images_are_counted(job: JobView, event: EventView, i: nat)
    requires
        job.wf(),
        job.accepts(event),
    ensures
        images_looked_for(job) <= i < images_looked_for(job.next(event).0) ==> job.next(
            event,
        ).0.stage == StageView::ImageCheck(i),
        uploads_begun(job) <= i < uploads_begun(job.next(event).0) ==> job.next(event).0.stage
            == StageView::UploadLoad(i),
{
}

/// No image is left out: unless images are skipped, each is looked for before
/// the folders are made, and an upload of each begins before the template is
/// fetched.
pub proof fn law_no_image_is_left_out(
    config: ConfigView,
    url: Seq<char>,
    timestamp: u64,
    style: PathStyle,
    events: Seq<EventView>,
)
    requires
        is_run(new_job(config, url, timestamp, style), events),
    ensures
        ({
            let start = new_job(config, url, timestamp, style);
            let now = after(start, events);
            &&& now.wf()
            &&& forall|i: nat|
                i < images_looked_for(now) ==> #[trigger] came_through(
                    start,
                    events,
                    StageView::ImageCheck(i),
                )
            &&& forall|i: nat|
                i < uploads_begun(now) ==> #[trigger] came_through(
                    start,
                    events,
                    StageView::UploadLoad(i),
                )
        }),
    decreases events.len(),
{
    let start = new_job(config, url, timestamp, style);
    law_new_job(config, url, timestamp, style);
    let now = after(start, events);
    assert(events.take(events.len() as int) =~= events);
    if events.len() > 0 {
        let earlier = events.drop_last();
        let before = after(start, earlier);
        lemma_run_before(start, events);
        law_no_image_is_left_out(config, url, timestamp, style, earlier);
        law_steps_keep_wf(before, events.last());
        assert forall|i: nat| i < images_looked_for(now) implies #[trigger] came_through(
            start,
            events,
            StageView::ImageCheck(i),
        ) by {
            if i < images_looked_for(before) {
                lemma_came_through_before(start, events, StageView::ImageCheck(i));
            } else {
                lemma_images_are_counted(before, events.last(), i);
                assert(after(start, events.take(events.len() as int)).stage == now.stage);
            }
        }
        assert forall|i: nat| i < uploads_begun(now) implies #[trigger] came_through(
            start,
            events,
            StageView::UploadLoad(i),
        ) by {
            if i < uploads_begun(before) {
                lemma_came_through_before(start, events, StageView::UploadLoad(i));
            } else {
                lemma_images_are_counted(before, events.last(), i);
                assert(after(start, events.take(events.len() as int)).stage == now.stage);
            }
        }
    }
}

/// A run is one without its last event, and that event is accepted.
proof fn lemma_run_before(start: JobView, events: Seq<EventView>)
    requires
        events.len() > 0,
        is_run(start, events),
    ensures
        is_run(start, events.drop_last()),
        after(start, events.drop_last()).accepts(events.last()),
{
    let earlier = events.drop_last();
    assert forall|n: int| 0 <= n < earlier.len() implies after(start, earlier.take(n)).accepts(
        #[trigger] earlier[n],
    ) by {
        assert(earlier.take(n) =~= events.take(n));
        assert(events[n] == earlier[n]);
    }
    assert(events.take(events.len() - 1) =~= earlier);
    assert(events[events.len() - 1] == events.last());
}

/// What a run came through before its last event, it came through.
proof fn lemma_came_through_before(start: JobView, events: Seq<EventView>, stage: StageView)
    requires
        events.len() > 0,
        came_through(start, events.drop_last(), stage),
    ensures
        came_through(start, events, stage),
{
    let earlier = events.drop_last();
    let n = choose|n: int|
        0 <= n <= earlier.len() && (#[trigger] after(start, earlier.take(n))).stage == stage;
    assert(earlier.take(n) =~= events.take(n));
}

/// The step that a run takes at its event `n`.
pub open spec fn step_at(job: JobView, events: Seq<EventView>, n: int) -> StepView {
    after(job, events.take(n)).next(events[n]).1
}

/// The last five events made the note about the property and sent it: the
/// server gave the template, its text was saved, read and filled in, and the
/// file with the filled-in text was sent to the note's address.
pub open spec fn note_was_sent(job: JobView, events: Seq<EventView>) -> bool {
    let now = after(job, events);
    let n = events.len() - 3;
    &&& n >= 2
    &&& after(job, events.take(n - 2)).stage is TemplateGet
    &&& step_at(job, events, n - 2).action == ActionView::SaveBody(now.info_path())
    &&& step_at(job, events, n - 1).action == ActionView::ReadText(now.info_path())
    &&& after(job, events.take(n)).stage is TemplateRead
    &&& events[n] matches EventView::Text(text) && step_at(job, events, n).action
        == (ActionView::WriteText {
        path: now.info_path(),
        text: filled_in(text, now.metadata->0),
    })
    &&& step_at(job, events, n + 1).action == ActionView::LoadFile(now.info_path())
    &&& step_at(job, events, n + 2).action == ActionView::PutFile(
        now.account.dav_url(now.remote_info()),
    )
}

/// The stages of the note, from the answer with the template on.
spec fn note_stage(k: int) -> StageView {
    if k == 0 {
        StageView::TemplateGet
    } else if k == 1 {
        StageView::TemplateSave
    } else if k == 2 {
        StageView::TemplateRead
    } else if k == 3 {
        StageView::TemplateWrite
    } else if k == 4 {
        StageView::InfoLoad
    } else {
        StageView::InfoPut
    }
}

/// Each stage of the note comes from the one before it.
proof fn lemma_note_step(job: JobView, event: EventView, k: int)
    requires
        job.wf(),
        job.accepts(event),
        1 <= k <= 5,
        job.next(event).0.stage == note_stage(k),
    ensures
        job.stage == note_stage(k - 1),
        k == 3 ==> event is Text,
        ({
            let action = job.next(event).1.action;
            &&& k == 1 ==> action == ActionView::SaveBody(job.info_path())
            &&& k == 2 ==> action == ActionView::ReadText(job.info_path())
            &&& k == 3 ==> action == (ActionView::WriteText {
                path: job.info_path(),
                text: filled_in(event->Text_0, job.metadata->0),
            })
            &&& k == 4 ==> action == ActionView::LoadFile(job.info_path())
            &&& k == 5 ==> action == ActionView::PutFile(job.account.dav_url(job.remote_info()))
        }),
{
}

/// A run that has come to a stage of the note came through those before it.
proof fn lemma_note_run(
    config: ConfigView,
    url: Seq<char>,
    timestamp: u64,
    style: PathStyle,
    events: Seq<EventView>,
    k: int,
)
    requires
        is_run(new_job(config, url, timestamp, style), events),
        1 <= k <= 5,
        after(new_job(config, url, timestamp, style), events).stage == note_stage(k),
    ensures
        events.len() > 0,
        ({
            let start = new_job(config, url, timestamp, style);
            let before = after(start, events.drop_last());
            let now = after(start, events);
            &&& is_run(start, events.drop_last())
            &&& before.stage == note_stage(k - 1)
            &&& before.next(events.last()).0 == now
            &&& k == 3 ==> events.last() is Text
            &&& before.base_dir == now.base_dir && before.style == now.style
            &&& before.metadata == now.metadata && before.account == now.account
            &&& before.wf() && before.accepts(events.last())
        }),
{
    let start = new_job(config, url, timestamp, style);
    if events.len() > 0 {
        lemma_run_before(start, events);
        law_folders_come_first(config, url, timestamp, style, events.drop_last());
        let before = after(start, events.drop_last());
        lemma_note_step(before, events.last(), k);
        law_purpose_is_kept(before, events.last());
    }
}

/// A run that waits for the answer to the note has made and sent it.
#[verifier::spinoff_prover]
#[verifier::rlimit(60)]
proof fn lemma_note_was_sent(
    config: ConfigView,
    url: Seq<char>,
    timestamp: u64,
    style: PathStyle,
    events: Seq<EventView>,
)
    requires
        is_run(new_job(config, url, timestamp, style), events),
        after(new_job(config, url, timestamp, style), events).stage is InfoPut,
    ensures
        note_was_sent(new_job(config, url, timestamp, style), events),
{
    let start = new_job(config, url, timestamp, style);
    let e5 = events;
    lemma_note_run(config, url, timestamp, style, e5, 5);
    let e4 = e5.drop_last();
    lemma_note_run(config, url, timestamp, style, e4, 4);
    let e3 = e4.drop_last();
    lemma_note_run(config, url, timestamp, style, e3, 3);
    let e2 = e3.drop_last();
    lemma_note_run(config, url, timestamp, style, e2, 2);
    let e1 = e2.drop_last();
    lemma_note_run(config, url, timestamp, style, e1, 1);
    let e0 = e1.drop_last();
    let n = events.len() - 3;
    assert(events.take(n + 2) =~= e4 && events[n + 2] == e5.last());
    assert(events.take(n + 1) =~= e3 && events[n + 1] == e4.last());
    assert(events.take(n) =~= e2 && events[n] == e3.last());
    assert(events.take(n - 1) =~= e1 && events[n - 1] == e2.last());
    assert(events.take(n - 2) =~= e0 && events[n - 2] == e1.last());
    lemma_note_step(after(start, e4), e5.last(), 5);
    lemma_note_step(after(start, e3), e4.last(), 4);
    lemma_note_step(after(start, e2), e3.last(), 3);
    lemma_note_step(after(start, e1), e2.last(), 2);
    lemma_note_step(after(start, e0), e1.last(), 1);
}

/// An import that succeeds has had every folder confirmed, has tried to upload
/// every image, has looked for every image unless images are skipped, and has
/// sent the note with the template filled in.
pub proof fn law_success_is_complete(
    config: ConfigView,
    url: Seq<char>,
    timestamp: u64,
    style: PathStyle,
    events: Seq<EventView>,
    last: EventView,
)
    requires
        is_run(new_job(config, url, timestamp, style), events.push(last)),
        after(new_job(config, url, timestamp, style), events).next(last).1.action == ActionView::Finish(
            Ok(()),
        ),
    ensures
        ({
            let start = new_job(config, url, timestamp, style);
            let now = after(start, events);
            &&& forall|k: int|
                0 <= k < now.folders().len() ==> #[trigger] folder_confirmed(start, events, k)
            &&& forall|i: nat|
                i < now.links().len() ==> #[trigger] came_through(
                    start,
                    events,
                    StageView::UploadLoad(i),
                )
            &&& !now.skip_images ==> forall|i: nat|
                i < now.links().len() ==> #[trigger] came_through(
                    start,
                    events,
                    StageView::ImageCheck(i),
                )
            &&& note_was_sent(start, events)
        }),
{
    let start = new_job(config, url, timestamp, style);
    assert(events.push(last).drop_last() =~= events);
    lemma_run_before(start, events.push(last));
    law_folders_come_first(config, url, timestamp, style, events);
    law_no_image_is_left_out(config, url, timestamp, style, events);
    law_success_means_the_note_was_taken(after(start, events), last);
    lemma_note_was_sent(config, url, timestamp, style, events);
}

/// The parts of the folder of the images on the server, and of the property's.
proof fn lemma_remote_parts(job: JobView)
    ensures
        job.remote_dir() == REMOTE_BASE@.push('/') + job.metadata->0.street,
        job.remote_images_dir() == job.remote_dir().push('/') + image_folders(),
        parts_of(job.style, REMOTE_BASE@) == seq![REMOTE_BASE@],
        parts_of(job.style, image_folders()) == seq!["images"@, "compass"@],
        parts_of(job.style, job.remote_dir()) == seq![REMOTE_BASE@] + parts_of(
            job.style,
            job.metadata->0.street,
        ),
        parts_of(job.style, job.remote_images_dir()) == parts_of(job.style, job.remote_dir())
            + seq!["images"@, "compass"@],
        names_something(REMOTE_BASE@) && !has_drive(job.style, REMOTE_BASE@),
        names_something("images"@) && !has_drive(job.style, "images"@),
        names_something("compass"@) && !has_drive(job.style, "compass"@),
{
    let style = job.style;
    let (images, compass) = ("images"@, "compass"@);
    reveal_strlit("Propertes");
    reveal_strlit("/");
    reveal_strlit("images");
    reveal_strlit("compass");
    reveal_strlit("/images/compass");
    assert(REMOTE_BASE@.len() == 9 && images.len() == 6 && compass.len() == 7);
    assert(job.remote_dir() =~= REMOTE_BASE@.push('/') + job.metadata->0.street);
    assert(job.remote_images_dir() =~= job.remote_dir().push('/') + image_folders());
    lemma_single_part(style, REMOTE_BASE@);
    lemma_single_part(style, images);
    lemma_single_part(style, compass);
    lemma_parts_of_two(style, images, compass);
    assert(seq![images] + seq![compass] =~= seq![images, compass]);
    lemma_parts_of_two(style, REMOTE_BASE@, job.metadata->0.street);
    lemma_parts_of_two(style, job.remote_dir(), image_folders());
}

/// The folders of the images within that of the property.
spec fn image_folders() -> Seq<char> {
    "images"@.push('/') + "compass"@
}

/// The folders on the server: the folder of all properties, those that the
/// street names, and two for the images.
pub proof fn law_remote_folders(job: JobView)
    ensures
        components(job.style, job.remote_images_dir()) == seq![REMOTE_BASE@] + named(
            parts_of(job.style, job.metadata->0.street),
        ) + seq!["images"@, "compass"@],
{
    let style = job.style;
    let street = job.metadata->0.street;
    lemma_remote_parts(job);
    reveal_strlit("Propertes");
    law_components_of_two(style, REMOTE_BASE@, street);
    law_components_of_two(style, job.remote_dir(), image_folders());
    lemma_all_named(seq![REMOTE_BASE@]);
    lemma_all_named(seq!["images"@, "compass"@]);
    assert(components(style, REMOTE_BASE@) =~= seq![REMOTE_BASE@]);
}

/// Where the street is a plain path, such as a name without slashes, the
/// folders that are made on the server are those that the images and the note
/// are uploaded to, with the separators that the machine writes.
pub proof fn law_uploads_have_their_folders(job: JobView)
    requires
        plain(job.style, job.metadata->0.street),
    ensures
        job.folders().len() > 0,
        job.folders().last() == rewritten(job.style, job.remote_images_dir()),
        job.folders().contains(rewritten(job.style, job.remote_dir())),
        job.style is Unix ==> job.folders().last() == job.remote_images_dir()
            && job.folders().contains(job.remote_dir()),
{
    let style = job.style;
    let street = job.metadata->0.street;
    let dir = job.remote_dir();
    lemma_remote_parts(job);
    assert(plain(style, dir)) by {
        assert forall|i: int| 0 <= i < parts_of(style, dir).len() implies names_something(
            #[trigger] parts_of(style, dir)[i],
        ) && !has_drive(style, parts_of(style, dir)[i]) by {
            if i > 0 {
                assert(names_something(parts_of(style, street)[i - 1]));
            }
        }
    }
    assert(plain(style, job.remote_images_dir())) by {
        let parts = parts_of(style, job.remote_images_dir());
        assert forall|i: int| 0 <= i < parts.len() implies names_something(#[trigger] parts[i])
            && !has_drive(style, parts[i]) by {
            if i < parts_of(style, dir).len() {
                assert(names_something(parts_of(style, dir)[i]));
            }
        }
    }
    law_plain_path_is_reached(style, job.remote_images_dir());
    law_plain_path_is_reached(style, dir);
    law_outer_folders_come_first(style, dir, image_folders());
    let n = folder_chain(style, dir).len() as int;
    assert(job.folders()[n - 1] == folder_chain(style, dir)[n - 1]);
    if style is Unix {
        law_unix_paths_are_kept(job.remote_images_dir());
        law_unix_paths_are_kept(dir);
    }
}

/// No look for an image found its file missing.
pub open spec fn every_image_is_there(events: Seq<EventView>) -> bool {
    forall|n: int| 0 <= n < events.len() ==> #[trigger] events[n] != EventView::Exists(false)
}

/// Where no look found its file missing, no image is being fetched.
proof fn lemma_nothing_is_fetched(
    config: ConfigView,
    url: Seq<char>,
    timestamp: u64,
    style: PathStyle,
    events: Seq<EventView>,
)
    requires
        is_run(new_job(config, url, timestamp, style), events),
        every_image_is_there(events),
    ensures
        ({
            let now = after(new_job(config, url, timestamp, style), events);
            now.wf() && !(now.stage is ImageFetch) && !(now.stage is ImagePause)
        }),
    decreases events.len(),
{
    let start = new_job(config, url, timestamp, style);
    law_new_job(config, url, timestamp, style);
    if events.len() > 0 {
        let earlier = events.drop_last();
        lemma_run_before(start, events);
        assert forall|n: int| 0 <= n < earlier.len() implies #[trigger] earlier[n]
            != EventView::Exists(false) by {
            assert(events[n] == earlier[n]);
        }
        lemma_nothing_is_fetched(config, url, timestamp, style, earlier);
        let before = after(start, earlier);
        assert(events[events.len() - 1] == events.last());
        law_steps_keep_wf(before, events.last());
        lemma_fetching_begins(before, events.last());
    }
}

/// An image comes to be fetched only where its file was not found.
proof fn lemma_fetching_begins(job: JobView, event: EventView)
    requires
        job.wf(),
        job.accepts(event),
        !(job.stage is ImageFetch),
        event != EventView::Exists(false),
    ensures
        !(job.next(event).0.stage is ImageFetch),
        !(job.next(event).0.stage is ImagePause),
        !(job.next(event).1.action is FetchImage),
        !(job.next(event).1.action is Sleep),
{
}

/// Where every look for an image finds its file, no image is fetched, and
/// nothing waits.
pub proof fn law_images_that_are_there_are_not_fetched(
    config: ConfigView,
    url: Seq<char>,
    timestamp: u64,
    style: PathStyle,
    events: Seq<EventView>,
    n: int,
)
    requires
        is_run(new_job(config, url, timestamp, style), events),
        every_image_is_there(events),
        0 <= n < events.len(),
    ensures
        ({
            let job = after(new_job(config, url, timestamp, style), events.take(n));
            let action = job.next(events[n]).1.action;
            !(action is FetchImage) && !(action is Sleep)
        }),
{
    let start = new_job(config, url, timestamp, style);
    let earlier = events.take(n);
    assert forall|k: int| 0 <= k < earlier.len() implies after(start, earlier.take(k)).accepts(
        #[trigger] earlier[k],
    ) && earlier[k] != EventView::Exists(false) by {
        assert(earlier.take(k) =~= events.take(k));
        assert(events[k] == earlier[k]);
    }
    lemma_nothing_is_fetched(config, url, timestamp, style, earlier);
    lemma_fetching_begins(after(start, earlier), events[n]);
}

/// What an import is told once its page is written, where the files of all its
/// images are there.
pub open spec fn looks(job: JobView) -> Seq<EventView> {
    seq![EventView::Done] + Seq::new(job.links().len(), |i: int| EventView::Exists(true))
}

/// An import that looks for its images after `k` of them were found.
spec fn looking(job: JobView, k: nat) -> JobView {
    JobView {
        stage: if k < job.links().len() {
            StageView::ImageCheck(k)
        } else {
            StageView::Folder(0)
        },
        ..job
    }
}

/// Each image that is found leads to the next one, and the last to the folders.
proof fn lemma_looking(job: JobView, k: nat)
    requires
        job.wf(),
        job.stage is PageWrite,
        !job.skip_images,
        k <= job.links().len(),
        job.links().len() > 0,
    ensures
        after(job, looks(job).take((k + 1) as int)) == looking(job, k),
    decreases k,
{
    let events = looks(job).take((k + 1) as int);
    law_remote_folders(job);
    assert(job.folders().len() > 0);
    if k == 0 {
        assert(events.drop_last() =~= Seq::empty());
        assert(after(job, events.drop_last()) == job);
        assert(events.last() == EventView::Done);
    } else {
        assert(events.drop_last() =~= looks(job).take(k as int));
        lemma_looking(job, (k - 1) as nat);
        assert(events.last() == EventView::Exists(true));
        let before = looking(job, (k - 1) as nat);
        assert(before.links() == job.links() && before.folders() == job.folders());
    }
}

/// Where the files of all images are there, each is looked for and found, and
/// the folders follow.
pub proof fn law_folders_follow_the_images(job: JobView)
    requires
        job.wf(),
        job.stage is PageWrite,
        !job.skip_images,
        job.links().len() > 0,
    ensures
        is_run(job, looks(job)),
        forall|i: nat|
            i < job.links().len() ==> (#[trigger] after(job, looks(job).take((i + 1) as int))).stage
                == StageView::ImageCheck(i),
        after(job, looks(job)).stage == StageView::Folder(0),
{
    let events = looks(job);
    assert forall|i: nat| i < job.links().len() implies (#[trigger] after(
        job,
        events.take((i + 1) as int),
    )).stage == StageView::ImageCheck(i) by {
        lemma_looking(job, i);
    }
    lemma_looking(job, job.links().len());
    assert(events.take(events.len() as int) =~= events);
    assert forall|n: int| 0 <= n < events.len() implies after(job, events.take(n)).accepts(
        #[trigger] events[n],
    ) by {
        if n == 0 {
            assert(events.take(0) =~= Seq::empty());
        } else {
            lemma_looking(job, (n - 1) as nat);
        }
    }
}

} // verus!
