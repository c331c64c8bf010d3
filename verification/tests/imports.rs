use listing_importer::config::Config;
use listing_importer::error::AppError;
use listing_importer::job::ListingJob;
use listing_importer::paths::PathStyle;
use listing_importer::steps::{Action, Console, Event, Step};

const URL: &str = "https://www.compass.com/listing/1-main-st/123/";

const HTML: &str = "<title>1 Main St, Springfield, IL 62701 | MLS #12345 | Compass</title>
\"https://a.b/1/origin.webp\" \"https://a.b/2/origin.webp\"
propertyHistory-table-td\"><div>$1,250,000</div></td></tr>
\"x\",\"addressCountry\":\"US\"}},\"description\":\"A sunny home.\",\"floorSize\":1";

fn config(skip_images: bool) -> Config {
    Config {
        output_dir: "output".to_string(),
        download_delay_secs: 3,
        skip_images,
        nc_url: "https://cloud/".to_string(),
        nc_user: "anna".to_string(),
        nc_pass: "secret".to_string(),
    }
}

fn new_job(skip_images: bool) -> ListingJob {
    ListingJob::new(&config(skip_images), URL, 1700000000, PathStyle::Unix)
}

/// Takes a step, after looking whether the event fits.
fn step(job: &mut ListingJob, event: Event) -> Step {
    assert!(job.is_acceptable(&event), "{:?} in {:?}", event, job);
    job.step(event)
}

/// What the visitor is sent.
fn sent(step: &Step) -> Vec<&str> {
    step.notices.iter().map(|n| n.stream.as_str()).collect()
}

/// What the console shows.
fn shown(step: &Step) -> Vec<&str> {
    step.notices
        .iter()
        .map(|n| match &n.console {
            Console::Line(text) => text.as_str(),
            Console::UploadFailure { file_name, .. } => file_name.as_str(),
        })
        .collect()
}

fn action(step: &Step) -> String {
    format!("{:?}", step.action)
}

fn status(n: u16) -> Event {
    Event::Status(n)
}

fn text(t: &str) -> Event {
    Event::Text(t.to_string())
}

fn failed() -> Event {
    Event::Failed(AppError::Io("disk".to_string()))
}

/// A job that waits for the page.
fn at_page(skip_images: bool) -> ListingJob {
    let mut job = new_job(skip_images);
    for _ in 0..3 {
        step(&mut job, Event::Done);
    }
    job
}

/// A job whose page is read and written, with the step that it took then.
fn at_images(skip_images: bool, html: &str) -> (ListingJob, Step) {
    let mut job = at_page(skip_images);
    job.receive_page(html);
    step(&mut job, Event::Done);
    step(&mut job, text("<html>"));
    let s = step(&mut job, Event::Done);
    (job, s)
}

/// A job that has its folders, with the step that it took then.
fn at_uploads() -> (ListingJob, Step) {
    let (mut job, _) = at_images(true, HTML);
    for _ in 0..3 {
        step(&mut job, status(201));
    }
    let s = step(&mut job, status(405));
    (job, s)
}

/// A job that waits for the template.
fn at_template() -> ListingJob {
    let (mut job, _) = at_uploads();
    step(&mut job, failed());
    step(&mut job, failed());
    job
}

#[test]
fn an_import_begins() {
    let mut job = new_job(false);
    assert!(job.metadata().is_none());
    let s = step(&mut job, Event::Done);
    assert_eq!(action(&s), "CreateDirs(\"output/1700000000/images\")");
    assert!(s.notices.is_empty());
    let s = step(&mut job, Event::Done);
    assert_eq!(action(&s), "OpenClient");
    let s = step(&mut job, Event::Done);
    assert_eq!(action(&s), format!("FetchPage({:?})", URL));
    assert_eq!(sent(&s), vec![format!("Fetching HTML from {}...\n", URL)]);
    assert_eq!(shown(&s), vec![format!("Fetching HTML from {}...", URL)]);
}

#[test]
fn the_page_is_read_and_kept() {
    let mut job = at_page(false);
    let s = job.receive_page(HTML);
    assert_eq!(action(&s), "WriteMetadata(\"output/1700000000/metadata.json\")");
    assert_eq!(job.metadata().unwrap().street, "1 Main St");
    assert_eq!(job.metadata().unwrap().url, URL);
    let s = step(&mut job, Event::Done);
    assert_eq!(action(&s), format!("FetchText({:?})", URL));
    assert_eq!(sent(&s), vec!["Metadata saved to output/1700000000/metadata.json"]);
    let s = step(&mut job, text("<html>"));
    assert_eq!(
        action(&s),
        "WriteText { path: \"output/1700000000/page.html\", text: \"<html>\" }"
    );
}

#[test]
fn a_page_that_says_too_little_ends_the_import() {
    let mut job = at_page(false);
    let s = job.receive_page("<title>Not found</title>");
    assert_eq!(
        action(&s),
        "Finish(Err(Parse(\"Could not extract address and MLS info from HTML title\")))"
    );
    assert!(!job.is_acceptable(&Event::Done));
    assert!(!job.is_acceptable(&failed()));
}

#[test]
fn images_are_fetched_one_after_the_other() {
    let (mut job, s) = at_images(false, HTML);
    assert_eq!(
        sent(&s),
        vec![
            "HTML saved to output/1700000000/page.html",
            "Downloading 2 images sequentially...",
            "Downloading https://a.b/1/origin.webp...\n",
        ]
    );
    assert_eq!(action(&s), "CheckExists(\"output/1700000000/images/1.webp\")");
    let s = step(&mut job, Event::Exists(false));
    assert_eq!(
        action(&s),
        "FetchImage { link: \"https://a.b/1/origin.webp\", path: \"output/1700000000/images/1.webp\" }"
    );
    let s = step(&mut job, Event::Done);
    assert_eq!(sent(&s), vec![" -> Saved to output/1700000000/images/1.webp"]);
    assert_eq!(action(&s), "Sleep(3)");
    let s = step(&mut job, Event::Done);
    assert_eq!(sent(&s), vec!["Downloading https://a.b/2/origin.webp...\n"]);
    assert_eq!(shown(&s), vec!["Downloading https://a.b/2/origin.webp..."]);
    assert_eq!(action(&s), "CheckExists(\"output/1700000000/images/2.webp\")");
    let s = step(&mut job, Event::Exists(true));
    assert_eq!(
        sent(&s),
        vec![
            " -> File already exists. Skipping.",
            "Image download complete.\n",
            "Ensuring folder exists at 'Propertes'",
        ]
    );
    assert_eq!(shown(&s)[1], "Image download complete.");
    assert_eq!(
        action(&s),
        "MakeCollection(\"https://cloud/remote.php/dav/files/anna/Propertes\")"
    );
}

#[test]
fn a_lost_image_ends_the_import() {
    let (mut job, _) = at_images(false, HTML);
    step(&mut job, Event::Exists(false));
    let s = step(&mut job, Event::Failed(AppError::Request("404".to_string())));
    assert_eq!(action(&s), "Finish(Err(Request(\"404\")))");
}

#[test]
fn skipped_images_are_not_fetched() {
    let (_, s) = at_images(true, HTML);
    assert_eq!(
        sent(&s),
        vec![
            "HTML saved to output/1700000000/page.html",
            "Image download skipped.\n",
            "Ensuring folder exists at 'Propertes'",
        ]
    );
    assert_eq!(shown(&s)[1], "--skip-images flag is set, skipping download.");
}

#[test]
fn a_listing_without_images_goes_on_to_the_folders() {
    let html = HTML.replace("origin.webp", "small.webp");
    let (mut job, s) = at_images(false, &html);
    assert_eq!(
        sent(&s),
        vec![
            "HTML saved to output/1700000000/page.html",
            "Ensuring folder exists at 'Propertes'",
        ]
    );
    for _ in 0..3 {
        step(&mut job, status(405));
    }
    let s = step(&mut job, status(201));
    assert_eq!(
        sent(&s),
        vec![
            "Image upload complete.\n",
            "Downloading 'Templates/new-property.md' to 'output/1700000000/info.md'",
        ]
    );
    assert_eq!(
        action(&s),
        "GetRemote(\"https://cloud/remote.php/dav/files/anna/Templates/new-property.md\")"
    );
}

#[test]
fn folders_are_made_from_the_outermost_in() {
    let (mut job, _) = at_images(true, HTML);
    let folders = [
        "Propertes/1 Main St",
        "Propertes/1 Main St/images",
        "Propertes/1 Main St/images/compass",
    ];
    for folder in folders {
        let s = step(&mut job, status(405));
        assert_eq!(sent(&s), vec![format!("Ensuring folder exists at '{}'", folder)]);
        assert_eq!(
            action(&s),
            format!("MakeCollection(\"https://cloud/remote.php/dav/files/anna/{}\")", folder)
        );
    }
    let s = step(&mut job, status(201));
    assert_eq!(action(&s), "LoadFile(\"output/1700000000/images/1.webp\")");
    assert!(s.notices.is_empty());
}

#[test]
fn a_refused_folder_ends_the_import() {
    let (mut job, _) = at_images(true, HTML);
    let s = step(&mut job, status(409));
    assert_eq!(action(&s), "ReadBody");
    let s = step(&mut job, text("conflict"));
    assert_eq!(action(&s), "Finish(Err(Nextcloud { status: 409, body: \"conflict\" }))");

    let (mut job, _) = at_images(true, HTML);
    step(&mut job, status(500));
    let s = step(&mut job, failed());
    assert_eq!(action(&s), "Finish(Err(Nextcloud { status: 500, body: \"\" }))");
}

#[test]
fn images_are_uploaded() {
    let (mut job, s) = at_uploads();
    assert_eq!(action(&s), "LoadFile(\"output/1700000000/images/1.webp\")");
    let s = step(&mut job, Event::Done);
    assert_eq!(
        sent(&s),
        vec!["Uploading 'output/1700000000/images/1.webp' to 'Propertes/1 Main St/images/compass/1.webp'"]
    );
    assert_eq!(
        action(&s),
        "PutFile(\"https://cloud/remote.php/dav/files/anna/Propertes/1 Main St/images/compass/1.webp\")"
    );
    let s = step(&mut job, status(204));
    assert_eq!(action(&s), "LoadFile(\"output/1700000000/images/2.webp\")");
    assert!(s.notices.is_empty());
}

#[test]
fn images_that_cannot_be_uploaded_are_passed_over() {
    let (mut job, _) = at_uploads();
    let s = step(&mut job, failed());
    assert_eq!(sent(&s), vec!["Failed to upload 1.webp: File I/O error: disk\n"]);
    assert_eq!(action(&s), "LoadFile(\"output/1700000000/images/2.webp\")");
    step(&mut job, Event::Done);
    let s = step(&mut job, status(405));
    assert_eq!(action(&s), "ReadBody");
    let s = step(&mut job, text("no"));
    assert_eq!(
        sent(&s),
        vec![
            "Failed to upload 2.webp: Nextcloud server error: 405 Method Not Allowed - no\n",
            "Image upload complete.\n",
            "Downloading 'Templates/new-property.md' to 'output/1700000000/info.md'",
        ]
    );
    match &s.notices[0].console {
        Console::UploadFailure { file_name, error: AppError::Nextcloud { status, body } } => {
            assert_eq!(file_name, "2.webp");
            assert_eq!(*status, 405);
            assert_eq!(body, "no");
        }
        other => panic!("{:?}", other),
    }
}

#[test]
fn the_note_is_made_and_uploaded() {
    let mut job = at_template();
    let s = step(&mut job, status(200));
    assert_eq!(action(&s), "SaveBody(\"output/1700000000/info.md\")");
    let s = step(&mut job, Event::Done);
    assert_eq!(action(&s), "ReadText(\"output/1700000000/info.md\")");
    let s = step(&mut job, text("{{property address}}: {{price}}"));
    assert_eq!(
        action(&s),
        "WriteText { path: \"output/1700000000/info.md\", text: \"1 Main St, Springfield, IL 62701: $1,250,000\" }"
    );
    let s = step(&mut job, Event::Done);
    assert_eq!(action(&s), "LoadFile(\"output/1700000000/info.md\")");
    let s = step(&mut job, Event::Done);
    assert_eq!(
        sent(&s),
        vec!["Uploading 'output/1700000000/info.md' to 'Propertes/1 Main St/info.md'"]
    );
    assert_eq!(
        action(&s),
        "PutFile(\"https://cloud/remote.php/dav/files/anna/Propertes/1 Main St/info.md\")"
    );
    let s = step(&mut job, status(201));
    assert_eq!(
        sent(&s),
        vec!["Property info template updated and uploaded to Propertes/1 Main St/info.md"]
    );
    assert_eq!(action(&s), "Finish(Ok(()))");
    assert!(!job.is_acceptable(&Event::Done));
}

#[test]
fn a_refused_template_or_note_ends_the_import() {
    let mut job = at_template();
    step(&mut job, status(404));
    let s = step(&mut job, text("none"));
    assert_eq!(action(&s), "Finish(Err(Nextcloud { status: 404, body: \"none\" }))");

    let mut job = at_template();
    step(&mut job, status(200));
    step(&mut job, Event::Done);
    step(&mut job, text(""));
    step(&mut job, Event::Done);
    step(&mut job, Event::Done);
    let s = step(&mut job, status(507));
    assert_eq!(action(&s), "ReadBody");
    let s = step(&mut job, text("full"));
    assert_eq!(action(&s), "Finish(Err(Nextcloud { status: 507, body: \"full\" }))");
}

#[test]
fn failures_outside_the_uploads_end_the_import() {
    let mut job = new_job(false);
    step(&mut job, Event::Done);
    let s = step(&mut job, failed());
    assert_eq!(action(&s), "Finish(Err(Io(\"disk\")))");
    assert!(s.notices.is_empty());

    let mut job = at_template();
    let s = step(&mut job, failed());
    assert_eq!(action(&s), "Finish(Err(Io(\"disk\")))");
}

#[test]
fn events_that_do_not_fit_are_told_apart() {
    let job = new_job(false);
    assert!(job.is_acceptable(&Event::Done));
    assert!(!job.is_acceptable(&failed()));
    assert!(!job.is_acceptable(&status(200)));
    let job = at_template();
    assert!(job.is_acceptable(&status(200)));
    assert!(!job.is_acceptable(&status(42)));
    assert!(!job.is_acceptable(&text("")));
    let e = AppError::Nextcloud { status: 7, body: String::new() };
    assert!(!job.is_acceptable(&Event::Failed(e)));
}

#[test]
fn a_street_with_slashes_makes_nested_folders() {
    let html = HTML.replace("1 Main St", "1 Main St/Rear");
    let (mut job, _) = at_images(true, &html);
    let s = step(&mut job, status(201));
    assert_eq!(sent(&s), vec!["Ensuring folder exists at 'Propertes/1 Main St'"]);
    let s = step(&mut job, status(201));
    assert_eq!(sent(&s), vec!["Ensuring folder exists at 'Propertes/1 Main St/Rear'"]);
}

#[test]
fn the_account_of_the_job() {
    let job = new_job(false);
    assert_eq!(job.client().username(), "anna");
    assert_eq!(job.client().password(), "secret");
    assert_eq!(
        job.client().build_dav_url("x"),
        "https://cloud/remote.php/dav/files/anna/x"
    );
}

/// Runs an import to its end on a server that takes everything, and gives the
/// actions in their order.
fn run(job: &mut ListingJob) -> Vec<Action> {
    let mut actions = Vec::new();
    let mut s = step(job, Event::Done);
    for _ in 0..100 {
        let next = match &s.action {
            Action::FetchPage(_) => None,
            Action::FetchText(_) | Action::ReadText(_) | Action::ReadBody => Some(text("{{mls}}")),
            Action::CheckExists(_) => Some(Event::Exists(false)),
            Action::MakeCollection(_) | Action::PutFile(_) | Action::GetRemote(_) => {
                Some(status(201))
            }
            Action::Finish(_) => {
                actions.push(s.action);
                return actions;
            }
            _ => Some(Event::Done),
        };
        actions.push(s.action);
        s = match next {
            Some(event) => step(job, event),
            None => job.receive_page(HTML),
        };
    }
    panic!("the import does not end");
}

#[test]
fn a_whole_import_succeeds() {
    let mut job = new_job(false);
    let actions = run(&mut job);
    assert!(matches!(actions.last(), Some(Action::Finish(Ok(())))));
    let kinds = |found: fn(&Action) -> bool| actions.iter().filter(|a| found(a)).count();
    assert_eq!(kinds(|a| matches!(a, Action::FetchImage { .. })), 2);
    assert_eq!(kinds(|a| matches!(a, Action::Sleep(3))), 2);
    assert_eq!(kinds(|a| matches!(a, Action::MakeCollection(_))), 4);
    assert_eq!(kinds(|a| matches!(a, Action::PutFile(_))), 3);
    assert_eq!(kinds(|a| matches!(a, Action::GetRemote(_))), 1);
    assert_eq!(job.metadata().unwrap().image_links.len(), 2);
}

#[test]
fn a_whole_import_without_images_fetches_none() {
    let actions = run(&mut new_job(true));
    for action in &actions {
        assert!(!matches!(
            action,
            Action::CheckExists(_) | Action::FetchImage { .. } | Action::Sleep(_)
        ));
    }
    assert!(matches!(actions.last(), Some(Action::Finish(Ok(())))));
}

#[test]
fn requests_and_files_stay_where_they_belong() {
    let mut files: Vec<String> = Vec::new();
    for action in run(&mut new_job(false)) {
        match action {
            Action::MakeCollection(url) | Action::PutFile(url) | Action::GetRemote(url) => {
                assert!(url.starts_with("https://cloud/remote.php/dav/files/anna/"));
            }
            Action::FetchPage(url) | Action::FetchText(url) => assert_eq!(url, URL),
            Action::FetchImage { path, .. } => files.push(path),
            Action::CreateDirs(path)
            | Action::WriteMetadata(path)
            | Action::WriteText { path, .. }
            | Action::CheckExists(path)
            | Action::LoadFile(path)
            | Action::SaveBody(path)
            | Action::ReadText(path) => assert!(path.starts_with("output/1700000000/")),
            Action::OpenClient | Action::Sleep(_) | Action::ReadBody | Action::Finish(_) => {}
        }
    }
    assert_eq!(
        files,
        vec!["output/1700000000/images/1.webp", "output/1700000000/images/2.webp"]
    );
}

#[test]
fn images_that_are_there_are_passed_over() {
    let (mut job, s) = at_images(false, HTML);
    assert_eq!(action(&s), "CheckExists(\"output/1700000000/images/1.webp\")");
    let s = step(&mut job, Event::Exists(true));
    assert_eq!(action(&s), "CheckExists(\"output/1700000000/images/2.webp\")");
    let s = step(&mut job, Event::Exists(true));
    assert_eq!(
        action(&s),
        "MakeCollection(\"https://cloud/remote.php/dav/files/anna/Propertes\")"
    );
}

#[test]
fn an_import_on_windows_writes_backslashes() {
    let mut job = ListingJob::new(&config(true), URL, 1700000000, PathStyle::Windows);
    let s = step(&mut job, Event::Done);
    assert!(matches!(&s.action, Action::CreateDirs(dir) if dir == "output\\1700000000\\images"));
    step(&mut job, Event::Done);
    step(&mut job, Event::Done);
    let s = job.receive_page(HTML);
    assert!(matches!(
        &s.action,
        Action::WriteMetadata(path) if path == "output\\1700000000\\metadata.json"
    ));
    step(&mut job, Event::Done);
    step(&mut job, text("<html>"));
    step(&mut job, Event::Done);
    let s = step(&mut job, status(201));
    assert_eq!(sent(&s), vec!["Ensuring folder exists at 'Propertes\\1 Main St'"]);
    step(&mut job, status(201));
    step(&mut job, status(201));
    let s = step(&mut job, status(201));
    assert!(matches!(
        &s.action,
        Action::LoadFile(path) if path == "output\\1700000000\\images\\1.webp"
    ));
    let s = step(&mut job, Event::Done);
    assert_eq!(
        sent(&s),
        vec!["Uploading 'output\\1700000000\\images\\1.webp' to 'Propertes/1 Main St/images/compass/1.webp'"]
    );
}
