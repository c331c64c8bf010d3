use listing_importer::config::{Config, Environment};
use listing_importer::error::AppError;
use listing_importer::nextcloud::{folder_ready, is_success, NextcloudClient};
use listing_importer::paths::{folders_down_to, join, PathStyle};
use std::path::{Path, PathBuf};

#[test]
fn folders_agree_with_std_paths() {
    let paths = [
        "", ".", "./", "/", "//", "a", "a/", "a/b", "a//b", "/a/b", "//a", "./a", "a/./b", "a/.",
        "../a", "a/../b", "..", ".hidden/x", "a/..b", "/./a", "Propertes/1 Main St/images/compass",
    ];
    for path in paths {
        let mut current = PathBuf::new();
        let mut expected: Vec<String> = Vec::new();
        for component in Path::new(path).components() {
            current.push(component);
            expected.push(current.to_str().unwrap().to_string());
        }
        assert_eq!(folders_down_to(PathStyle::Unix, path), expected, "{}", path);
    }
}

#[test]
fn joining_agrees_with_std_paths() {
    for base in ["", "a", "a/", "/", "/a/b", "out put"] {
        for name in ["images", "1.webp", "/abs", "", "x/y"] {
            assert_eq!(join(PathStyle::Unix, base, name), Path::new(base).join(name).to_str().unwrap());
        }
    }
}

#[test]
fn plain_paths_are_reached() {
    let made = folders_down_to(PathStyle::Unix, "Propertes/1 Main St/images/compass");
    assert_eq!(
        made,
        vec![
            "Propertes",
            "Propertes/1 Main St",
            "Propertes/1 Main St/images",
            "Propertes/1 Main St/images/compass",
        ]
    );
}

#[test]
fn addresses_of_the_account() {
    let client = NextcloudClient::new("https://cloud.example.com//", "anna", "secret");
    assert_eq!(client.username(), "anna");
    assert_eq!(client.password(), "secret");
    let expected = "https://cloud.example.com/remote.php/dav/files/anna/Templates/x.md";
    assert_eq!(client.build_dav_url("Templates/x.md"), expected);
    assert_eq!(client.build_dav_url("//Templates/x.md"), expected);
    assert_eq!(
        client.build_dav_url("a/"),
        "https://cloud.example.com/remote.php/dav/files/anna/a/"
    );
    let same = NextcloudClient::new("https://cloud.example.com", "anna", "secret");
    assert_eq!(same.build_dav_url("Templates/x.md"), expected);
    assert_ne!(same.build_dav_url("a"), same.build_dav_url("b"));
    assert_ne!(same.build_dav_url("/a"), same.build_dav_url("//b"));
    assert_eq!(same.build_dav_url("/"), same.build_dav_url(""));
}

#[test]
fn success_agrees_with_the_http_library_on_every_status() {
    for status in 100u16..=999 {
        let code = reqwest::StatusCode::from_u16(status).unwrap();
        assert_eq!(is_success(status), code.is_success());
        assert_eq!(
            folder_ready(status),
            code.is_success() || code == reqwest::StatusCode::METHOD_NOT_ALLOWED
        );
    }
}

#[test]
fn answers_are_checked() {
    assert!(NextcloudClient::check_response(201, None).is_ok());
    match NextcloudClient::check_response(507, Some("full".to_string())) {
        Err(AppError::Nextcloud { status, body }) => {
            assert_eq!(status, 507);
            assert_eq!(body, "full");
        }
        other => panic!("{:?}", other),
    }
    match NextcloudClient::check_response(405, None) {
        Err(AppError::Nextcloud { status, body }) => {
            assert_eq!(status, 405);
            assert_eq!(body, "");
        }
        other => panic!("{:?}", other),
    }
}

fn set(value: &str) -> Result<String, String> {
    Ok(value.to_string())
}

fn unset() -> Result<String, String> {
    Err("environment variable not found".to_string())
}

fn environment() -> Environment {
    Environment {
        output_dir: unset(),
        download_delay_secs: unset(),
        skip_images: unset(),
        nc_url: set("https://cloud"),
        nc_username: set("anna"),
        nc_password: set("secret"),
    }
}

#[test]
fn settings_have_defaults() {
    let config = Config::from_env(environment()).unwrap();
    assert_eq!(config.output_dir, "output");
    assert_eq!(config.download_delay_secs, 2);
    assert!(!config.skip_images);
    assert_eq!(config.nc_url, "https://cloud");
    assert_eq!(config.nc_user, "anna");
    assert_eq!(config.nc_pass, "secret");
}

#[test]
fn settings_are_taken_from_the_environment() {
    let config = Config::from_env(Environment {
        output_dir: set("/srv/out"),
        download_delay_secs: set("15"),
        skip_images: set(""),
        ..environment()
    })
    .unwrap();
    assert_eq!(config.output_dir, "/srv/out");
    assert_eq!(config.download_delay_secs, 15);
    assert!(config.skip_images);
}

#[test]
fn a_delay_that_is_no_number_is_two_seconds() {
    for text in ["", "soon", "-1", "1.5", " 3", "18446744073709551616"] {
        let config =
            Config::from_env(Environment { download_delay_secs: set(text), ..environment() });
        assert_eq!(config.unwrap().download_delay_secs, 2);
    }
    let config = Config::from_env(Environment { download_delay_secs: set("+7"), ..environment() });
    assert_eq!(config.unwrap().download_delay_secs, 7);
}

fn config_error(env: Environment) -> String {
    match Config::from_env(env) {
        Err(AppError::Config(why)) => why,
        other => panic!("{:?}", other),
    }
}

#[test]
fn the_first_missing_setting_is_reported() {
    let why = |text: &str| -> Result<String, String> { Err(text.to_string()) };
    assert_eq!(
        config_error(Environment {
            nc_url: why("url"),
            nc_username: why("user"),
            nc_password: why("pass"),
            ..environment()
        }),
        "url"
    );
    assert_eq!(
        config_error(Environment {
            nc_username: why("user"),
            nc_password: why("pass"),
            ..environment()
        }),
        "user"
    );
    assert_eq!(config_error(Environment { nc_password: why("pass"), ..environment() }), "pass");
}

#[test]
fn joining_on_windows() {
    let cases = [
        ("", "x", "x"),
        ("out", "images", "out\\images"),
        ("out\\", "images", "out\\images"),
        ("out/", "images", "out/images"),
        ("a/b", "1.webp", "a/b\\1.webp"),
        ("C:", "17", "C:17"),
        ("C:\\", "17", "C:\\17"),
        ("C:\\out", "17", "C:\\out\\17"),
        ("\\\\server\\share", "17", "\\\\server\\share\\17"),
        ("\\\\?\\C:\\out/", "17", "\\\\?\\C:\\out/\\17"),
        ("out", "D:x", "D:x"),
        ("\\\\?\\C:\\out", "17", "\\\\?\\C:\\out\\17"),
        ("\\\\?\\C:\\out\\", "17", "\\\\?\\C:\\out\\17"),
        ("\\\\?\\C:\\x\\\\y", "17", "\\\\?\\C:\\x\\y\\17"),
        ("\\\\?\\C:", "17", "\\\\?\\C:\\17"),
        ("\\\\?\\C:/x", "17", "\\\\?\\C:\\x\\17"),
        ("\\\\?\\C:x/y", "17", "\\\\?\\C:x/y\\17"),
        ("\\\\?\\", "17", "\\\\?\\\\17"),
        ("\\\\?\\UNC\\server\\share\\\\x\\", "17", "\\\\?\\UNC\\server\\share\\x\\17"),
        ("\\\\?\\UNC\\server", "17", "\\\\?\\UNC\\server\\17"),
        ("\\\\?\\UNC\\\\share", "17", "\\\\?\\UNC\\\\share\\17"),
        ("\\\\?\\C:\\a\\.\\b", "17", "\\\\?\\C:\\a\\.\\b\\17"),
    ];
    for (base, name, expected) in cases {
        assert_eq!(join(PathStyle::Windows, base, name), expected);
    }
}

#[test]
fn folders_on_windows() {
    let folders = |path: &str| folders_down_to(PathStyle::Windows, path);
    assert_eq!(
        folders("Propertes/1 Main St/images/compass"),
        vec![
            "Propertes",
            "Propertes\\1 Main St",
            "Propertes\\1 Main St\\images",
            "Propertes\\1 Main St\\images\\compass",
        ]
    );
    assert_eq!(folders("a\\b/./c//"), vec!["a", "a\\b", "a\\b\\c"]);
    assert_eq!(folders("/a"), vec!["\\", "\\a"]);
    assert_eq!(folders(".\\a"), vec![".", ".\\a"]);
    assert_eq!(folders("a/C:/b"), vec!["a", "C:", "C:b"]);
}

#[test]
fn a_name_behind_a_verbatim_path_settles_it() {
    for base in ["\\\\?\\C:\\x\\\\y\\", "\\\\?\\C:/x", "\\\\?\\", "\\\\?\\UNC", "\\\\?", "out"] {
        let settled = join(PathStyle::Windows, base, "17");
        assert_eq!(join(PathStyle::Windows, &settled, "images"), format!("{}\\images", settled));
    }
}
