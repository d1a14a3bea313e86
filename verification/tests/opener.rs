use espanso_helper::location::{snippet_path, ComponentPath, Failure};
use espanso_helper::opener::{folder_launch, Launch, Platform};

fn path(parts: &[&str]) -> ComponentPath {
    ComponentPath { parts: parts.iter().map(|part| part.to_string()).collect() }
}

#[test]
fn platforms_go_by_their_names() {
    assert_eq!(Platform::from_os_name("windows"), Platform::Windows);
    assert_eq!(Platform::from_os_name("linux"), Platform::Linux);
    assert_eq!(Platform::from_os_name("macos"), Platform::MacOs);
}

#[test]
fn other_names_are_other_platforms() {
    assert_eq!(Platform::from_os_name("freebsd"), Platform::Other);
    assert_eq!(Platform::from_os_name(""), Platform::Other);
    assert_eq!(Platform::from_os_name("Windows"), Platform::Other);
    assert_eq!(Platform::from_os_name("linux "), Platform::Other);
}

#[test]
fn each_platform_has_its_program() {
    assert_eq!(Platform::Windows.launcher(), Some("explorer"));
    assert_eq!(Platform::Linux.launcher(), Some("xdg-open"));
    assert_eq!(Platform::MacOs.launcher(), Some("open"));
}

#[test]
fn other_platforms_have_no_program() {
    assert_eq!(Platform::Other.launcher(), None);
}

#[test]
fn folder_of_the_snippet_file_is_opened() {
    let file = snippet_path(Some("/home/jane".to_string()), Some("AppData".to_string()))
        .expect("both values given");
    assert_eq!(
        folder_launch(Platform::Linux, &file),
        Ok(Some(Launch {
            program: "xdg-open".to_string(),
            folder: path(&["/home/jane", "AppData", "espanso", "match"]),
        }))
    );
}

#[test]
fn program_follows_the_platform() {
    let file = path(&["a", "b"]);
    assert_eq!(
        folder_launch(Platform::Windows, &file),
        Ok(Some(Launch { program: "explorer".to_string(), folder: path(&["a"]) }))
    );
    assert_eq!(
        folder_launch(Platform::MacOs, &file),
        Ok(Some(Launch { program: "open".to_string(), folder: path(&["a"]) }))
    );
}

#[test]
fn nothing_is_started_on_other_platforms() {
    assert_eq!(folder_launch(Platform::Other, &path(&["a", "b"])), Ok(None));
}

#[test]
fn file_without_parent_is_a_path_failure() {
    assert_eq!(folder_launch(Platform::Linux, &path(&[])), Err(Failure::Path));
    assert_eq!(folder_launch(Platform::Other, &path(&[])), Err(Failure::Path));
}

#[test]
fn cloned_launch_is_equal() {
    let launch = Launch { program: "xdg-open".to_string(), folder: path(&["a", "b"]) };
    assert_eq!(launch.clone(), launch);
}
