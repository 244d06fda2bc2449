use mcpatch::file_status::{Observation, SingleFileStatus, StateTable};
use mcpatch::listing::{api_list, requested_path, status_key, Entry, ListError};
use mcpatch::terminal::api_more;

fn entry(name: &str, is_directory: bool, len: u64, status: SingleFileStatus) -> Entry {
    Entry { name: name.to_string(), is_directory, len, created: 11, modified: 22, status }
}

#[test]
fn a_listing_without_a_path_is_refused() {
    let entries = vec![entry("a", false, 1, SingleFileStatus::Keep)];
    assert_eq!(api_list(None, Some(&entries)).err(), Some(ListError::MissingPath));
    assert_eq!(api_list(None, None).err(), Some(ListError::MissingPath));
}

#[test]
fn a_listing_of_no_directory_is_refused() {
    assert_eq!(api_list(Some("nowhere"), None).err(), Some(ListError::NotADirectory));
}

#[test]
fn list_errors_are_answered_with_500_and_a_message() {
    assert_eq!(ListError::MissingPath.status(), 500);
    assert_eq!(ListError::NotADirectory.status(), 500);
    assert_eq!(ListError::MissingPath.message(), "parameter 'path' is missing.");
    assert_eq!(ListError::NotADirectory.message(), "file not exists.");
}

#[test]
fn a_listing_has_one_row_for_each_entry() {
    let entries = vec![
        entry("readme.md", false, 120, SingleFileStatus::Modified),
        entry("mods", true, 4096, SingleFileStatus::Added),
        entry("empty", false, 0, SingleFileStatus::Keep),
    ];
    let files = api_list(Some(""), Some(&entries)).ok().unwrap();
    assert_eq!(files.len(), 3);
    assert_eq!(files[0].name, "readme.md");
    assert!(!files[0].is_directory);
    assert_eq!(files[0].size, 120);
    assert_eq!(files[0].ctime, 11);
    assert_eq!(files[0].mtime, 22);
    assert_eq!(files[0].state, "Modified");
    assert_eq!(files[1].name, "mods");
    assert!(files[1].is_directory);
    assert_eq!(files[1].size, 0);
    assert_eq!(files[1].state, "Added");
    assert_eq!(files[2].size, 0);
    assert_eq!(files[2].state, "Keep");
}

#[test]
fn a_listing_of_an_empty_directory_is_empty() {
    let files = api_list(Some("mods"), Some(&Vec::new())).ok().unwrap();
    assert!(files.is_empty());
}

#[test]
fn every_state_has_its_label() {
    assert_eq!(SingleFileStatus::Keep.name(), "Keep");
    assert_eq!(SingleFileStatus::Added.name(), "Added");
    assert_eq!(SingleFileStatus::Modified.name(), "Modified");
    assert_eq!(SingleFileStatus::Missing.name(), "Missing");
    assert_eq!(SingleFileStatus::Gone.name(), "Gone");
    assert_eq!(SingleFileStatus::Come.name(), "Come");
    assert_eq!(entry("x", false, 1, SingleFileStatus::Gone).to_file().state, "Gone");
}

#[test]
fn the_requested_path_is_trimmed() {
    assert_eq!(requested_path(Some("  mods/a \t\n")), Ok("mods/a".to_string()));
    assert_eq!(requested_path(Some("a b")), Ok("a b".to_string()));
    assert_eq!(requested_path(Some("")), Ok(String::new()));
    assert_eq!(requested_path(Some(" \r\n ")), Ok(String::new()));
    assert_eq!(requested_path(None), Err(ListError::MissingPath));
}

#[test]
fn trimming_goes_by_the_unicode_white_space_property() {
    let spaces = "\u{9}\u{a}\u{b}\u{c}\u{d}\u{20}\u{85}\u{a0}\u{1680}\u{2000}\u{2005}\u{200a}\u{2028}\u{2029}\u{202f}\u{205f}\u{3000}";
    let text = format!("{}x{}", spaces, spaces);
    assert_eq!(requested_path(Some(&text)), Ok("x".to_string()));
    for other in ["\u{200b}", "\u{180e}", "\u{feff}", "\u{1f}", "\u{8}", "\u{e}", "\u{2060}", "\u{200b}x\u{200b}"] {
        assert_eq!(requested_path(Some(other)), Ok(other.to_string()));
    }
}

#[test]
fn status_keys_are_written_with_forward_slashes() {
    assert_eq!(status_key("mods\\sub\\a.jar"), "mods/sub/a.jar");
    assert_eq!(status_key("mods/sub/a.jar"), "mods/sub/a.jar");
    assert_eq!(status_key("\\"), "/");
    assert_eq!(status_key(""), "");
    assert_eq!(status_key("模组\\甲.jar"), "模组/甲.jar");
}

#[test]
fn observations_select_their_row() {
    let all = [false, true];
    let mut seen = Vec::new();
    for in_baseline in all {
        for on_disk in all {
            for content_changed in all {
                seen.push(Observation { in_baseline, on_disk, content_changed }.index());
            }
        }
    }
    assert_eq!(seen, vec![0, 1, 2, 3, 4, 5, 6, 7]);
}

#[test]
fn the_table_is_looked_up_by_row() {
    let table = StateTable::new([
        SingleFileStatus::Gone,
        SingleFileStatus::Gone,
        SingleFileStatus::Added,
        SingleFileStatus::Come,
        SingleFileStatus::Missing,
        SingleFileStatus::Missing,
        SingleFileStatus::Keep,
        SingleFileStatus::Modified,
    ]);
    let seen = |in_baseline, on_disk, content_changed| {
        table.classify(Observation { in_baseline, on_disk, content_changed })
    };
    assert_eq!(seen(true, true, false), SingleFileStatus::Keep);
    assert_eq!(seen(true, true, true), SingleFileStatus::Modified);
    assert_eq!(seen(false, true, false), SingleFileStatus::Added);
    assert_eq!(seen(false, true, true), SingleFileStatus::Come);
    assert_eq!(seen(true, false, false), SingleFileStatus::Missing);
    assert_eq!(seen(false, false, true), SingleFileStatus::Gone);
}

#[test]
fn the_log_is_joined_line_by_line() {
    let logs = vec!["first".to_string(), "".to_string(), "third".to_string()];
    assert_eq!(api_more(&logs).content, "first\n\nthird\n");
    assert_eq!(api_more(&Vec::new()).content, "");
    assert_eq!(api_more(&vec!["only".to_string()]).content, "only\n");
}
