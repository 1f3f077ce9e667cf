use httpdir::listing::{render_listing, FsEntry};

fn dir_entry(name: &str, path: &str) -> FsEntry {
    FsEntry { name: Some(name.to_string()), path: path.to_string(), is_dir: true }
}

fn file_entry(name: &str, path: &str) -> FsEntry {
    FsEntry { name: Some(name.to_string()), path: path.to_string(), is_dir: false }
}

fn page(title: &str, body: &str) -> String {
    format!(
        "<!DOCTYPE html>\n<html lang=\"en\">\n<head>\n<meta charset=\"UTF-8\">\n<meta name=\"viewport\" content=\"width=device-width, initial-scale=1.0\">\n<title>{}</title>\n<link rel=\"stylesheet\" href=\"https://cdn.jsdelivr.net/npm/@picocss/pico@2/css/pico.min.css\"/>\n</head>\n<body>\n{}\n</body>\n</html>\n",
        title, body
    )
}

#[test]
fn scenario_root_listing_shows_only_visible_directory() {
    let entries = vec![
        dir_entry("a", "/srv/a"),
        dir_entry(".hidden", "/srv/.hidden"),
        file_entry("readme.txt", "/srv/readme.txt"),
    ];
    let rendered = render_listing("/srv", Some(entries));
    assert_eq!(rendered, page("/srv", "<a href='a'>/srv/a</a>"));
    assert_eq!(rendered.matches("<a ").count(), 1);
    assert!(!rendered.contains(".hidden"));
    assert!(!rendered.contains("readme.txt"));
}

#[test]
fn scenario_missing_target_renders_empty_listing() {
    let rendered = render_listing("/srv/missing", None);
    assert_eq!(rendered, page("/srv/missing", ""));
    assert_eq!(rendered.matches("<a ").count(), 0);
}

#[test]
fn empty_directory_renders_like_missing_one() {
    let empty = render_listing("/srv/x", Some(Vec::new()));
    let missing = render_listing("/srv/x", None);
    assert_eq!(empty, missing);
}

#[test]
fn anchors_are_joined_with_line_breaks_in_enumeration_order() {
    let entries = vec![
        dir_entry("beta", "/root/beta"),
        dir_entry("alpha", "/root/alpha"),
        dir_entry("gamma", "/root/gamma"),
    ];
    let rendered = render_listing("/root", Some(entries));
    let body = "<a href='beta'>/root/beta</a>\n<br/>\n<a href='alpha'>/root/alpha</a>\n<br/>\n<a href='gamma'>/root/gamma</a>";
    assert_eq!(rendered, page("/root", body));
}

#[test]
fn undecodable_name_is_omitted_not_fatal() {
    let entries = vec![
        FsEntry { name: None, path: "/srv/mystery".to_string(), is_dir: true },
        dir_entry("kept", "/srv/kept"),
    ];
    let rendered = render_listing("/srv", Some(entries));
    assert_eq!(rendered, page("/srv", "<a href='kept'>/srv/kept</a>"));
}

#[test]
fn dot_and_dot_dot_names_count_as_hidden() {
    let entries = vec![
        dir_entry(".", "/srv/."),
        dir_entry("..", "/srv/.."),
        dir_entry(".git", "/srv/.git"),
    ];
    let rendered = render_listing("/srv", Some(entries));
    assert_eq!(rendered, page("/srv", ""));
}

#[test]
fn plain_files_are_never_listed() {
    let entries = vec![file_entry("a.txt", "/srv/a.txt"), file_entry("b.txt", "/srv/b.txt")];
    let rendered = render_listing("/srv", Some(entries));
    assert_eq!(rendered, page("/srv", ""));
}

#[test]
fn rendering_twice_is_byte_identical() {
    let make = || vec![dir_entry("a", "/srv/a"), dir_entry("b", "/srv/b")];
    let first = render_listing("/srv", Some(make()));
    let second = render_listing("/srv", Some(make()));
    assert_eq!(first, second);
    let third = render_listing("/gone", None);
    let fourth = render_listing("/gone", None);
    assert_eq!(third, fourth);
}

#[test]
fn title_is_the_target_path() {
    let rendered = render_listing("/srv/sub dir", Some(Vec::new()));
    assert!(rendered.contains("<title>/srv/sub dir</title>"));
}
