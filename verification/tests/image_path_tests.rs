use hailux_tui::clipboard::{image_path_from_paste, mime_from_extension};

fn chars(s: &str) -> Vec<char> {
    s.chars().collect()
}

#[test]
fn image_path_from_paste_accepts_single_image_file() {
    let p = image_path_from_paste(r#"C:\Users\a b\Pictures\shot.png"#, true);
    assert!(p.is_some());
    let p = image_path_from_paste(r#""C:\Users\a b\Pictures\shot.png""#, true);
    assert!(p.is_some());
}

#[test]
fn image_path_from_paste_rejects_non_single_image() {
    assert!(image_path_from_paste(r#""C:\a.png" "C:\b.png""#, true).is_none());
    assert!(image_path_from_paste(r"pictures\shot.png", true).is_none());
    assert!(image_path_from_paste(r"C:\docs\readme.txt", true).is_none());
    assert!(image_path_from_paste("hello world", true).is_none());
    assert!(image_path_from_paste("", true).is_none());
}

#[test]
fn quoted_path_is_unwrapped_and_trimmed() {
    assert_eq!(
        image_path_from_paste("  \"C:\\pics\\a.JPG\"\n", true),
        Some("C:\\pics\\a.JPG".to_string())
    );
    assert_eq!(
        image_path_from_paste("\\\\server\\share\\cat.webp", true),
        Some("\\\\server\\share\\cat.webp".to_string())
    );
}

#[test]
fn unix_paths_need_a_leading_slash() {
    assert_eq!(
        image_path_from_paste("/home/me/shot.gif", false),
        Some("/home/me/shot.gif".to_string())
    );
    assert!(image_path_from_paste("C:\\pics\\a.png", false).is_none());
    assert!(image_path_from_paste("/home/me/notes.md", false).is_none());
    let long = format!("/{}.png", "a".repeat(1100));
    assert!(image_path_from_paste(&long, false).is_none());
}

#[test]
fn mime_by_extension() {
    assert_eq!(mime_from_extension(&chars("/x/y.PNG"), false), Some("image/png".to_string()));
    assert_eq!(mime_from_extension(&chars("/x/y.jpeg"), false), Some("image/jpeg".to_string()));
    assert_eq!(mime_from_extension(&chars("/x/.png"), false), None);
    assert_eq!(mime_from_extension(&chars("/x/y.png/"), false), Some("image/png".to_string()));
    assert_eq!(mime_from_extension(&chars("C:\\x\\y.gif"), true), Some("image/gif".to_string()));
    assert_eq!(mime_from_extension(&chars("C:\\x\\y.gif"), false), Some("image/gif".to_string()));
    assert_eq!(mime_from_extension(&chars("/x/y"), false), None);
}
