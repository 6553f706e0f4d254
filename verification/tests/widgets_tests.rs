use a2native::form::FormResult;
use a2native::protocol::{ButtonAction, SelectOption};
use a2native::widgets::{
    accept_extensions, button_result, commit_tags, dropdown_label, image_file, image_path,
    image_placeholder, multi_select_summary, safe_image_path, tag_pieces_of, toggle_selection,
};

fn opts(pairs: &[(&str, &str)]) -> Vec<SelectOption> {
    pairs.iter().map(|(v, l)| SelectOption { value: v.to_string(), label: l.to_string() }).collect()
}

fn strings(v: &[&str]) -> Vec<String> {
    v.iter().map(|s| s.to_string()).collect()
}

#[test]
fn dropdown_shows_label_of_value() {
    let o = opts(&[("r", "Red"), ("b", "Blue"), ("r", "Again")]);
    assert_eq!(dropdown_label(&o, "b"), "Blue");
    assert_eq!(dropdown_label(&o, "r"), "Red");
    assert_eq!(dropdown_label(&o, ""), "-- Select --");
}

#[test]
fn toggling_choices() {
    let mut sel = strings(&["a", "b", "a"]);
    toggle_selection(&mut sel, "c", true);
    assert_eq!(sel, strings(&["a", "b", "a", "c"]));
    toggle_selection(&mut sel, "b", true);
    assert_eq!(sel, strings(&["a", "b", "a", "c"]));
    toggle_selection(&mut sel, "a", false);
    assert_eq!(sel, strings(&["b", "c"]));
}

#[test]
fn multi_select_summaries() {
    let o = opts(&[("1", "One"), ("2", "Two"), ("3", "Three"), ("4", "Four")]);
    assert_eq!(multi_select_summary(&o, &vec![], &None), "-- Select --");
    assert_eq!(multi_select_summary(&o, &vec![], &Some("Pick".to_string())), "Pick");
    assert_eq!(multi_select_summary(&o, &strings(&["3", "1"]), &None), "One, Three");
    assert_eq!(multi_select_summary(&o, &strings(&["1", "2", "3", "4"]), &None), "4 selected");
    assert_eq!(multi_select_summary(&o, &strings(&["x"]), &None), "");
}

#[test]
fn typed_tags() {
    assert_eq!(tag_pieces_of(" rust, cli ,,x "), strings(&["rust", "cli", "x"]));
    let mut tags = strings(&["rust"]);
    commit_tags(&mut tags, "cli, rust, web", Some(3));
    assert_eq!(tags, strings(&["rust", "cli", "web"]));
    commit_tags(&mut tags, "more", Some(3));
    assert_eq!(tags, strings(&["rust", "cli", "web"]));
    commit_tags(&mut tags, "a,b", None);
    assert_eq!(tags, strings(&["rust", "cli", "web", "a", "b"]));
    let mut few = Vec::new();
    commit_tags(&mut few, "a,b,c", Some(2));
    assert_eq!(few, strings(&["a", "b"]));
}

#[test]
fn accepted_extensions() {
    assert_eq!(accept_extensions(".png, *.jpg,gif"), strings(&["png", "jpg", "gif"]));
    assert_eq!(accept_extensions(""), strings(&[""]));
    assert_eq!(accept_extensions("..*.*.x"), strings(&["x"]));
}

#[test]
fn buttons() {
    assert_eq!(button_result(ButtonAction::Submit), Some(FormResult::Submitted));
    assert_eq!(button_result(ButtonAction::Cancel), Some(FormResult::Cancelled));
    assert_eq!(button_result(ButtonAction::Custom), None);
}

#[test]
fn images() {
    assert_eq!(image_placeholder(&Some("logo".to_string()), "a.png"), "[image: logo]");
    assert_eq!(image_placeholder(&None, "a.png"), "[image: a.png]");
    assert_eq!(image_path("http://x/a.png"), None);
    assert_eq!(image_path("https://x/a.png"), None);
    assert_eq!(image_path("file://img/a.png"), Some("img/a.png".to_string()));
    assert_eq!(image_path("img/a.png"), Some("img/a.png".to_string()));
}

#[test]
fn toggling_keeps_choices_distinct() {
    let mut sel = strings(&["a", "b"]);
    for (v, on) in [("a", true), ("c", true), ("c", true), ("b", false), ("b", true), ("a", false)] {
        toggle_selection(&mut sel, v, on);
        let mut seen = sel.clone();
        seen.sort();
        seen.dedup();
        assert_eq!(seen.len(), sel.len());
    }
    assert_eq!(sel, strings(&["c", "b"]));
}

#[test]
fn image_files_stay_inside_the_working_directory() {
    assert!(safe_image_path("img/a.png"));
    assert!(safe_image_path("a..b/c.png"));
    assert!(!safe_image_path("/etc/a.png"));
    assert!(!safe_image_path("../a.png"));
    assert!(!safe_image_path("img/../../a.png"));
    assert!(!safe_image_path("img/.."));
    assert_eq!(image_file("file://img/a.png"), Some("img/a.png".to_string()));
    assert_eq!(image_file("file:///etc/passwd"), None);
    assert_eq!(image_file("https://x/a.png"), None);
    assert_eq!(image_file("img/../x.png"), None);
}

#[test]
fn committed_tags_come_from_the_typed_text() {
    let mut tags = strings(&["a"]);
    commit_tags(&mut tags, " b , ,a, c ", Some(3));
    assert_eq!(tags, strings(&["a", "b", "c"]));
    let mut sel = strings(&["x"]);
    toggle_selection(&mut sel, "y", true);
    assert_eq!(sel, strings(&["x", "y"]));
}
