use ue::find::SearchRegex;
use ue::highlight::{get_file_extension, highlight_line, ColorSpec, SyntaxDefinition, SyntaxMatch};

fn make_color(fg: u8) -> ColorSpec {
    ColorSpec { fg: Some(fg), bg: None, bold: false, italic: false }
}

fn keywords(group: &str, words: &[&str]) -> SyntaxDefinition {
    SyntaxDefinition {
        keywords: vec![(group.to_string(), words.iter().map(|w| w.to_string()).collect())],
        matches: Vec::new(),
        colors: vec![(group.to_string(), make_color(4))],
    }
}

#[test]
fn highlight_keywords() {
    let def = keywords("Keyword", &["fn", "let"]);
    let line = "fn main() { let x = 5; }";
    let spans = highlight_line(line, &def);
    assert!(spans.iter().any(|s| s.start == 0 && s.end == 2));
    assert!(spans.iter().any(|s| s.start == 12 && s.end == 15));
}

#[test]
fn highlight_respects_word_boundaries() {
    let def = keywords("Keyword", &["in"]);
    let line = "in main inside";
    let spans = highlight_line(line, &def);
    assert_eq!(spans.len(), 1);
    assert_eq!(spans[0].start, 0);
    assert_eq!(spans[0].end, 2);
}

#[test]
fn get_extension_from_filename() {
    assert_eq!(get_file_extension("test.rs"), Some("rs".to_string()));
    assert_eq!(get_file_extension("/path/to/file.py"), Some("py".to_string()));
    assert_eq!(get_file_extension("noextension"), None);
    assert_eq!(get_file_extension(".hidden"), None);
}

#[test]
fn regex_spans_win_over_keywords_and_come_sorted() {
    let def = SyntaxDefinition {
        keywords: vec![("Keyword".to_string(), vec!["let".to_string(), "x".to_string()])],
        matches: vec![SyntaxMatch {
            group: "Comment".to_string(),
            pattern: SearchRegex::new("//.*".to_string()).unwrap(),
        }],
        colors: vec![("Keyword".to_string(), make_color(4)), ("Comment".to_string(), make_color(2))],
    };
    let line = "let x = 1; // let x";
    let spans = highlight_line(line, &def);
    let ranges: Vec<(usize, usize, Option<u8>)> = spans.iter().map(|s| (s.start, s.end, s.color_spec.fg)).collect();
    assert_eq!(ranges, vec![(0, 3, Some(4)), (4, 5, Some(4)), (11, 19, Some(2))]);
}

#[test]
fn groups_without_colors_are_not_highlighted() {
    let def = SyntaxDefinition {
        keywords: vec![("Type".to_string(), vec!["int".to_string()])],
        matches: Vec::new(),
        colors: Vec::new(),
    };
    assert!(highlight_line("int x", &def).is_empty());
}
