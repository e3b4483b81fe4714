use raccoon::diff::DiffDocument;
use raccoon::highlight::{highlight, Highlighter, SyntaxToken, MAX_HIGHLIGHTED_FILE_BYTES};

#[test]
fn highlights_rust_tokens_inside_diff_lines() {
    let document = DiffDocument::parse(
        b"diff --git a/main.rs b/main.rs\n--- a/main.rs\n+++ b/main.rs\n@@ -0,0 +1,2 @@\n+fn main() {\n+    // hello\n"
            .to_vec(),
    );
    let highlighted = highlight(&document).unwrap();
    assert!(highlighted.lines[4].iter().any(|span| span.token == SyntaxToken::Function));
    assert!(highlighted.lines[5].iter().any(|span| span.token == SyntaxToken::Comment));
}

#[test]
fn skips_files_over_the_size_limit() {
    let mut source =
        String::from("diff --git a/large.rs b/large.rs\n--- a/large.rs\n+++ b/large.rs\n@@ -0,0 +1,1 @@\n+");
    source.push_str(&"x".repeat(MAX_HIGHLIGHTED_FILE_BYTES + 1));
    source.push('\n');
    let document = DiffDocument::parse(source.into_bytes());
    let highlighted = highlight(&document).unwrap();
    assert_eq!(highlighted.skipped_files, 1);
    assert!(highlighted.lines.iter().all(Vec::is_empty));
}

#[test]
fn spans_stay_inside_the_code_and_skip_headers() {
    let document = DiffDocument::parse(
        b"diff --git a/lib.rs b/lib.rs\n--- a/lib.rs\n+++ b/lib.rs\n@@ -1,2 +1,2 @@\n let x = 1;\n-let s = \"old\";\n+let s = \"new\";\n"
            .to_vec(),
    );
    let highlighted = Highlighter::new().highlight(&document).unwrap();
    assert_eq!(highlighted.lines.len(), document.lines.len());
    assert_eq!(highlighted.skipped_files, 0);
    for index in 0..4 {
        assert!(highlighted.lines[index].is_empty());
    }
    for (index, spans) in highlighted.lines.iter().enumerate() {
        let code = document.line_text(&document.lines[index]).len().saturating_sub(1);
        let mut end = 1;
        for span in spans {
            assert!(span.range.start >= end && span.range.start < span.range.end && span.range.end <= code + 1);
            end = span.range.end;
        }
    }
    assert!(highlighted.lines[5].iter().any(|span| span.token == SyntaxToken::String));
    assert!(highlighted.lines[6].iter().any(|span| span.token == SyntaxToken::String));
}

#[test]
fn documents_without_code_lines_highlight_to_nothing() {
    let document = DiffDocument::parse(b"diff --git a/x.rs b/x.rs\nBinary files a/x.rs and b/x.rs differ\n".to_vec());
    let highlighted = highlight(&document).unwrap();
    assert_eq!(highlighted.lines.len(), document.lines.len());
    assert!(highlighted.lines.iter().all(|spans| spans.is_empty()));
    assert_eq!(highlighted.skipped_files, 0);
}

#[test]
fn spans_lie_on_character_boundaries() {
    let document = DiffDocument::parse(
        "diff --git a/m.rs b/m.rs\n--- a/m.rs\n+++ b/m.rs\n@@ -0,0 +1 @@\n+let s = \"héllo wörld\"; // ünï\n"
            .as_bytes()
            .to_vec(),
    );
    let highlighted = highlight(&document).unwrap();
    let line = &document.lines[4];
    let text = document.line_text(line);
    assert!(!highlighted.lines[4].is_empty());
    for span in &highlighted.lines[4] {
        assert!(text.is_char_boundary(span.range.start));
        assert!(text.is_char_boundary(span.range.end));
        assert!(1 <= span.range.start && span.range.start < span.range.end && span.range.end <= text.len());
    }
    assert!(highlighted.lines[4].iter().any(|span| span.token == SyntaxToken::String));
}

#[test]
fn drawn_lines_split_into_plain_and_highlighted_stretches() {
    let spans = vec![
        raccoon::highlight::HighlightSpan { range: 2..4, token: SyntaxToken::Keyword },
        raccoon::highlight::HighlightSpan { range: 4..6, token: SyntaxToken::String },
    ];
    let segments = raccoon::viewer::line_segments(10, 1, &spans);
    let view: Vec<(usize, usize, Option<SyntaxToken>)> = segments.iter().map(|s| (s.start, s.end, s.token)).collect();
    assert_eq!(
        view,
        vec![(1, 2, None), (2, 4, Some(SyntaxToken::Keyword)), (4, 6, Some(SyntaxToken::String)), (6, 10, None)]
    );
    assert!(raccoon::viewer::line_segments(1, 1, &[]).is_empty());
}

#[test]
fn file_exactly_at_the_size_limit_is_highlighted() {
    let source = format!("diff --git a/a b/a\n+{}\ndiff --git a/b b/b\n+y\n", "x".repeat(2_097_133));
    let document = DiffDocument::parse(source.into_bytes());
    let highlighted = highlight(&document).unwrap();
    assert_eq!(highlighted.skipped_files, 0);
    assert_eq!(highlighted.lines.len(), 4);
}

#[test]
fn context_lines_keep_both_sides_of_the_parse_in_step() {
    let document = DiffDocument::parse(
        b"diff --git a/m.rs b/m.rs\n--- a/m.rs\n+++ b/m.rs\n@@ -1,3 +1,3 @@\n /* open\n-old */ fn gone() {}\n+new */ fn came() {}\n"
            .to_vec(),
    );
    let highlighted = highlight(&document).unwrap();
    assert!(highlighted.lines[4].iter().all(|span| span.token == SyntaxToken::Comment));
    assert_eq!(highlighted.lines[5].first().map(|span| span.token), Some(SyntaxToken::Comment));
    assert_eq!(highlighted.lines[6].first().map(|span| span.token), Some(SyntaxToken::Comment));
    assert!(highlighted.lines[5].iter().any(|span| span.token == SyntaxToken::Function));
    assert!(highlighted.lines[6].iter().any(|span| span.token == SyntaxToken::Function));
}
