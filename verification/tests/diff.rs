use raccoon::diff::{DiffDocument, LineKind};

#[test]
fn parses_semantics_and_line_numbers() {
    let document = DiffDocument::parse(
        b"diff --git a/a b/a\n@@ -2,2 +2,2 @@\n-old\n+new\n same\n\\ No newline at end of file\n".to_vec(),
    );
    assert_eq!(document.lines[2].kind, LineKind::Deletion);
    assert_eq!(document.lines[2].old_line, Some(2));
    assert_eq!(document.lines[3].new_line, Some(2));
    assert_eq!(document.lines[4].old_line, Some(3));
    assert_eq!(document.line_text(&document.lines[3]), "+new");
}

#[test]
fn identifies_special_file_states() {
    let document = DiffDocument::parse(
        b"diff --git a/old b/new\nsimilarity index 100%\nrename from old\nrename to new\nnew file mode 100644\ndeleted file mode 100644\nBinary files a/image and b/image differ\n\\ No newline at end of file\n"
            .to_vec(),
    );
    assert!(document.lines.iter().any(|line| line.kind == LineKind::Rename));
    assert!(document.lines.iter().any(|line| line.kind == LineKind::NewFile));
    assert!(document.lines.iter().any(|line| line.kind == LineKind::DeletedFile));
    assert!(document.lines.iter().any(|line| line.kind == LineKind::Binary));
    assert!(document.lines.iter().any(|line| line.kind == LineKind::NoNewline));
}

#[test]
fn keeps_a_display_path_for_new_deleted_and_renamed_files() {
    let document = DiffDocument::parse(
        b"diff --git a/old.rs b/old.rs\n--- a/old.rs\n+++ /dev/null\ndiff --git a/dev/null b/new.rs\n--- /dev/null\n+++ b/new.rs\ndiff --git a/before.rs b/after.rs\n--- a/before.rs\n+++ b/after.rs\n"
            .to_vec(),
    );
    assert_eq!(document.files[0].as_deref(), Some("old.rs"));
    assert_eq!(document.files[1].as_deref(), Some("new.rs"));
    assert_eq!(document.files[2].as_deref(), Some("after.rs"));
}

#[test]
fn lines_cover_the_text_without_line_ends() {
    let text = b"diff --git a/x b/x\r\n@@ -1 +1 @@\n-a\n+b\n";
    let document = DiffDocument::parse(text.to_vec());
    let mut rebuilt = Vec::new();
    for line in &document.lines {
        rebuilt.extend_from_slice(document.line_text(line).as_bytes());
    }
    assert_eq!(rebuilt, b"diff --git a/x b/x@@ -1 +1 @@-a+b".to_vec());
    assert_eq!(document.lines.len(), 4);
    assert_eq!(document.text_len(), text.len());
}

#[test]
fn numbers_lines_from_hunk_headers() {
    let document = DiffDocument::parse(b"@@ -10,3 +20,4 @@ fn x()\n same\n-gone\n+one\n+two\n".to_vec());
    assert_eq!(document.lines[0].kind, LineKind::HunkHeader);
    assert_eq!((document.lines[1].old_line, document.lines[1].new_line), (Some(10), Some(20)));
    assert_eq!((document.lines[2].old_line, document.lines[2].new_line), (Some(11), None));
    assert_eq!((document.lines[3].old_line, document.lines[3].new_line), (None, Some(21)));
    assert_eq!(document.lines[4].new_line, Some(22));
}

#[test]
fn invalid_utf8_is_replaced_and_fingerprints_follow_the_text() {
    let document = DiffDocument::parse(b"+caf\xff\n".to_vec());
    assert_eq!(document.text, "+caf\u{fffd}\n");
    let same = DiffDocument::parse(b"+caf\xff\n".to_vec());
    let other = DiffDocument::parse(b"+cafe\n".to_vec());
    assert_eq!(document.fingerprint(), same.fingerprint());
    assert_ne!(document.fingerprint(), other.fingerprint());
    assert_eq!(DiffDocument::parse(Vec::new()).lines.len(), 0);
}

#[test]
fn parsed_documents_index_their_text_and_files() {
    let mut document = DiffDocument::parse(b"diff --git a/a b/a\n@@ -1 +1 @@\n-x\n+y\n".to_vec());
    assert!(document.ranges_well_formed());
    assert!(raccoon::highlight::files_indexed_at(&document));
    document.lines[0].range.end = document.text.len() + 1;
    assert!(!document.ranges_well_formed());
    document.lines[0].file_index = Some(document.files.len());
    assert!(!raccoon::highlight::files_indexed_at(&document));
}

#[test]
fn a_line_keeps_its_kind_when_parsed_alone() {
    let document = DiffDocument::parse(
        b"diff --git a/a b/a\n--- a/a\n+++ b/a\n@@ -1 +1 @@\n-+++ x\n+--- y\n \\ z\n\\ No newline at end of file\n".to_vec(),
    );
    for line in &document.lines {
        let text = document.line_text(line);
        let alone = DiffDocument::parse(format!("{text}\n").into_bytes());
        assert_eq!(alone.lines.len(), 1);
        assert_eq!(alone.lines[0].kind, line.kind);
    }
}
