use raccoon::clipboard::{osc52_frame, osc52_sequence};

#[test]
fn encodes_clipboard_text_as_osc52() {
    assert_eq!(osc52_sequence("abc123"), "\x1b]52;c;YWJjMTIz\x07");
}

#[test]
fn frames_and_pads_the_payload() {
    assert_eq!(osc52_frame("QQ=="), "\x1b]52;c;QQ==\x07");
    assert_eq!(osc52_sequence("A"), "\x1b]52;c;QQ==\x07");
    assert_eq!(osc52_sequence(""), "\x1b]52;c;\x07");
}
