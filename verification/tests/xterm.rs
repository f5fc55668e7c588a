use happy_remote::xterm::{get_theme, is_at_bottom, same_bytes, TermOp, XTermState};

fn kinds(ops: &[TermOp]) -> Vec<String> {
    ops.iter()
        .map(|o| match o {
            TermOp::Clear => "clear".to_string(),
            TermOp::Write(b) => format!("write:{}", String::from_utf8_lossy(b)),
            TermOp::ScrollToBottom => "scroll".to_string(),
            TermOp::RegisterWriter => "writer".to_string(),
            TermOp::ListenInput => "input".to_string(),
            TermOp::RegisterCallbacks => "callbacks".to_string(),
        })
        .collect()
}

#[test]
fn content_waits_until_the_terminal_exists() {
    let mut x = XTermState::new();
    let ops = x.changed(false, &b"".to_vec(), &b"hello".to_vec());
    assert!(ops.is_empty());
    assert_eq!(x.pending_content, b"hello".to_vec());
    let (render, ops) = x.initialize(true, false, &b"he".to_vec());
    assert!(render);
    assert_eq!(kinds(&ops), vec!["input", "write:he", "write:llo", "callbacks", "writer"]);
    assert_eq!(x.written_len, 5);
    let (again, none) = x.initialize(true, false, &b"x".to_vec());
    assert!(!again);
    assert!(none.is_empty());
}

#[test]
fn growth_appends_and_shrink_rewrites() {
    let mut x = XTermState::new();
    x.initialize(true, true, &vec![]);
    let ops = x.changed(false, &b"ab".to_vec(), &b"abcd".to_vec());
    assert_eq!(kinds(&ops), vec!["write:cd", "scroll"]);
    x.user_scrolled(true);
    let ops = x.changed(false, &b"abcd".to_vec(), &b"abcdef".to_vec());
    assert_eq!(kinds(&ops), vec!["write:ef"]);
    let ops = x.changed(false, &b"abcdef".to_vec(), &b"z".to_vec());
    assert_eq!(kinds(&ops), vec!["clear", "write:z", "scroll"]);
    assert!(!x.user_scrolled_up);
    assert!(x.changed(false, &b"z".to_vec(), &b"z".to_vec()).is_empty());
}

#[test]
fn switching_sessions_redraws() {
    let mut x = XTermState::new();
    x.initialize(true, false, &vec![]);
    x.user_scrolled(true);
    let ops = x.changed(true, &b"old".to_vec(), &b"new".to_vec());
    assert_eq!(kinds(&ops), vec!["clear", "write:new", "scroll", "writer"]);
    assert!(!x.user_scrolled_up);
    let empty = x.changed(true, &b"new".to_vec(), &vec![]);
    assert_eq!(kinds(&empty), vec!["clear", "scroll", "writer"]);
}

#[test]
fn direct_writes_follow_the_end_unless_scrolled() {
    let mut x = XTermState::new();
    assert!(x.write_bytes(b"lost".to_vec()).is_empty());
    x.initialize(true, false, &vec![]);
    assert_eq!(kinds(&x.write_bytes(b"a".to_vec())), vec!["write:a", "scroll"]);
    x.user_scrolled(true);
    assert_eq!(kinds(&x.write_bytes(b"b".to_vec())), vec!["write:b"]);
}

#[test]
fn bottom_detection_and_theme() {
    assert!(is_at_bottom(10, 10));
    assert!(is_at_bottom(9, 10));
    assert!(!is_at_bottom(8, 10));
    assert!(is_at_bottom(0, i32::MIN));
    assert!(same_bytes(&vec![1, 2], &vec![1, 2]));
    assert!(!same_bytes(&vec![1, 2], &vec![1, 3]));
    let theme = get_theme();
    assert_eq!(theme.len(), 21);
    assert_eq!(theme[0], ("background", "#0d1117"));
    assert_eq!(theme[20], ("brightWhite", "#f0f6fc"));
}
