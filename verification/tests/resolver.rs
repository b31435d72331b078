use sus::window::{BuildError, Resolution, Window};

fn built(props: &str) -> (Window, Result<Resolution, BuildError>) {
    let mut w = Window::new().with_id(String::from("0x01"));
    let r = w.build(props);
    (w, r)
}

#[test]
fn vocabulary_normal_exact() {
    let (w, r) = built("window state: Normal\n_NET_WM_PID(CARDINAL) = 4321\n");
    assert_eq!(r, Ok(Resolution::Resolved));
    assert!(!w.is_minimized());
    assert_eq!(w.pid(), "4321");
}

#[test]
fn vocabulary_iconic_exact() {
    let (w, r) = built("window state: Iconic\n_NET_WM_PID(CARDINAL) = 1234\n");
    assert_eq!(r, Ok(Resolution::Resolved));
    assert!(w.is_minimized());
    assert_eq!(w.pid(), "1234");
}

#[test]
fn vocabulary_with_surrounding_whitespace_and_tabs() {
    let (w, r) = built("window state: \t  Normal \t\r\n_NET_WM_PID(CARDINAL) = 77\n");
    assert_eq!(r, Ok(Resolution::Resolved));
    assert!(!w.is_minimized());
    assert_eq!(w.pid(), "77");

    let (w2, r2) = built("window state:\tIconic\t \n_NET_WM_PID(CARDINAL) = 78\n");
    assert_eq!(r2, Ok(Resolution::Resolved));
    assert!(w2.is_minimized());
    assert_eq!(w2.pid(), "78");
}

#[test]
fn unknown_token_fails_loudly() {
    let (w, r) = built("window state: Withdrawn\n_NET_WM_PID(CARDINAL) = 9\n");
    assert_eq!(r, Err(BuildError::UnknownStateToken));
    // The descriptor is untouched on the loud failure.
    assert!(!w.is_minimized());
    assert_eq!(w.pid(), "");
    assert_eq!(w.id(), "0x01");
}

#[test]
fn missing_state_marker_is_unresolved() {
    let (w, r) = built("WM_CLASS(STRING) = \"term\"\n_NET_WM_PID(CARDINAL) = 55\n");
    assert_eq!(r, Ok(Resolution::NoState));
    assert!(!w.is_minimized());
    assert_eq!(w.pid(), "");
}

#[test]
fn empty_properties_text_is_unresolved() {
    let (w, r) = built("");
    assert_eq!(r, Ok(Resolution::NoState));
    assert!(!w.is_minimized());
    assert_eq!(w.pid(), "");
}

#[test]
fn missing_pid_marker_leaves_pid_empty() {
    let (w, r) = built("window state: Iconic\nWM_CLASS(STRING) = \"term\"\n");
    assert_eq!(r, Ok(Resolution::Resolved));
    assert!(w.is_minimized());
    assert_eq!(w.pid(), "");
}

#[test]
fn pid_line_without_separator_leaves_pid_empty() {
    let (w, r) = built("window state: Normal\n_NET_WM_PID but no value here\n");
    assert_eq!(r, Ok(Resolution::Resolved));
    assert!(!w.is_minimized());
    assert_eq!(w.pid(), "");
}

#[test]
fn pid_value_is_trimmed() {
    let (w, r) = built("window state: Normal\n_NET_WM_PID(CARDINAL) =   314 \t\n");
    assert_eq!(r, Ok(Resolution::Resolved));
    assert_eq!(w.pid(), "314");
}

#[test]
fn pid_value_of_only_whitespace_is_empty() {
    let (w, r) = built("window state: Normal\n_NET_WM_PID(CARDINAL) = \t \n");
    assert_eq!(r, Ok(Resolution::Resolved));
    assert_eq!(w.pid(), "");
}

#[test]
fn duplicate_markers_take_the_first_match() {
    let props = "window state: Iconic\nwindow state: Normal\n\
                 _NET_WM_PID(CARDINAL) = 1\n_NET_WM_PID(CARDINAL) = 2\n";
    let (w, r) = built(props);
    assert_eq!(r, Ok(Resolution::Resolved));
    assert!(w.is_minimized());
    assert_eq!(w.pid(), "1");
}

#[test]
fn blank_lines_are_harmless() {
    let (w, r) = built("\n\n   \nwindow state: Iconic\n\n_NET_WM_PID(CARDINAL) = 6\n\n");
    assert_eq!(r, Ok(Resolution::Resolved));
    assert!(w.is_minimized());
    assert_eq!(w.pid(), "6");
}

#[test]
fn resolving_twice_gives_the_same_descriptor() {
    let props = "window state: Iconic\n_NET_WM_PID(CARDINAL) = 42\n";
    let (w1, r1) = built(props);
    let (w2, r2) = built(props);
    assert_eq!(r1, r2);
    assert_eq!(w1.is_minimized(), w2.is_minimized());
    assert_eq!(w1.pid(), w2.pid());
    assert_eq!(w1.id(), w2.id());
}

#[test]
fn builders_and_getters() {
    let w = Window::new();
    assert_eq!(w.id(), "");
    assert_eq!(w.pid(), "");
    assert!(!w.is_minimized());
    let w = w.with_id(String::from("0xab")).with_is_minimized(true);
    assert_eq!(w.id(), "0xab");
    assert!(w.is_minimized());
    let w = w.with_is_minimized(false);
    assert!(!w.is_minimized());
    assert_eq!(w.id(), "0xab");
}

#[test]
fn props_query_names_the_window() {
    assert_eq!(sus::window::props_query("0x1c00007"), "xprop -id 0x1c00007");
}
