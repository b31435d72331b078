use sus::control::{
    action_for, drain_action_for, drain_actions, next_mode, signal_command, tick_actions, Mode,
    Signal,
};

#[test]
fn minimized_window_is_stopped() {
    let mut w = sus::window::Window::new().with_id(String::from("0x01"));
    let r = w.build("window state: Iconic\n_NET_WM_PID(CARDINAL) = 1234\n");
    assert!(r.is_ok());
    let a = action_for(&w).expect("resolved window must get an action");
    assert_eq!(a.signal, Signal::Stop);
    assert_eq!(a.pid, "1234");
}

#[test]
fn visible_window_is_continued() {
    let mut w = sus::window::Window::new().with_id(String::from("0x02"));
    let r = w.build("window state: Normal\n_NET_WM_PID(CARDINAL) = 5678\n");
    assert!(r.is_ok());
    let a = action_for(&w).expect("resolved window must get an action");
    assert_eq!(a.signal, Signal::Cont);
    assert_eq!(a.pid, "5678");
}

#[test]
fn unresolved_window_is_skipped() {
    let mut w = sus::window::Window::new().with_id(String::from("0x03"));
    let r = w.build("WM_NAME(STRING) = \"gone\"\n");
    assert!(r.is_ok());
    assert!(action_for(&w).is_none());
    assert!(drain_action_for(&w).is_none());
}

#[test]
fn missing_pid_is_skipped() {
    let mut w = sus::window::Window::new().with_id(String::from("0x04"));
    let r = w.build("window state: Iconic\n");
    assert!(r.is_ok());
    assert!(action_for(&w).is_none());
}

#[test]
fn same_descriptor_same_signal_on_consecutive_ticks() {
    let mut w = sus::window::Window::new().with_id(String::from("0x05"));
    let props = "window state: Iconic\n_NET_WM_PID(CARDINAL) = 99\n";
    assert!(w.build(props).is_ok());
    let first = action_for(&w).unwrap();
    assert!(w.build(props).is_ok());
    let second = action_for(&w).unwrap();
    assert_eq!(first.signal, second.signal);
    assert_eq!(first.pid, second.pid);
}

#[test]
fn drain_resumes_every_resolved_window() {
    let mut ws = Vec::new();
    let mut w1 = sus::window::Window::new().with_id(String::from("0x01"));
    assert!(w1.build("window state: Iconic\n_NET_WM_PID(CARDINAL) = 1\n").is_ok());
    let mut w2 = sus::window::Window::new().with_id(String::from("0x02"));
    assert!(w2.build("window state: Normal\n_NET_WM_PID(CARDINAL) = 2\n").is_ok());
    let mut w3 = sus::window::Window::new().with_id(String::from("0x03"));
    assert!(w3.build("window state: Iconic\n_NET_WM_PID(CARDINAL) = 3\n").is_ok());
    ws.push(w1);
    ws.push(w2);
    ws.push(w3);
    let acts = drain_actions(&ws);
    assert_eq!(acts.len(), 3);
    for a in &acts {
        assert_eq!(a.signal, Signal::Cont);
    }
    assert_eq!(acts[0].pid, "1");
    assert_eq!(acts[1].pid, "2");
    assert_eq!(acts[2].pid, "3");
}

#[test]
fn empty_world_is_a_no_op() {
    let ws: Vec<sus::window::Window> = Vec::new();
    assert_eq!(tick_actions(&ws).len(), 0);
    assert_eq!(drain_actions(&ws).len(), 0);
    assert_eq!(sus::enumerate::list_window_ids("").len(), 0);
}

#[test]
fn end_to_end_tick() {
    let ids = sus::enumerate::list_window_ids("0x01 host\n0x02 host");
    assert_eq!(ids.len(), 2);
    assert_eq!(ids[0], "0x01");
    assert_eq!(ids[1], "0x02");

    let mut ws = Vec::new();
    for id in ids {
        let mut w = sus::window::Window::new().with_id(id.clone());
        let props = if id == "0x01" {
            "window state: Iconic\n_NET_WM_PID(CARDINAL) = 1234\n"
        } else {
            "window state: Normal\n_NET_WM_PID(CARDINAL) = 5678\n"
        };
        assert!(w.build(props).is_ok());
        ws.push(w);
    }
    let acts = tick_actions(&ws);
    assert_eq!(acts.len(), 2);
    assert_eq!(acts[0].signal, Signal::Stop);
    assert_eq!(acts[0].pid, "1234");
    assert_eq!(acts[1].signal, Signal::Cont);
    assert_eq!(acts[1].pid, "5678");
    assert_eq!(signal_command(&acts[0]), "kill -STOP 1234");
    assert_eq!(signal_command(&acts[1]), "kill -CONT 5678");
}

#[test]
fn mode_machine_runs_until_shutdown_and_drains_terminally() {
    assert_eq!(next_mode(Mode::Running, false), Mode::Running);
    assert_eq!(next_mode(Mode::Running, true), Mode::Draining);
    assert_eq!(next_mode(Mode::Draining, false), Mode::Draining);
    assert_eq!(next_mode(Mode::Draining, true), Mode::Draining);
}

#[test]
fn queries_are_well_formed() {
    assert_eq!(sus::enumerate::list_query(), "wmctrl -l");
}
