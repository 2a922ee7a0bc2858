use statusbar::workspaces::worker::{parse_events, parse_workspace_ids, ManagerMsg, WorkerMsg};

#[test]
fn parse_known_events() {
    assert_eq!(WorkerMsg::parse("workspace", "3"), Some(WorkerMsg::WorkspaceSetActive(3)));
    assert_eq!(WorkerMsg::parse("createworkspace", "12"), Some(WorkerMsg::WorkspaceCreate(12)));
    assert_eq!(WorkerMsg::parse("destroyworkspace", "-98"), Some(WorkerMsg::WorkspaceDestroy(-98)));
    assert_eq!(WorkerMsg::parse("workspace", "+7"), Some(WorkerMsg::WorkspaceSetActive(7)));
}

#[test]
fn parse_rejects_bad_numbers() {
    assert_eq!(WorkerMsg::parse("workspace", "three"), None);
    assert_eq!(WorkerMsg::parse("workspace", ""), None);
    assert_eq!(WorkerMsg::parse("workspace", " 3"), None);
    assert_eq!(WorkerMsg::parse("workspace", "-"), None);
    assert_eq!(WorkerMsg::parse("createworkspace", "2147483648"), None);
    assert_eq!(WorkerMsg::parse("createworkspace", "2147483647"), Some(WorkerMsg::WorkspaceCreate(i32::MAX)));
}

#[test]
fn parse_ignores_other_events() {
    assert_eq!(WorkerMsg::parse("activewindow", "3"), None);
    assert_eq!(WorkerMsg::parse("Workspace", "3"), None);
    assert_eq!(WorkerMsg::parse("", ""), None);
    assert_eq!(ManagerMsg::Close, ManagerMsg::Close);
}

#[test]
fn parse_events_reads_each_line() {
    let text = "workspace>>2\nactivewindow>>kitty,~\ncreateworkspace>>5\r\ndestroyworkspace>>4\nno separator\n";
    assert_eq!(
        parse_events(text),
        vec![WorkerMsg::WorkspaceSetActive(2), WorkerMsg::WorkspaceCreate(5), WorkerMsg::WorkspaceDestroy(4)]
    );
}

#[test]
fn parse_events_edge_cases() {
    assert_eq!(parse_events(""), vec![]);
    assert_eq!(parse_events("\n\n"), vec![]);
    // the last line needs no ending
    assert_eq!(parse_events("workspace>>1\nworkspace>>9"), vec![WorkerMsg::WorkspaceSetActive(1), WorkerMsg::WorkspaceSetActive(9)]);
    // the first separator splits; the rest belongs to the data
    assert_eq!(parse_events("workspace>>>3"), vec![]);
    assert_eq!(parse_events("workspace>>3>>4"), vec![]);
    // a carriage return is stripped only before a newline
    assert_eq!(parse_events("workspace>>3\r"), vec![]);
    assert_eq!(parse_events("wörkspace>>3\nworkspace>>-1\r\n"), vec![WorkerMsg::WorkspaceSetActive(-1)]);
}

#[test]
fn workspace_ids_from_listing() {
    let listing = "workspace ID 1 (1) on monitor DP-1:\n\tmonitorID: 0\n\twindows: 2\n\nworkspace ID -98 (special) on monitor DP-1:\r\n\twindows: 0\nworkspace ID 7";
    assert_eq!(parse_workspace_ids(listing), vec![1, -98, 7]);
    assert_eq!(parse_workspace_ids(""), vec![]);
    assert_eq!(parse_workspace_ids("workspace ID x (x)\nworkspace ID \n workspace ID 3"), vec![]);
}
