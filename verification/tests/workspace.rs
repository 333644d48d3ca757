use embargo::workspace::{
    change_workspace, workspaces, HyprlandWorkspace, Rgb, Workspace, WorkspaceListing,
    WorkspaceRow, WorkspaceState, WorkspaceSwitch, Workspaces,
};

fn unused(position: u32) -> HyprlandWorkspace {
    HyprlandWorkspace { position, state: WorkspaceState::Unused }
}

#[test]
fn empty_report_lists_nine_and_the_front() {
    let overview = workspaces(&vec![], 3);
    let mut expected: Vec<HyprlandWorkspace> = (1..10).map(unused).collect();
    expected[2].state = WorkspaceState::Active;
    assert_eq!(overview, expected);
}

#[test]
fn workspaces_with_windows_are_used() {
    let listing = vec![
        WorkspaceListing { id: 12, windows: 1 },
        WorkspaceListing { id: 2, windows: 3 },
        WorkspaceListing { id: 4, windows: 0 },
        WorkspaceListing { id: 11, windows: 0 },
        WorkspaceListing { id: 5, windows: 2 },
    ];
    let overview = workspaces(&listing, 5);
    let states: Vec<(u32, WorkspaceState)> =
        overview.iter().map(|w| (w.position, w.state)).collect();
    assert_eq!(
        states,
        vec![
            (1, WorkspaceState::Unused),
            (2, WorkspaceState::Used),
            (3, WorkspaceState::Unused),
            (4, WorkspaceState::Unused),
            (5, WorkspaceState::Active),
            (6, WorkspaceState::Unused),
            (7, WorkspaceState::Unused),
            (8, WorkspaceState::Unused),
            (9, WorkspaceState::Unused),
            (12, WorkspaceState::Used),
        ]
    );
}

#[test]
fn front_workspace_beyond_nine_is_listed() {
    let overview = workspaces(&vec![WorkspaceListing { id: 20, windows: 0 }], 20);
    assert_eq!(overview.len(), 10);
    assert_eq!(
        overview[9],
        HyprlandWorkspace { position: 20, state: WorkspaceState::Active }
    );
}

#[test]
fn negative_numbers_wrap_around() {
    let overview = workspaces(&vec![WorkspaceListing { id: -99, windows: 1 }], -1);
    assert_eq!(overview.len(), 11);
    assert_eq!(
        overview[9],
        HyprlandWorkspace { position: 4_294_967_197, state: WorkspaceState::Used }
    );
    assert_eq!(
        overview[10],
        HyprlandWorkspace { position: u32::MAX, state: WorkspaceState::Active }
    );
}

#[test]
fn a_workspace_reported_twice_is_listed_once() {
    let listing = vec![
        WorkspaceListing { id: 0, windows: 1 },
        WorkspaceListing { id: 0, windows: 0 },
        WorkspaceListing { id: 0, windows: 5 },
    ];
    let overview = workspaces(&listing, 1);
    assert_eq!(overview.len(), 10);
    assert_eq!(overview[0], HyprlandWorkspace { position: 0, state: WorkspaceState::Used });
    assert_eq!(overview[1], HyprlandWorkspace { position: 1, state: WorkspaceState::Active });
}

#[test]
fn change_workspace_asks_for_the_number() {
    assert_eq!(change_workspace(3), WorkspaceSwitch { id: 3 });
    assert_eq!(change_workspace(u32::MAX), WorkspaceSwitch { id: -1 });
    assert_eq!(change_workspace(2_147_483_648), WorkspaceSwitch { id: i32::MIN });
}

#[test]
fn states_have_their_colours() {
    assert_eq!(
        Workspaces::state_to_color(WorkspaceState::Active),
        Rgb { red: 48, green: 112, blue: 144 }
    );
    assert_eq!(
        Workspaces::state_to_color(WorkspaceState::Used),
        Rgb { red: 32, green: 64, blue: 80 }
    );
    assert_eq!(
        Workspaces::state_to_color(WorkspaceState::Unused),
        Rgb { red: 50, green: 54, blue: 63 }
    );
}

#[test]
fn rows_follow_the_list() {
    let list = Workspaces::new(&vec![WorkspaceListing { id: 2, windows: 1 }], 1);
    let rows = list.as_rows();
    assert_eq!(rows.len(), 9);
    let active = Rgb { red: 48, green: 112, blue: 144 };
    let used = Rgb { red: 32, green: 64, blue: 80 };
    let unused = Rgb { red: 50, green: 54, blue: 63 };
    assert_eq!(rows[0], WorkspaceRow { color: active, hover_color: active, id: 1 });
    assert_eq!(rows[1], WorkspaceRow { color: used, hover_color: used, id: 2 });
    assert_eq!(rows[8], WorkspaceRow { color: unused, hover_color: unused, id: 9 });
}

#[test]
fn workspace_shows_its_fields() {
    let w = HyprlandWorkspace { position: 120, state: WorkspaceState::Used };
    assert_eq!(w.state(), WorkspaceState::Used);
    assert_eq!(w.position(), 120);
}

#[test]
fn display_name_is_the_position_in_decimal() {
    assert_eq!(unused(0).display_name(), "0");
    assert_eq!(unused(7).display_name(), "7");
    assert_eq!(unused(120).display_name(), "120");
    assert_eq!(unused(u32::MAX).display_name(), "4294967295");
}
