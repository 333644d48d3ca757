//! Workspaces of the desktop, as a panel lists them.

use vstd::prelude::*;
use vstd::string::StringExecFns;

verus! {

/// What a workspace is to its user right now.
#[derive(Debug, Clone, Copy, PartialEq, Eq, Structural)]
pub enum WorkspaceState {
    /// The workspace in front.
    Active,
    /// A workspace with windows on it.
    Used,
    /// A workspace with nothing on it.
    Unused,
}

/// A colour of the panel, one byte per channel.
#[derive(Debug, Clone, Copy, PartialEq, Eq, Structural)]
pub struct Rgb {
    pub red: u8,
    pub green: u8,
    pub blue: u8,
}

/// Something a panel can list as a workspace.
pub trait Workspace {
    /// What the workspace is to its user right now.
    spec fn spec_state(&self) -> WorkspaceState;

    /// Where the workspace stands in the list.
    spec fn spec_position(&self) -> u32;

    /// What the workspace is to its user right now.
    fn state(&self) -> (state: WorkspaceState)
        ensures
            state == self.spec_state(),
    ;

    /// Where the workspace stands in the list.
    fn position(&self) -> (position: u32)
        ensures
            position == self.spec_position(),
    ;

    /// The name under which the workspace is listed: its position in decimal.
    fn display_name(&self) -> (name: String)
        ensures
            name@ == decimal(self.spec_position() as nat),
    {
        let position = self.position();
        decimal_text(position)
    }
}

/// One workspace as the window manager reports it: its number and the count
/// of windows on it.
#[derive(Debug, Clone, Copy, PartialEq, Eq, Structural)]
pub struct WorkspaceListing {
    pub id: i32,
    pub windows: u16,
}

/// A workspace of the window manager, as the panel lists it.
#[derive(Debug, Clone, Copy, PartialEq, Eq, Structural)]
pub struct HyprlandWorkspace {
    pub position: u32,
    pub state: WorkspaceState,
}

/// A request to bring a workspace to the front.
#[derive(Debug, Clone, Copy, PartialEq, Eq, Structural)]
pub struct WorkspaceSwitch {
    pub id: i32,
}

/// One row of the panel's list of workspaces.
#[derive(Debug, Clone, Copy, PartialEq, Eq, Structural)]
pub struct WorkspaceRow {
    pub color: Rgb,
    pub hover_color: Rgb,
    pub id: u32,
}

/// The workspaces of the panel's list.
pub struct Workspaces(pub Vec<HyprlandWorkspace>);

/// The first position that is always listed.
pub const FIRST_POSITION: u32 = 1;

/// The last position that is always listed.
pub const LAST_POSITION: u32 = 9;

/// The digit that stands for a number below ten.
pub open spec fn digit(n: nat) -> char {
    if n == 0 {
        '0'
    } else if n == 1 {
        '1'
    } else if n == 2 {
        '2'
    } else if n == 3 {
        '3'
    } else if n == 4 {
        '4'
    } else if n == 5 {
        '5'
    } else if n == 6 {
        '6'
    } else if n == 7 {
        '7'
    } else if n == 8 {
        '8'
    } else {
        '9'
    }
}

/// A number in decimal, without a sign or leading zeros.
pub open spec fn decimal(n: nat) -> Seq<char>
    decreases n,
{
    if n < 10 {
        seq![digit(n)]
    } else {
        decimal(n / 10).push(digit(n % 10))
    }
}

/// The digit that stands for a number below ten, as a piece of text.
fn digit_text(n: u32) -> (text: &'static str)
    requires
        n < 10,
    ensures
        text@ == seq![digit(n as nat)],
{
    proof {
        reveal_strlit("0");
        reveal_strlit("1");
        reveal_strlit("2");
        reveal_strlit("3");
        reveal_strlit("4");
        reveal_strlit("5");
        reveal_strlit("6");
        reveal_strlit("7");
        reveal_strlit("8");
        reveal_strlit("9");
    }
    let text = if n == 0 {
        "0"
    } else if n == 1 {
        "1"
    } else if n == 2 {
        "2"
    } else if n == 3 {
        "3"
    } else if n == 4 {
        "4"
    } else if n == 5 {
        "5"
    } else if n == 6 {
        "6"
    } else if n == 7 {
        "7"
    } else if n == 8 {
        "8"
    } else {
        "9"
    };
    assert(text@ =~= seq![digit(n as nat)]);
    text
}

/// Writes a number in decimal.
pub fn decimal_text(n: u32) -> (text: String)
    ensures
        text@ == decimal(n as nat),
    decreases n,
{
    if n < 10 {
        let mut text = String::new();
        text.append(digit_text(n));
        assert(text@ =~= decimal(n as nat));
        text
    } else {
        let mut text = decimal_text(n / 10);
        text.append(digit_text(n % 10));
        assert(text@ =~= decimal(n as nat));
        text
    }
}

/// The position at which a workspace of the given number is listed: the
/// number itself, reinterpreted as unsigned.
pub open spec fn position_of(id: i32) -> u32 {
    id as u32
}

/// Some workspace among the first `n` reported has windows and is listed at
/// the given position.
pub open spec fn occupied(listing: Seq<WorkspaceListing>, n: int, position: u32) -> bool {
    exists|i: int|
        0 <= i < n && (#[trigger] listing[i]).windows > 0 && position_of(listing[i].id) == position
}

/// Whether the given position is listed: the positions from the first to the
/// last always are, and so is every workspace with windows, and the one in
/// front.
pub open spec fn listed(listing: Seq<WorkspaceListing>, active: i32, position: u32) -> bool {
    ||| FIRST_POSITION <= position <= LAST_POSITION
    ||| occupied(listing, listing.len() as int, position)
    ||| position == position_of(active)
}

/// What the workspace at the given position is to its user.
pub open spec fn state_at(listing: Seq<WorkspaceListing>, active: i32, position: u32) -> WorkspaceState {
    if position == position_of(active) {
        WorkspaceState::Active
    } else if occupied(listing, listing.len() as int, position) {
        WorkspaceState::Used
    } else {
        WorkspaceState::Unused
    }
}

/// The positions rise from each workspace to the next.
pub open spec fn ascending(workspaces: Seq<HyprlandWorkspace>) -> bool {
    forall|i: int, j: int|
        0 <= i < j < workspaces.len() ==> (#[trigger] workspaces[i]).position
            < (#[trigger] workspaces[j]).position
}

/// The list holds the given workspace.
pub open spec fn holds(workspaces: Seq<HyprlandWorkspace>, workspace: HyprlandWorkspace) -> bool {
    exists|i: int| 0 <= i < workspaces.len() && #[trigger] workspaces[i] == workspace
}

/// The list is the overview of what the window manager reports: every listed
/// position once, in rising order, each with its state.
pub open spec fn is_overview(
    workspaces: Seq<HyprlandWorkspace>,
    listing: Seq<WorkspaceListing>,
    active: i32,
) -> bool {
    &&& ascending(workspaces)
    &&& forall|w: HyprlandWorkspace| #[trigger]
        holds(workspaces, w) <==> listed(listing, active, w.position) && w.state == state_at(
            listing,
            active,
            w.position,
        )
}

/// The colour in which a workspace of the given state is listed.
pub open spec fn color_of(state: WorkspaceState) -> Rgb {
    match state {
        WorkspaceState::Active => Rgb { red: 48, green: 112, blue: 144 },
        WorkspaceState::Used => Rgb { red: 32, green: 64, blue: 80 },
        WorkspaceState::Unused => Rgb { red: 50, green: 54, blue: 63 },
    }
}

/// The row that lists the given workspace.
pub open spec fn row_of(workspace: HyprlandWorkspace) -> WorkspaceRow {
    WorkspaceRow {
        color: color_of(workspace.state),
        hover_color: color_of(workspace.state),
        id: workspace.position,
    }
}

impl Workspace for HyprlandWorkspace {
    open spec fn spec_state(&self) -> WorkspaceState {
        self.state
    }

    open spec fn spec_position(&self) -> u32 {
        self.position
    }

    fn state(&self) -> (state: WorkspaceState) {
        self.state
    }

    fn position(&self) -> (position: u32) {
        self.position
    }
}

/// Lists `workspace` in a rising list, in place of what stood at its
/// position if anything did.
fn put(workspaces: &mut Vec<HyprlandWorkspace>, workspace: HyprlandWorkspace)
    requires
        ascending(old(workspaces)@),
    ensures
        ascending(final(workspaces)@),
        holds(final(workspaces)@, workspace),
        forall|w: HyprlandWorkspace|
            w.position != workspace.position ==> (#[trigger] holds(final(workspaces)@, w) <==> holds(
                old(workspaces)@,
                w,
            )),
        forall|w: HyprlandWorkspace|
            w.position == workspace.position && #[trigger] holds(final(workspaces)@, w) ==> w
                == workspace,
{
    let mut at: usize = 0;
    while at < workspaces.len() && workspaces[at].position < workspace.position
        invariant
            0 <= at <= workspaces.len(),
            workspaces@ == old(workspaces)@,
            forall|j: int| 0 <= j < at ==> (#[trigger] workspaces@[j]).position < workspace.position,
        decreases workspaces.len() - at,
    {
        at = at + 1;
    }
    let ghost before = workspaces@;
    if at < workspaces.len() && workspaces[at].position == workspace.position {
        workspaces[at] = workspace;
        proof {
            let after = workspaces@;
            assert(after[at as int] == workspace);
            assert forall|i: int, j: int| 0 <= i < j < after.len() implies (
            #[trigger] after[i]).position < (#[trigger] after[j]).position by {
                assert(before[i].position < before[j].position);
            }
            assert forall|w: HyprlandWorkspace| w.position != workspace.position implies (
            #[trigger] holds(after, w) <==> holds(before, w)) by {
                if holds(after, w) {
                    let i = choose|i: int| 0 <= i < after.len() && #[trigger] after[i] == w;
                    assert(before[i] == w);
                }
                if holds(before, w) {
                    let i = choose|i: int| 0 <= i < before.len() && #[trigger] before[i] == w;
                    assert(after[i] == w);
                }
            }
            assert forall|w: HyprlandWorkspace|
                w.position == workspace.position && #[trigger] holds(after, w) implies w
                == workspace by {
                let i = choose|i: int| 0 <= i < after.len() && #[trigger] after[i] == w;
                if i < at {
                    assert(after[i].position < after[at as int].position);
                } else if i > at {
                    assert(after[at as int].position < after[i].position);
                }
            }
        }
    } else {
        workspaces.insert(at, workspace);
        proof {
            let after = workspaces@;
            assert(after[at as int] == workspace);
            assert forall|i: int, j: int| 0 <= i < j < after.len() implies (
            #[trigger] after[i]).position < (#[trigger] after[j]).position by {
                if i < at && j > at {
                    assert(before[i].position < before[j - 1].position || i == j - 1);
                    assert(before[i].position < workspace.position);
                    if at < before.len() {
                        assert(before[at as int].position <= before[j - 1].position) by {
                            if at < j - 1 {
                                assert(before[at as int].position < before[j - 1].position);
                            }
                        }
                    }
                } else if i < at && j < at {
                    assert(before[i].position < before[j].position);
                } else if i > at {
                    assert(before[i - 1].position < before[j - 1].position);
                } else if i == at {
                    if at < j - 1 {
                        assert(before[at as int].position < before[j - 1].position);
                    }
                }
            }
            assert forall|w: HyprlandWorkspace| w.position != workspace.position implies (
            #[trigger] holds(after, w) <==> holds(before, w)) by {
                if holds(after, w) {
                    let i = choose|i: int| 0 <= i < after.len() && #[trigger] after[i] == w;
                    if i < at {
                        assert(before[i] == w);
                    } else {
                        assert(before[i - 1] == w);
                    }
                }
                if holds(before, w) {
                    let i = choose|i: int| 0 <= i < before.len() && #[trigger] before[i] == w;
                    if i < at {
                        assert(after[i] == w);
                    } else {
                        assert(after[i + 1] == w);
                    }
                }
            }
            assert forall|w: HyprlandWorkspace|
                w.position == workspace.position && #[trigger] holds(after, w) implies w
                == workspace by {
                let i = choose|i: int| 0 <= i < after.len() && #[trigger] after[i] == w;
                if i < at {
                    assert(after[i].position < after[at as int].position);
                } else if i > at {
                    assert(after[at as int].position < after[i].position);
                }
            }
        }
    }
}

/// What `workspaces` holds after the first `n` reported workspaces have been
/// looked at: the positions that are always listed, and those of the
/// workspaces with windows.
spec fn partial(
    workspaces: Seq<HyprlandWorkspace>,
    listing: Seq<WorkspaceListing>,
    n: int,
) -> bool {
    &&& ascending(workspaces)
    &&& forall|w: HyprlandWorkspace| #[trigger]
        holds(workspaces, w) <==> {
            if occupied(listing, n, w.position) {
                w.state == WorkspaceState::Used
            } else {
                FIRST_POSITION <= w.position <= LAST_POSITION && w.state == WorkspaceState::Unused
            }
        }
}

/// The overview of the workspaces that the window manager reports, of which
/// the one numbered `active` is in front: the positions from the first to the
/// last that are always listed, every workspace with windows, and the one in
/// front, each once and in rising order.
pub fn workspaces(listing: &Vec<WorkspaceListing>, active: i32) -> (overview: Vec<HyprlandWorkspace>)
    ensures
        is_overview(overview@, listing@, active),
{
    let mut overview: Vec<HyprlandWorkspace> = Vec::new();
    let mut position: u32 = FIRST_POSITION;
    while position <= LAST_POSITION
        invariant
            FIRST_POSITION <= position <= LAST_POSITION + 1,
            overview@.len() == position - FIRST_POSITION,
            forall|i: int|
                0 <= i < overview@.len() ==> #[trigger] overview@[i] == (HyprlandWorkspace {
                    position: (FIRST_POSITION + i) as u32,
                    state: WorkspaceState::Unused,
                }),
        decreases LAST_POSITION + 1 - position,
    {
        overview.push(HyprlandWorkspace { position, state: WorkspaceState::Unused });
        position = position + 1;
    }
    proof {
        assert forall|w: HyprlandWorkspace| #[trigger]
            holds(overview@, w) <==> (FIRST_POSITION <= w.position <= LAST_POSITION && w.state
                == WorkspaceState::Unused) by {
            if FIRST_POSITION <= w.position <= LAST_POSITION && w.state == WorkspaceState::Unused {
                assert(overview@[w.position - FIRST_POSITION] == w);
            }
        }
    }
    let mut k: usize = 0;
    while k < listing.len()
        invariant
            0 <= k <= listing.len(),
            partial(overview@, listing@, k as int),
        decreases listing.len() - k,
    {
        let reported = listing[k];
        let ghost before = overview@;
        if reported.windows > 0 {
            let workspace = HyprlandWorkspace {
                position: reported.id as u32,
                state: WorkspaceState::Used,
            };
            put(&mut overview, workspace);
            proof {
                assert forall|w: HyprlandWorkspace| #[trigger]
                    holds(overview@, w) <==> {
                        if occupied(listing@, k + 1, w.position) {
                            w.state == WorkspaceState::Used
                        } else {
                            FIRST_POSITION <= w.position <= LAST_POSITION && w.state
                                == WorkspaceState::Unused
                        }
                    } by {
                    if w.position == workspace.position {
                        assert(listing@[k as int].windows > 0 && position_of(listing@[k as int].id)
                            == w.position);
                    } else {
                        assert(holds(overview@, w) <==> holds(before, w));
                        lemma_occupied_next(listing@, k as int, w.position);
                    }
                }
            }
        } else {
            proof {
                assert forall|w: HyprlandWorkspace|
                    occupied(listing@, k + 1, w.position) == occupied(
                        listing@,
                        k as int,
                        w.position,
                    ) by {
                    lemma_occupied_next(listing@, k as int, w.position);
                }
            }
        }
        k = k + 1;
    }
    let ghost before = overview@;
    let front = HyprlandWorkspace { position: active as u32, state: WorkspaceState::Active };
    put(&mut overview, front);
    proof {
        assert forall|w: HyprlandWorkspace| #[trigger]
            holds(overview@, w) <==> listed(listing@, active, w.position) && w.state == state_at(
                listing@,
                active,
                w.position,
            ) by {
            if w.position != front.position {
                assert(holds(overview@, w) <==> holds(before, w));
            }
        }
    }
    overview
}

/// Whether a workspace with windows is listed at a position among the first
/// `n + 1` reported depends on the first `n` and on the one after them.
proof fn lemma_occupied_next(listing: Seq<WorkspaceListing>, n: int, position: u32)
    requires
        0 <= n < listing.len(),
    ensures
        occupied(listing, n + 1, position) <==> occupied(listing, n, position) || (
        listing[n].windows > 0 && position_of(listing[n].id) == position),
{
    if occupied(listing, n + 1, position) {
        let i = choose|i: int|
            0 <= i < n + 1 && (#[trigger] listing[i]).windows > 0 && position_of(listing[i].id)
                == position;
        if i < n {
            assert(occupied(listing, n, position));
        }
    }
    if occupied(listing, n, position) {
        let i = choose|i: int|
            0 <= i < n && (#[trigger] listing[i]).windows > 0 && position_of(listing[i].id)
                == position;
        assert(0 <= i < n + 1 && listing[i].windows > 0);
    }
    if listing[n].windows > 0 && position_of(listing[n].id) == position {
        assert(occupied(listing, n + 1, position));
    }
}

/// An overview is the only one: two lists that are both the overview of the
/// same report are equal.
pub proof fn lemma_overview_unique(
    a: Seq<HyprlandWorkspace>,
    b: Seq<HyprlandWorkspace>,
    listing: Seq<WorkspaceListing>,
    active: i32,
)
    requires
        is_overview(a, listing, active),
        is_overview(b, listing, active),
    ensures
        a == b,
    decreases a.len(),
{
    assert forall|w: HyprlandWorkspace| holds(a, w) <==> holds(b, w) by {}
    lemma_same_rising(a, b);
}

/// Two rising lists that hold the same workspaces are equal.
proof fn lemma_same_rising(a: Seq<HyprlandWorkspace>, b: Seq<HyprlandWorkspace>)
    requires
        ascending(a),
        ascending(b),
        forall|w: HyprlandWorkspace| holds(a, w) <==> holds(b, w),
    ensures
        a == b,
    decreases a.len(),
{
    if a.len() == 0 {
        if b.len() > 0 {
            assert(holds(b, b[0]));
            let i = choose|i: int| 0 <= i < a.len() && #[trigger] a[i] == b[0];
        }
        assert(a =~= b);
    } else {
        let top = a.last();
        assert(holds(a, a[a.len() - 1]));
        assert(holds(b, top));
        let at = choose|i: int| 0 <= i < b.len() && #[trigger] b[i] == top;
        if at < b.len() - 1 {
            let above = b[b.len() - 1];
            assert(b[at].position < b[b.len() - 1].position);
            assert(holds(b, b[b.len() - 1]));
            assert(holds(a, above));
            let i = choose|i: int| 0 <= i < a.len() && #[trigger] a[i] == above;
            if i < a.len() - 1 {
                assert(a[i].position < a[a.len() - 1].position);
            }
        }
        let a0 = a.drop_last();
        let b0 = b.drop_last();
        assert forall|w: HyprlandWorkspace| holds(a0, w) <==> holds(b0, w) by {
            if holds(a0, w) {
                let i = choose|i: int| 0 <= i < a0.len() && #[trigger] a0[i] == w;
                assert(a[i] == w);
                assert(a[i].position < a[a.len() - 1].position);
                assert(holds(a, w));
                let j = choose|j: int| 0 <= j < b.len() && #[trigger] b[j] == w;
                assert(b0[j] == w);
            }
            if holds(b0, w) {
                let i = choose|i: int| 0 <= i < b0.len() && #[trigger] b0[i] == w;
                assert(b[i] == w);
                assert(b[i].position < b[b.len() - 1].position);
                assert(holds(b, w));
                let j = choose|j: int| 0 <= j < a.len() && #[trigger] a[j] == w;
                assert(a0[j] == w);
            }
        }
        assert(ascending(a0)) by {
            assert forall|i: int, j: int| 0 <= i < j < a0.len() implies (#[trigger] a0[i]).position
                < (#[trigger] a0[j]).position by {
                assert(a[i].position < a[j].position);
            }
        }
        assert(ascending(b0)) by {
            assert forall|i: int, j: int| 0 <= i < j < b0.len() implies (#[trigger] b0[i]).position
                < (#[trigger] b0[j]).position by {
                assert(b[i].position < b[j].position);
            }
        }
        lemma_same_rising(a0, b0);
        assert(a =~= a0.push(top));
        assert(b =~= b0.push(top));
    }
}

/// The request that brings the workspace of the given number to the front:
/// the number itself, reinterpreted as signed.
pub fn change_workspace(id: u32) -> (request: WorkspaceSwitch)
    ensures
        request.id == id as i32,
{
    WorkspaceSwitch { id: id as i32 }
}

impl Workspaces {
    /// The list for what the window manager reports.
    pub fn new(listing: &Vec<WorkspaceListing>, active: i32) -> (list: Self)
        ensures
            is_overview(list.0@, listing@, active),
    {
        Workspaces(workspaces(listing, active))
    }

    /// The colour in which a workspace of the given state is listed.
    pub fn state_to_color(state: WorkspaceState) -> (color: Rgb)
        ensures
            color == color_of(state),
    {
        match state {
            WorkspaceState::Active => Rgb { red: 48, green: 112, blue: 144 },
            WorkspaceState::Used => Rgb { red: 32, green: 64, blue: 80 },
            WorkspaceState::Unused => Rgb { red: 50, green: 54, blue: 63 },
        }
    }

    /// The rows of the list, one for each workspace in its order.
    pub fn as_rows(&self) -> (rows: Vec<WorkspaceRow>)
        ensures
            rows@ == self.0@.map_values(|w: HyprlandWorkspace| row_of(w)),
    {
        let mut rows: Vec<WorkspaceRow> = Vec::new();
        let mut i: usize = 0;
        while i < self.0.len()
            invariant
                0 <= i <= self.0.len(),
                rows@.len() == i,
                forall|j: int| 0 <= j < i ==> rows@[j] == row_of(self.0@[j]),
            decreases self.0.len() - i,
        {
            let workspace = self.0[i];
            let color = Workspaces::state_to_color(workspace.state);
            rows.push(WorkspaceRow { color, hover_color: color, id: workspace.position });
            i = i + 1;
        }
        assert(rows@ =~= self.0@.map_values(|w: HyprlandWorkspace| row_of(w)));
        rows
    }
}

} // verus!
