//! The menu projector: a pure function from current service state to the
//! display model the rendering layer consumes.
//!
//! The model is rebuilt from scratch on every refresh and never diffed
//! against its predecessor.  Selectable rows carry the fixed control
//! identifiers `toggle`, `refresh` and `quit`, or — for the mesh variant's
//! peer rows — the peer's IP address; informational rows are disabled and
//! carry the empty identifier.

use vstd::prelude::*;

use crate::docker::DockerStatus;
use crate::docker::DockerStatusV;
use crate::tailscale::MachineData;
use crate::tailscale::MachineV;
use crate::tailscale::machine_views;
use crate::text::dec_rep;
use crate::text::u32_to_string;

verus! {

/// One row of the displayable menu.
#[derive(Clone, Debug, PartialEq, Eq)]
pub enum MenuRow {
    /// A labelled entry; `enabled` rows are selectable by their `id`.
    Item { label: String, id: String, enabled: bool },
    /// A visual separator.
    Separator,
}

/// The mathematical model of a [`MenuRow`].
pub ghost enum RowV {
    Item { label: Seq<char>, id: Seq<char>, enabled: bool },
    Separator,
}

impl View for MenuRow {
    type V = RowV;

    open spec fn view(&self) -> RowV {
        match self {
            MenuRow::Item { label, id, enabled } => RowV::Item {
                label: label@,
                id: id@,
                enabled: *enabled,
            },
            MenuRow::Separator => RowV::Separator,
        }
    }
}

/// The views of a sequence of rows.
pub open spec fn row_views(rows: Seq<MenuRow>) -> Seq<RowV> {
    Seq::new(rows.len(), |i: int| rows[i]@)
}

/// The identifier a row carries, if any.
pub open spec fn row_id(r: RowV) -> Option<Seq<char>> {
    match r {
        RowV::Item { id, .. } => Some(id),
        RowV::Separator => None,
    }
}

/// The derived, ephemeral display model: an ordered sequence of rows.
#[derive(Clone, Debug, PartialEq, Eq)]
pub struct MenuModel {
    /// The rows, in display order.
    pub rows: Vec<MenuRow>,
}

impl View for MenuModel {
    type V = Seq<RowV>;

    open spec fn view(&self) -> Seq<RowV> {
        row_views(self.rows@)
    }
}

/// The selectable toggle action.
pub open spec fn toggle_row(label: Seq<char>) -> RowV {
    RowV::Item { label: label, id: "toggle"@, enabled: true }
}

/// The selectable refresh action.
pub open spec fn refresh_row() -> RowV {
    RowV::Item { label: "Refresh"@, id: "refresh"@, enabled: true }
}

/// The selectable quit action.
pub open spec fn quit_row() -> RowV {
    RowV::Item { label: "Quit Tray"@, id: "quit"@, enabled: true }
}

/// A disabled informational row.
pub open spec fn info_row(label: Seq<char>) -> RowV {
    RowV::Item { label: label, id: ""@, enabled: false }
}

/// A peer's selectable row: an online marker, the host name, the IP in
/// parentheses; the identifier is the peer's IP.
pub open spec fn peer_row(m: MachineV) -> RowV {
    RowV::Item { label: peer_label(m), id: m.ip, enabled: true }
}

/// The label of a peer row.
pub open spec fn peer_label(m: MachineV) -> Seq<char> {
    (if m.online {
        "[online] "@
    } else {
        "[offline] "@
    }) + m.hostname + " ("@ + m.ip + ")"@
}

/// The peer rows, one per machine, in order.
pub open spec fn peer_rows_of(peers: Seq<MachineV>) -> Seq<RowV> {
    Seq::new(peers.len(), |i: int| peer_row(peers[i]))
}

/// The informational rows of the daemon variant: the active-state text,
/// then the PID and the memory peak where present; or a single fallback
/// row when the detailed status could not be retrieved.
pub open spec fn docker_info_rows(st: Option<DockerStatusV>) -> Seq<RowV> {
    match st {
        None => seq![info_row("Could not retrieve status"@)],
        Some(s) => seq![info_row("Status: "@ + s.active_state)] + (match s.main_pid {
            Some(p) => seq![info_row("PID: "@ + dec_rep(p as nat))],
            None => Seq::empty(),
        }) + (match s.memory_peak {
            Some(m) => seq![info_row("Memory Peak: "@ + m)],
            None => Seq::empty(),
        }),
    }
}

/// The full menu of the daemon variant.
pub open spec fn docker_rows(active: bool, st: Option<DockerStatusV>) -> Seq<RowV> {
    if active {
        seq![toggle_row("Stop Docker"@), refresh_row(), RowV::Separator] + docker_info_rows(st)
            + seq![RowV::Separator, quit_row()]
    } else {
        seq![
            toggle_row("Start Docker"@),
            RowV::Separator,
            info_row("Status: Inactive"@),
            refresh_row(),
            RowV::Separator,
            quit_row(),
        ]
    }
}

/// The full menu of the mesh variant.
pub open spec fn tailscale_rows(enabled: bool, peers: Seq<MachineV>) -> Seq<RowV> {
    if enabled {
        seq![toggle_row("Disable Tailscale"@), refresh_row(), RowV::Separator] + peer_rows_of(
            peers,
        ) + seq![RowV::Separator, quit_row()]
    } else {
        seq![
            toggle_row("Enable Tailscale"@),
            RowV::Separator,
            info_row("Status: Stopped"@),
            refresh_row(),
            RowV::Separator,
            quit_row(),
        ]
    }
}

/// Builds the selectable toggle item.
fn make_toggle(label: &str) -> (r: MenuRow)
    ensures
        r@ == toggle_row(label@),
{
    MenuRow::Item { label: String::from_str(label), id: String::from_str("toggle"), enabled: true }
}

/// Builds the selectable refresh item.
fn make_refresh() -> (r: MenuRow)
    ensures
        r@ == refresh_row(),
{
    MenuRow::Item {
        label: String::from_str("Refresh"),
        id: String::from_str("refresh"),
        enabled: true,
    }
}

/// Builds the selectable quit item.
fn make_quit() -> (r: MenuRow)
    ensures
        r@ == quit_row(),
{
    MenuRow::Item {
        label: String::from_str("Quit Tray"),
        id: String::from_str("quit"),
        enabled: true,
    }
}

/// Builds a disabled informational item.
fn make_info(label: String) -> (r: MenuRow)
    ensures
        r@ == info_row(label@),
{
    MenuRow::Item { label, id: String::from_str(""), enabled: false }
}

/// Derives the daemon variant's menu from the current activity flag and
/// the detailed status, when one was retrieved.
pub fn project_docker(active: bool, status: Option<&DockerStatus>) -> (m: MenuModel)
    ensures
        status matches Some(s) ==> m@ == docker_rows(active, Some(s@)),
        status is None ==> m@ == docker_rows(active, None),
{
    let mut rows: Vec<MenuRow> = Vec::new();
    if active {
        rows.push(make_toggle("Stop Docker"));
        rows.push(make_refresh());
        rows.push(MenuRow::Separator);
        match status {
            Some(s) => {
                let header = String::from_str("Status: ").concat(s.active_state.as_str());
                rows.push(make_info(header));
                if let Some(p) = s.main_pid {
                    let pid_text = u32_to_string(p);
                    let label = String::from_str("PID: ").concat(pid_text.as_str());
                    rows.push(make_info(label));
                }
                match &s.memory_peak {
                    Some(mem) => {
                        let label = String::from_str("Memory Peak: ").concat(mem.as_str());
                        rows.push(make_info(label));
                    },
                    None => {},
                }
            },
            None => {
                rows.push(make_info(String::from_str("Could not retrieve status")));
            },
        }
        rows.push(MenuRow::Separator);
        rows.push(make_quit());
    } else {
        rows.push(make_toggle("Start Docker"));
        rows.push(MenuRow::Separator);
        rows.push(make_info(String::from_str("Status: Inactive")));
        rows.push(make_refresh());
        rows.push(MenuRow::Separator);
        rows.push(make_quit());
    }
    let m = MenuModel { rows };
    proof {
        if active {
            match status {
                Some(s) => {
                    assert(m@ =~= docker_rows(active, Some(s@)));
                },
                None => {
                    assert(m@ =~= docker_rows(active, None));
                },
            }
        } else {
            match status {
                Some(s) => {
                    assert(m@ =~= docker_rows(active, Some(s@)));
                },
                None => {
                    assert(m@ =~= docker_rows(active, None));
                },
            }
        }
    }
    m
}

/// Derives the mesh variant's menu from the current enabled flag and the
/// peer list.
pub fn project_tailscale(enabled: bool, peers: &Vec<MachineData>) -> (m: MenuModel)
    ensures
        m@ == tailscale_rows(enabled, machine_views(peers@)),
{
    let mut rows: Vec<MenuRow> = Vec::new();
    if enabled {
        rows.push(make_toggle("Disable Tailscale"));
        rows.push(make_refresh());
        rows.push(MenuRow::Separator);
        let ghost pv = machine_views(peers@);
        let mut j: usize = 0;
        while j < peers.len()
            invariant
                0 <= j <= peers@.len(),
                pv == machine_views(peers@),
                row_views(rows@) =~= seq![
                    toggle_row("Disable Tailscale"@),
                    refresh_row(),
                    RowV::Separator,
                ] + peer_rows_of(pv.take(j as int)),
            decreases peers@.len() - j,
        {
            let p = &peers[j];
            let mut label = if p.online {
                String::from_str("[online] ")
            } else {
                String::from_str("[offline] ")
            };
            label.append(p.hostname.as_str());
            label.append(" (");
            label.append(p.ip.as_str());
            label.append(")");
            let row = MenuRow::Item { label, id: p.ip.clone(), enabled: true };
            proof {
                assert(row@ == peer_row(pv[j as int]));
            }
            let ghost rowspre = rows@;
            rows.push(row);
            proof {
                let head = seq![toggle_row("Disable Tailscale"@), refresh_row(), RowV::Separator];
                let target_pre = head + peer_rows_of(pv.take(j as int));
                let target = head + peer_rows_of(pv.take(j + 1));
                assert(peer_rows_of(pv.take(j + 1)) =~= peer_rows_of(pv.take(j as int)).push(
                    peer_row(pv[j as int]),
                ));
                assert(target =~= target_pre.push(peer_row(pv[j as int])));
                assert forall|x: int| 0 <= x < rows@.len() implies row_views(rows@)[x]
                    == target[x] by {
                    if x < rowspre.len() {
                        assert(row_views(rows@)[x] == rowspre[x]@);
                        assert(row_views(rowspre)[x] == rowspre[x]@);
                        assert(row_views(rowspre)[x] == target_pre[x]);
                    } else {
                        assert(row_views(rows@)[x] == row@);
                    }
                }
                assert(row_views(rows@) =~= target);
            }
            j = j + 1;
        }
        rows.push(MenuRow::Separator);
        rows.push(make_quit());
        let m = MenuModel { rows };
        proof {
            assert(pv.take(pv.len() as int) =~= pv);
            assert(m@ =~= tailscale_rows(enabled, machine_views(peers@)));
        }
        m
    } else {
        rows.push(make_toggle("Enable Tailscale"));
        rows.push(MenuRow::Separator);
        rows.push(make_info(String::from_str("Status: Stopped")));
        rows.push(make_refresh());
        rows.push(MenuRow::Separator);
        rows.push(make_quit());
        let m = MenuModel { rows };
        proof {
            assert(m@ =~= tailscale_rows(enabled, machine_views(peers@)));
        }
        m
    }
}

/// With the mesh service disabled the projection emits only the fixed
/// control rows and the disabled status line, so no row's identifier
/// equals any peer's IP — provided no peer IP collides with the fixed
/// identifiers `toggle`, `refresh`, `quit` or the empty informational
/// identifier, which real IP addresses never do.
pub proof fn lemma_project_disabled_no_peer_ids(peers: Seq<MachineV>)
    requires
        forall|k: int|
            0 <= k < peers.len() ==> (#[trigger] peers[k]).ip != "toggle"@ && peers[k].ip
                != "refresh"@ && peers[k].ip != "quit"@ && peers[k].ip.len() > 0,
    ensures
        forall|i: int, k: int|
            0 <= i < tailscale_rows(false, peers).len() && 0 <= k < peers.len() ==> row_id(
                #[trigger] tailscale_rows(false, peers)[i],
            ) != Some((#[trigger] peers[k]).ip),
{
    let rows = tailscale_rows(false, peers);
    reveal_strlit("");
    assert forall|i: int, k: int|
        0 <= i < rows.len() && 0 <= k < peers.len() implies row_id(#[trigger] rows[i]) != Some(
        (#[trigger] peers[k]).ip,
    ) by {
        let ip = peers[k].ip;
        assert(ip != "toggle"@ && ip != "refresh"@ && ip != "quit"@ && ip.len() > 0);
        assert(ip != ""@);
        if i == 0 {
            assert(rows[i] == toggle_row("Enable Tailscale"@));
        } else if i == 1 {
            assert(rows[i] == RowV::Separator);
        } else if i == 2 {
            assert(rows[i] == info_row("Status: Stopped"@));
        } else if i == 3 {
            assert(rows[i] == refresh_row());
        } else if i == 4 {
            assert(rows[i] == RowV::Separator);
        } else {
            assert(rows[i] == quit_row());
        }
    }
}

/// With the mesh service enabled the projection emits exactly one
/// selectable row per peer — no duplicates, no omissions — in the order of
/// the input list, each identified by its peer's IP, between the three
/// leading control rows and the trailing separator and quit row.
pub proof fn lemma_project_enabled_peer_rows(peers: Seq<MachineV>)
    ensures
        tailscale_rows(true, peers).len() == peers.len() + 5,
        forall|k: int|
            0 <= k < peers.len() ==> tailscale_rows(true, peers)[3 + k] == peer_row(
                #[trigger] peers[k],
            ),
        forall|k: int|
            0 <= k < peers.len() ==> row_id(tailscale_rows(true, peers)[3 + k]) == Some(
                (#[trigger] peers[k]).ip,
            ),
{
    let rows = tailscale_rows(true, peers);
    assert forall|k: int| 0 <= k < peers.len() implies rows[3 + k] == peer_row(
        #[trigger] peers[k],
    ) by {
        assert(rows[3 + k] == peer_rows_of(peers)[k]);
    }
}

} // verus!
