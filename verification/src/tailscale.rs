//! Controller logic for the Tailscale mesh daemon.
//!
//! The daemon is driven through the `tailscale` CLI; the process spawning
//! itself is an external collaborator.  This module holds the verified
//! part: parsing the peer table printed by `tailscale status`, the
//! enabled-state decision, the interpretation of the mutating commands,
//! and the toggle decision.

use vstd::prelude::*;

use crate::command::CommandOutput;
use crate::text::chars_eq;
use crate::text::chars_to_string;
use crate::text::contains_seq;
use crate::text::contains_sub;
use crate::text::join_from;
use crate::text::join_spaced;
use crate::text::split_lines;
use crate::text::split_lines_vec;
use crate::text::split_ws;
use crate::text::split_ws_vec;
use crate::text::to_chars;
use crate::text::trim;
use crate::text::trimmed;
use crate::text::views_of;

verus! {

/// One machine of the mesh network, as printed by `tailscale status`.
#[derive(Clone, Debug)]
pub struct MachineData {
    /// The machine's mesh IP address (first column).
    pub ip: String,
    /// The machine's host name (second column).
    pub hostname: String,
    /// The owning user (third column).
    pub user: String,
    /// The operating system (fourth column).
    pub os: String,
    /// The machine is reachable: its details do not mention `offline`.
    pub online: bool,
    /// The remaining columns, joined by single spaces.
    pub details: String,
}

/// The mathematical model of a [`MachineData`].
pub ghost struct MachineV {
    pub ip: Seq<char>,
    pub hostname: Seq<char>,
    pub user: Seq<char>,
    pub os: Seq<char>,
    pub online: bool,
    pub details: Seq<char>,
}

impl View for MachineData {
    type V = MachineV;

    open spec fn view(&self) -> MachineV {
        MachineV {
            ip: self.ip@,
            hostname: self.hostname@,
            user: self.user@,
            os: self.os@,
            online: self.online,
            details: self.details@,
        }
    }
}

/// The views of a sequence of machines.
pub open spec fn machine_views(ms: Seq<MachineData>) -> Seq<MachineV> {
    Seq::new(ms.len(), |i: int| ms[i]@)
}

/// Defines the possible errors that can occur when interacting with the
/// Tailscale CLI.
#[derive(Clone, Debug, PartialEq, Eq)]
pub enum TailscaleError {
    /// The `tailscale` command could not be executed at all; the payload
    /// describes the spawn failure.
    CommandError(String),
    /// The command ran but exited non-zero; the payload is its stderr.
    CommandFailed(String),
    /// Reserved for output the parser cannot interpret at all.
    ParseError(String),
    /// The daemon reported the distinguished stopped state.
    DaemonStopped,
}

impl TailscaleError {
    /// A human-readable description of the error.
    pub fn describe(&self) -> (r: String)
        ensures
            *self matches TailscaleError::CommandError(m) ==> r@
                == "Failed to execute tailscale command: "@ + m@,
            *self matches TailscaleError::CommandFailed(m) ==> r@
                == "Tailscale command failed with stderr: "@ + m@,
            *self matches TailscaleError::ParseError(m) ==> r@
                == "Failed to parse tailscale output: "@ + m@,
            *self is DaemonStopped ==> r@ == "Tailscale daemon is stopped."@,
    {
        match self {
            TailscaleError::CommandError(m) => String::from_str(
                "Failed to execute tailscale command: ",
            ).concat(m.as_str()),
            TailscaleError::CommandFailed(m) => String::from_str(
                "Tailscale command failed with stderr: ",
            ).concat(m.as_str()),
            TailscaleError::ParseError(m) => String::from_str(
                "Failed to parse tailscale output: ",
            ).concat(m.as_str()),
            TailscaleError::DaemonStopped => String::from_str("Tailscale daemon is stopped."),
        }
    }
}

/// The action a toggle decision selects.
#[derive(Clone, Copy, Debug, PartialEq, Eq, Structural)]
pub enum TailscaleAction {
    /// Run `tailscale up`.
    Up,
    /// Run `tailscale down`.
    Down,
}

/// The distinguished text the CLI prints while the daemon is stopped.
pub open spec fn stopped_msg() -> Seq<char> {
    "Tailscale is stopped."@
}

/// A line describes a machine when it has at least four
/// whitespace-separated tokens (ip, hostname, user, os).
pub open spec fn is_machine_line(line: Seq<char>) -> bool {
    split_ws(line).len() >= 4
}

/// A machine's validity invariant: `online` holds exactly when the details
/// do not contain the text `offline`.
pub open spec fn wf_machine(m: MachineV) -> bool {
    m.online == !contains_seq(m.details, "offline"@)
}

/// The machine described by a machine line: the first four tokens name
/// ip, hostname, user and operating system; the remaining tokens joined by
/// single spaces form the details.
pub open spec fn machine_of_line(line: Seq<char>) -> MachineV
    recommends
        is_machine_line(line),
{
    let toks = split_ws(line);
    let details = join_spaced(toks.skip(4));
    MachineV {
        ip: toks[0],
        hostname: toks[1],
        user: toks[2],
        os: toks[3],
        online: !contains_seq(details, "offline"@),
        details: details,
    }
}

/// The online machines of the given lines, in source order.
pub open spec fn online_rows(lines: Seq<Seq<char>>) -> Seq<MachineV>
    decreases lines.len(),
{
    if lines.len() == 0 {
        Seq::empty()
    } else {
        online_rows(lines.drop_last()) + (if is_machine_line(lines.last())
            && machine_of_line(lines.last()).online {
            seq![machine_of_line(lines.last())]
        } else {
            Seq::empty()
        })
    }
}

/// The offline machines of the given lines, in source order.
pub open spec fn offline_rows(lines: Seq<Seq<char>>) -> Seq<MachineV>
    decreases lines.len(),
{
    if lines.len() == 0 {
        Seq::empty()
    } else {
        offline_rows(lines.drop_last()) + (if is_machine_line(lines.last())
            && !machine_of_line(lines.last()).online {
            seq![machine_of_line(lines.last())]
        } else {
            Seq::empty()
        })
    }
}

/// The number of machine lines.
pub open spec fn machine_line_count(lines: Seq<Seq<char>>) -> int
    decreases lines.len(),
{
    if lines.len() == 0 {
        0
    } else {
        machine_line_count(lines.drop_last()) + (if is_machine_line(lines.last()) {
            1int
        } else {
            0int
        })
    }
}

/// The parsed peer list of a full `tailscale status` text: the online
/// machines first, then the offline machines, each group in source order.
///
/// The ordering is deliberate and documented here: the peer list is
/// partitioned by reachability, and within each group the order of the
/// source lines is preserved.
pub open spec fn spec_peers(raw: Seq<char>) -> Seq<MachineV> {
    online_rows(split_lines(raw)) + offline_rows(split_lines(raw))
}

/// A simple wrapper for the Tailscale CLI.
///
/// The commands themselves run outside this crate; every operation here
/// takes the captured command result and interprets it.
pub struct Tailscale;

impl Tailscale {
    /// Parses the captured output of `tailscale status` into the peer
    /// list: online machines first, then offline machines, each group in
    /// source order.  A non-zero exit is reported as `CommandFailed`; the
    /// distinguished text `Tailscale is stopped.` is reported as
    /// `DaemonStopped`, not as a parse failure.
    pub fn status(output: &CommandOutput) -> (r: Result<Vec<MachineData>, TailscaleError>)
        ensures
            !output.exit_success ==> (r matches Err(TailscaleError::CommandFailed(m)) && m@
                == output.stderr@),
            output.exit_success && trimmed(output.stdout@) == stopped_msg() ==> r matches Err(
                TailscaleError::DaemonStopped,
            ),
            output.exit_success && trimmed(output.stdout@) != stopped_msg() ==> (r matches Ok(ms)
                && machine_views(ms@) == spec_peers(output.stdout@)),
    {
        if !output.exit_success {
            return Err(TailscaleError::CommandFailed(output.stderr.clone()));
        }
        let cs = to_chars(output.stdout.as_str());
        let tcs = trim(&cs);
        let stopped = to_chars("Tailscale is stopped.");
        if chars_eq(&tcs, &stopped) {
            return Err(TailscaleError::DaemonStopped);
        }
        let lines = split_lines_vec(&cs);
        let offline_needle = to_chars("offline");
        let ghost lseq = split_lines(output.stdout@);

        let mut onl: Vec<MachineData> = Vec::new();
        let ghost mut onlv: Seq<MachineV> = Seq::empty();
        let mut off: Vec<MachineData> = Vec::new();
        let ghost mut offv: Seq<MachineV> = Seq::empty();

        let mut i: usize = 0;
        proof {
            assert(lseq.take(0) =~= Seq::<Seq<char>>::empty());
        }
        while i < lines.len()
            invariant
                0 <= i <= lines@.len(),
                views_of(lines@) == lseq,
                lseq == split_lines(output.stdout@),
                offline_needle@ == "offline"@,
                onlv == online_rows(lseq.take(i as int)),
                offv == offline_rows(lseq.take(i as int)),
                onl@.len() == onlv.len(),
                forall|k: int| 0 <= k < onl@.len() ==> onl@[k]@ == #[trigger] onlv[k],
                off@.len() == offv.len(),
                forall|k: int| 0 <= k < off@.len() ==> off@[k]@ == #[trigger] offv[k],
            decreases lines@.len() - i,
        {
            proof {
                assert(lines@[i as int]@ == lseq[i as int]);
                assert(lseq.take(i + 1).drop_last() =~= lseq.take(i as int));
                assert(lseq.take(i + 1).last() == lseq[i as int]);
            }
            let toks = split_ws_vec(&lines[i]);
            if toks.len() >= 4 {
                let details = join_from(&toks, 4);
                let online = !contains_sub(&details, &offline_needle);
                let m = MachineData {
                    ip: chars_to_string(&toks[0]),
                    hostname: chars_to_string(&toks[1]),
                    user: chars_to_string(&toks[2]),
                    os: chars_to_string(&toks[3]),
                    online,
                    details: chars_to_string(&details),
                };
                proof {
                    assert(toks@[0]@ == split_ws(lseq[i as int])[0]);
                    assert(toks@[1]@ == split_ws(lseq[i as int])[1]);
                    assert(toks@[2]@ == split_ws(lseq[i as int])[2]);
                    assert(toks@[3]@ == split_ws(lseq[i as int])[3]);
                    assert(views_of(toks@).skip(4) =~= split_ws(lseq[i as int]).skip(4));
                    assert(m@ == machine_of_line(lseq[i as int]));
                }
                if online {
                    onl.push(m);
                    proof {
                        onlv = onlv.push(machine_of_line(lseq[i as int]));
                        assert(onlv =~= online_rows(lseq.take(i + 1)));
                        assert(offv =~= offline_rows(lseq.take(i + 1)));
                    }
                } else {
                    off.push(m);
                    proof {
                        offv = offv.push(machine_of_line(lseq[i as int]));
                        assert(onlv =~= online_rows(lseq.take(i + 1)));
                        assert(offv =~= offline_rows(lseq.take(i + 1)));
                    }
                }
            } else {
                proof {
                    assert(onlv =~= online_rows(lseq.take(i + 1)));
                    assert(offv =~= offline_rows(lseq.take(i + 1)));
                }
            }
            i = i + 1;
        }
        proof {
            assert(lseq.take(lseq.len() as int) =~= lseq);
        }
        let mut machines = onl;
        let mut rest = off;
        machines.append(&mut rest);
        proof {
            assert(machine_views(machines@) =~= onlv + offv);
        }
        Ok(machines)
    }

    /// A convenience function to get only the online machines, in source
    /// order.
    pub fn online_machines(output: &CommandOutput) -> (r: Result<
        Vec<MachineData>,
        TailscaleError,
    >)
        ensures
            !output.exit_success ==> (r matches Err(TailscaleError::CommandFailed(m)) && m@
                == output.stderr@),
            output.exit_success && trimmed(output.stdout@) == stopped_msg() ==> r matches Err(
                TailscaleError::DaemonStopped,
            ),
            output.exit_success && trimmed(output.stdout@) != stopped_msg() ==> (r matches Ok(ms)
                && machine_views(ms@) == online_rows(split_lines(output.stdout@))),
    {
        let machines = match Self::status(output) {
            Ok(ms) => ms,
            Err(e) => {
                return Err(e);
            },
        };
        let ghost lseq = split_lines(output.stdout@);
        let ghost all = machine_views(machines@);
        let mut res: Vec<MachineData> = Vec::new();
        let ghost mut resv: Seq<MachineV> = Seq::empty();
        let mut j: usize = 0;
        proof {
            assert(all.take(0) =~= Seq::<MachineV>::empty());
            assert(keep_online(all.take(0)) =~= Seq::<MachineV>::empty());
        }
        while j < machines.len()
            invariant
                0 <= j <= machines@.len(),
                all == machine_views(machines@),
                resv == keep_online(all.take(j as int)),
                res@.len() == resv.len(),
                forall|k: int| 0 <= k < res@.len() ==> res@[k]@ == #[trigger] resv[k],
            decreases machines@.len() - j,
        {
            proof {
                assert(all.take(j + 1).drop_last() =~= all.take(j as int));
                assert(all.take(j + 1).last() == machines@[j as int]@);
            }
            if machines[j].online {
                let m = machines[j].clone_data();
                res.push(m);
                proof {
                    resv = resv.push(machines@[j as int]@);
                    assert(resv =~= keep_online(all.take(j + 1)));
                }
            } else {
                proof {
                    assert(resv =~= keep_online(all.take(j + 1)));
                }
            }
            j = j + 1;
        }
        proof {
            assert(all.take(all.len() as int) =~= all);
            lemma_keep_online_add(online_rows(lseq), offline_rows(lseq));
            lemma_online_rows_props(lseq);
            lemma_offline_rows_props(lseq);
            lemma_keep_online_all(online_rows(lseq));
            lemma_keep_online_none(offline_rows(lseq));
            assert(keep_online(all) =~= online_rows(lseq));
            assert(machine_views(res@) =~= resv);
        }
        Ok(res)
    }

    /// Decides whether the daemon is enabled from the captured output of
    /// the status query.  A failing query whose stderr reports the known
    /// not-running conditions counts as disabled rather than as an error;
    /// any other failure is surfaced.  A successful query reports enabled
    /// unless it printed the distinguished stopped text.
    pub fn is_enabled(output: &CommandOutput) -> (r: Result<bool, TailscaleError>)
        ensures
            output.exit_success ==> (r matches Ok(b) && b == (trimmed(output.stdout@)
                != stopped_msg())),
            !output.exit_success && (contains_seq(output.stderr@, "Tailscale is not running"@)
                || contains_seq(output.stderr@, "Cannot connect to the Tailscale daemon"@)) ==> r
                == Ok::<bool, TailscaleError>(false),
            !output.exit_success && !contains_seq(output.stderr@, "Tailscale is not running"@)
                && !contains_seq(output.stderr@, "Cannot connect to the Tailscale daemon"@) ==> (
            r matches Err(TailscaleError::CommandFailed(m)) && m@ == output.stderr@),
    {
        if !output.exit_success {
            let err = to_chars(output.stderr.as_str());
            let not_running = to_chars("Tailscale is not running");
            let cannot_connect = to_chars("Cannot connect to the Tailscale daemon");
            if contains_sub(&err, &not_running) || contains_sub(&err, &cannot_connect) {
                Ok(false)
            } else {
                Err(TailscaleError::CommandFailed(output.stderr.clone()))
            }
        } else {
            let cs = to_chars(output.stdout.as_str());
            let tcs = trim(&cs);
            let stopped = to_chars("Tailscale is stopped.");
            let is_stopped = chars_eq(&tcs, &stopped);
            Ok(!is_stopped)
        }
    }

    /// Interprets the outcome of `tailscale up`.
    pub fn up(output: &CommandOutput) -> (r: Result<(), TailscaleError>)
        ensures
            output.exit_success <==> r is Ok,
            !output.exit_success ==> (r matches Err(TailscaleError::CommandFailed(m)) && m@
                == output.stderr@),
    {
        if output.exit_success {
            Ok(())
        } else {
            Err(TailscaleError::CommandFailed(output.stderr.clone()))
        }
    }

    /// Interprets the outcome of `tailscale down`.
    pub fn down(output: &CommandOutput) -> (r: Result<(), TailscaleError>)
        ensures
            output.exit_success <==> r is Ok,
            !output.exit_success ==> (r matches Err(TailscaleError::CommandFailed(m)) && m@
                == output.stderr@),
    {
        if output.exit_success {
            Ok(())
        } else {
            Err(TailscaleError::CommandFailed(output.stderr.clone()))
        }
    }

    /// The toggle decision: bring the daemon down when the enabled query
    /// succeeded with `true`, and up in every other case — a failed query
    /// counts as disabled.
    pub fn toggle(query: Result<bool, TailscaleError>) -> (a: TailscaleAction)
        ensures
            query matches Ok(true) ==> a == TailscaleAction::Down,
            !(query matches Ok(true)) ==> a == TailscaleAction::Up,
    {
        match query {
            Ok(true) => TailscaleAction::Down,
            _ => TailscaleAction::Up,
        }
    }
}

impl MachineData {
    /// A field-wise copy; the copy's view equals the view of `self`.
    pub fn clone_data(&self) -> (r: MachineData)
        ensures
            r@ == self@,
    {
        MachineData {
            ip: self.ip.clone(),
            hostname: self.hostname.clone(),
            user: self.user.clone(),
            os: self.os.clone(),
            online: self.online,
            details: self.details.clone(),
        }
    }
}

/// The online machines among `s`, in order.
pub open spec fn keep_online(s: Seq<MachineV>) -> Seq<MachineV>
    decreases s.len(),
{
    if s.len() == 0 {
        Seq::empty()
    } else {
        keep_online(s.drop_last()) + (if s.last().online {
            seq![s.last()]
        } else {
            Seq::empty()
        })
    }
}

/// Keeping the online machines distributes over concatenation.
pub proof fn lemma_keep_online_add(a: Seq<MachineV>, b: Seq<MachineV>)
    ensures
        keep_online(a + b) == keep_online(a) + keep_online(b),
    decreases b.len(),
{
    if b.len() == 0 {
        assert(a + b =~= a);
        assert(keep_online(a) + keep_online(b) =~= keep_online(a));
    } else {
        lemma_keep_online_add(a, b.drop_last());
        assert((a + b).drop_last() =~= a + b.drop_last());
        assert((a + b).last() == b.last());
        assert(keep_online(a + b) =~= keep_online(a) + keep_online(b));
    }
}

/// Every entry of `online_rows` is online and well formed.
pub proof fn lemma_online_rows_props(lines: Seq<Seq<char>>)
    ensures
        forall|k: int|
            0 <= k < online_rows(lines).len() ==> (#[trigger] online_rows(lines)[k]).online
                && wf_machine(online_rows(lines)[k]),
    decreases lines.len(),
{
    if lines.len() > 0 {
        lemma_online_rows_props(lines.drop_last());
        let pre = online_rows(lines.drop_last());
        let all = online_rows(lines);
        assert forall|k: int|
            0 <= k < all.len() implies (#[trigger] all[k]).online && wf_machine(all[k]) by {
            if k < pre.len() {
                assert(all[k] == pre[k]);
            } else {
                assert(all[k] == machine_of_line(lines.last()));
            }
        }
    }
}

/// Every entry of `offline_rows` is offline and well formed.
pub proof fn lemma_offline_rows_props(lines: Seq<Seq<char>>)
    ensures
        forall|k: int|
            0 <= k < offline_rows(lines).len() ==> !(#[trigger] offline_rows(lines)[k]).online
                && wf_machine(offline_rows(lines)[k]),
    decreases lines.len(),
{
    if lines.len() > 0 {
        lemma_offline_rows_props(lines.drop_last());
        let pre = offline_rows(lines.drop_last());
        let all = offline_rows(lines);
        assert forall|k: int|
            0 <= k < all.len() implies !(#[trigger] all[k]).online && wf_machine(all[k]) by {
            if k < pre.len() {
                assert(all[k] == pre[k]);
            } else {
                assert(all[k] == machine_of_line(lines.last()));
            }
        }
    }
}

/// Filtering a sequence of online machines keeps all of them.
pub proof fn lemma_keep_online_all(s: Seq<MachineV>)
    requires
        forall|k: int| 0 <= k < s.len() ==> (#[trigger] s[k]).online,
    ensures
        keep_online(s) == s,
    decreases s.len(),
{
    if s.len() > 0 {
        lemma_keep_online_all(s.drop_last());
        assert(keep_online(s) =~= s);
    }
}

/// Filtering a sequence of offline machines keeps none of them.
pub proof fn lemma_keep_online_none(s: Seq<MachineV>)
    requires
        forall|k: int| 0 <= k < s.len() ==> !(#[trigger] s[k]).online,
    ensures
        keep_online(s) == Seq::<MachineV>::empty(),
    decreases s.len(),
{
    if s.len() > 0 {
        lemma_keep_online_none(s.drop_last());
        assert(keep_online(s) =~= Seq::<MachineV>::empty());
    }
}

/// The counts of online and offline machines add up to the number of
/// machine lines.
pub proof fn lemma_row_counts(lines: Seq<Seq<char>>)
    ensures
        online_rows(lines).len() + offline_rows(lines).len() == machine_line_count(lines),
        machine_line_count(lines) >= 0,
    decreases lines.len(),
{
    if lines.len() > 0 {
        lemma_row_counts(lines.drop_last());
    }
}

/// The parsed peer list is partitioned: every machine satisfies the
/// `online`-versus-details invariant, all online machines precede all
/// offline machines, and there is exactly one entry per machine line.
pub proof fn lemma_peers_partitioned(raw: Seq<char>)
    ensures
        forall|k: int| 0 <= k < spec_peers(raw).len() ==> wf_machine(#[trigger] spec_peers(raw)[k]),
        forall|i: int, j: int|
            0 <= i < j < spec_peers(raw).len() && !spec_peers(raw)[i].online ==> !spec_peers(
                raw,
            )[j].online,
        spec_peers(raw).len() == machine_line_count(split_lines(raw)),
{
    let lines = split_lines(raw);
    lemma_online_rows_props(lines);
    lemma_offline_rows_props(lines);
    lemma_row_counts(lines);
    let peers = spec_peers(raw);
    let onl = online_rows(lines);
    let off = offline_rows(lines);
    assert forall|k: int| 0 <= k < peers.len() implies wf_machine(#[trigger] peers[k]) by {
        if k < onl.len() {
            assert(peers[k] == onl[k]);
        } else {
            assert(peers[k] == off[k - onl.len()]);
        }
    }
    assert forall|i: int, j: int|
        0 <= i < j < peers.len() && !peers[i].online implies !peers[j].online by {
        if i < onl.len() {
            assert(peers[i] == onl[i]);
            assert(peers[i].online);
        } else {
            assert(peers[j] == off[j - onl.len()]);
        }
    }
}

} // verus!
