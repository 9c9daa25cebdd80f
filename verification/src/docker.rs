//! Controller logic for the Docker daemon.
//!
//! The daemon is driven through `systemctl`; the process spawning itself is
//! an external collaborator.  This module holds the verified part: parsing
//! the human-readable `systemctl status` text into a [`DockerStatus`]
//! record, interpreting the outcome of the mutating commands, and the
//! toggle decision.

use vstd::prelude::*;

use crate::command::CommandOutput;
use crate::text::contains_seq;
use crate::text::contains_sub;
use crate::text::parse_u32;
use crate::text::parse_u32_str;
use crate::text::split_lines;
use crate::text::split_lines_vec;
use crate::text::split_ws;
use crate::text::split_ws_vec;
use crate::text::to_chars;
use crate::text::chars_to_string;
use crate::text::trim;
use crate::text::trimmed;
use crate::text::copy_range;
use crate::text::views_of;

verus! {

/// Represents the parsed status of the Docker daemon.
#[derive(Clone, Debug)]
pub struct DockerStatus {
    /// The raw, multi-line output from the `systemctl status` command.
    pub raw_output: String,
    /// The value of the "Active" field, e.g., "active (running)" or "inactive (dead)".
    pub active_state: String,
    /// A simple boolean indicating if the service is currently running.
    pub is_active: bool,
    /// The value of the "Loaded" field.
    pub loaded_state: String,
    /// The main process ID of the daemon, if it's running.
    pub main_pid: Option<u32>,
    /// The peak memory usage reported by systemd.
    pub memory_peak: Option<String>,
    /// The total CPU time consumed, as reported by systemd.
    pub cpu_time: Option<String>,
}

/// The mathematical model of a [`DockerStatus`].
pub ghost struct DockerStatusV {
    pub raw_output: Seq<char>,
    pub active_state: Seq<char>,
    pub is_active: bool,
    pub loaded_state: Seq<char>,
    pub main_pid: Option<u32>,
    pub memory_peak: Option<Seq<char>>,
    pub cpu_time: Option<Seq<char>>,
}

impl View for DockerStatus {
    type V = DockerStatusV;

    open spec fn view(&self) -> DockerStatusV {
        DockerStatusV {
            raw_output: self.raw_output@,
            active_state: self.active_state@,
            is_active: self.is_active,
            loaded_state: self.loaded_state@,
            main_pid: self.main_pid,
            memory_peak: match self.memory_peak {
                Some(s) => Some(s@),
                None => None,
            },
            cpu_time: match self.cpu_time {
                Some(s) => Some(s@),
                None => None,
            },
        }
    }
}

impl Default for DockerStatus {
    /// The record with every field empty or absent and the flag cleared.
    fn default() -> (r: DockerStatus)
        ensures
            r.raw_output@ == Seq::<char>::empty(),
            r.active_state@ == Seq::<char>::empty(),
            !r.is_active,
            r.loaded_state@ == Seq::<char>::empty(),
            r.main_pid is None,
            r.memory_peak is None,
            r.cpu_time is None,
    {
        DockerStatus {
            raw_output: String::new(),
            active_state: String::new(),
            is_active: false,
            loaded_state: String::new(),
            main_pid: None,
            memory_peak: None,
            cpu_time: None,
        }
    }
}

/// Defines the possible errors that can occur when interacting with the
/// Docker daemon.
#[derive(Clone, Debug, PartialEq, Eq)]
pub enum DockerError {
    /// The `systemctl` command could not be executed at all; the payload
    /// describes the spawn failure.
    CommandError(String),
    /// The command ran but exited non-zero; the payload is its stderr.
    CommandFailed(String),
    /// Reserved for output the parser cannot interpret at all.  The parser
    /// degrades gracefully field by field, so this is not raised by it.
    ParseError(String),
}

impl DockerError {
    /// A human-readable description of the error.
    pub fn describe(&self) -> (r: String)
        ensures
            *self matches DockerError::CommandError(m) ==> r@ == "Failed to execute systemctl command: "@
                + m@,
            *self matches DockerError::CommandFailed(m) ==> r@
                == "Sudo/systemctl command failed with stderr: "@ + m@,
            *self matches DockerError::ParseError(m) ==> r@
                == "Failed to parse systemctl output: "@ + m@,
    {
        match self {
            DockerError::CommandError(m) => String::from_str(
                "Failed to execute systemctl command: ",
            ).concat(m.as_str()),
            DockerError::CommandFailed(m) => String::from_str(
                "Sudo/systemctl command failed with stderr: ",
            ).concat(m.as_str()),
            DockerError::ParseError(m) => String::from_str(
                "Failed to parse systemctl output: ",
            ).concat(m.as_str()),
        }
    }
}

/// The action a toggle decision selects.
#[derive(Clone, Copy, Debug, PartialEq, Eq, Structural)]
pub enum DaemonAction {
    /// Run the start command.
    Start,
    /// Run the stop command.
    Stop,
}

/// The value carried by a `key` line, taken as given: when the line
/// starts with `key`, the remainder with surrounding whitespace removed;
/// nothing otherwise.
pub open spec fn line_value(line: Seq<char>, key: Seq<char>) -> Option<Seq<char>> {
    if key.is_prefix_of(line) {
        Some(trimmed(line.skip(key.len() as int)))
    } else {
        None
    }
}

/// The value the status scan recognizes on a line: the line is trimmed
/// first, then matched against `key`.
pub open spec fn recognized_value(line: Seq<char>, key: Seq<char>) -> Option<Seq<char>> {
    line_value(trimmed(line), key)
}

/// The value of the last line recognized for `key`, scanning all lines.
pub open spec fn last_line_value(lines: Seq<Seq<char>>, key: Seq<char>) -> Option<Seq<char>>
    decreases lines.len(),
{
    if lines.len() == 0 {
        None
    } else if recognized_value(lines.last(), key) is Some {
        recognized_value(lines.last(), key)
    } else {
        last_line_value(lines.drop_last(), key)
    }
}

/// The carried value, or the empty sequence when no line was recognized.
pub open spec fn value_or_empty(v: Option<Seq<char>>) -> Seq<char> {
    match v {
        Some(s) => s,
        None => Seq::empty(),
    }
}

/// The PID parsed from a recognized `Main PID:` value: its first
/// whitespace-delimited token read as a decimal `u32`, `None` when the
/// token is missing or does not parse.
pub open spec fn pid_from_value(v: Option<Seq<char>>) -> Option<u32> {
    match v {
        None => None,
        Some(s) => {
            let toks = split_ws(s);
            if toks.len() == 0 {
                None
            } else {
                parse_u32_str(toks[0])
            }
        },
    }
}

/// The parsed model of a full `systemctl status docker` text.
///
/// Each recognized field takes the value of the last line carrying it;
/// `is_active` holds exactly when the active state contains `"(running)"`;
/// optional fields stay `None` when their source line is absent.
pub open spec fn spec_daemon_status(raw: Seq<char>) -> DockerStatusV {
    let lines = split_lines(raw);
    let active = value_or_empty(last_line_value(lines, "Active:"@));
    DockerStatusV {
        raw_output: raw,
        active_state: active,
        is_active: contains_seq(active, "(running)"@),
        loaded_state: value_or_empty(last_line_value(lines, "Loaded:"@)),
        main_pid: pid_from_value(last_line_value(lines, "Main PID:"@)),
        memory_peak: last_line_value(lines, "Mem peak:"@),
        cpu_time: last_line_value(lines, "CPU:"@),
    }
}

/// The view of an optional character buffer.
pub open spec fn opt_view(v: Option<Vec<char>>) -> Option<Seq<char>> {
    match v {
        Some(x) => Some(x@),
        None => None,
    }
}

/// A simple wrapper for controlling the Docker daemon via `systemctl`.
///
/// The commands themselves run outside this crate; every operation here
/// takes the captured command result and interprets it.
pub struct Docker;

impl Docker {
    /// Helper to parse a "Key: Value" line: strips the key prefix from the
    /// line as given and trims the remaining value.
    pub fn parse_line_value(line: &Vec<char>, key: &str) -> (r: Option<Vec<char>>)
        ensures
            r is Some <==> line_value(line@, key@) is Some,
            r matches Some(v) ==> line_value(line@, key@) == Some(v@),
    {
        let kc = to_chars(key);
        let klen = kc.len();
        if klen > line.len() {
            return None;
        }
        let mut k: usize = 0;
        while k < klen
            invariant
                0 <= k <= klen == kc@.len(),
                klen <= line@.len(),
                kc@ == key@,
                forall|j: int| 0 <= j < k ==> kc@[j] == line@[j],
            decreases klen - k,
        {
            if kc[k] != line[k] {
                proof {
                    assert(line@.subrange(0, klen as int)[k as int] == line@[k as int]);
                    assert(!kc@.is_prefix_of(line@));
                    assert(line_value(line@, key@) is None);
                }
                return None;
            }
            k = k + 1;
        }
        proof {
            assert(kc@ =~= line@.subrange(0, klen as int));
            assert(kc@.is_prefix_of(line@));
        }
        let rest = copy_range(line, klen, line.len());
        let value = trim(&rest);
        proof {
            assert(line@.subrange(klen as int, line@.len() as int) =~= line@.skip(klen as int));
        }
        Some(value)
    }

    /// Parses the captured output of `systemctl status docker` into a
    /// [`DockerStatus`].
    ///
    /// The text is parsed regardless of the command's exit code, because
    /// `systemctl status` legitimately exits non-zero when the service is
    /// inactive.
    pub fn status(output: &CommandOutput) -> (st: DockerStatus)
        ensures
            st@ == spec_daemon_status(output.stdout@),
    {
        let cs = to_chars(output.stdout.as_str());
        let lines = split_lines_vec(&cs);
        let running = to_chars("(running)");
        let ghost lseq = split_lines(output.stdout@);

        let mut active_state: Vec<char> = Vec::new();
        let mut is_active: bool = false;
        let mut loaded_state: Vec<char> = Vec::new();
        let mut main_pid: Option<u32> = None;
        let mut memory_peak: Option<Vec<char>> = None;
        let mut cpu_time: Option<Vec<char>> = None;

        let mut i: usize = 0;
        proof {
            assert(lseq.take(0) =~= Seq::<Seq<char>>::empty());
            reveal_strlit("(running)");
            assert(!contains_seq(Seq::<char>::empty(), "(running)"@));
        }
        while i < lines.len()
            invariant
                0 <= i <= lines@.len(),
                views_of(lines@) == lseq,
                lseq == split_lines(output.stdout@),
                running@ == "(running)"@,
                active_state@ == value_or_empty(last_line_value(lseq.take(i as int), "Active:"@)),
                is_active == contains_seq(
                    value_or_empty(last_line_value(lseq.take(i as int), "Active:"@)),
                    "(running)"@,
                ),
                loaded_state@ == value_or_empty(
                    last_line_value(lseq.take(i as int), "Loaded:"@),
                ),
                main_pid == pid_from_value(last_line_value(lseq.take(i as int), "Main PID:"@)),
                opt_view(memory_peak) == last_line_value(lseq.take(i as int), "Mem peak:"@),
                opt_view(cpu_time) == last_line_value(lseq.take(i as int), "CPU:"@),
            decreases lines@.len() - i,
        {
            proof {
                assert(lines@[i as int]@ == lseq[i as int]);
                assert(lseq.take(i + 1).drop_last() =~= lseq.take(i as int));
                assert(lseq.take(i + 1).last() == lseq[i as int]);
            }
            let tline = trim(&lines[i]);
            if let Some(v) = Self::parse_line_value(&tline, "Active:") {
                active_state = v;
                is_active = contains_sub(&active_state, &running);
            }
            if let Some(v) = Self::parse_line_value(&tline, "Loaded:") {
                loaded_state = v;
            }
            if let Some(v) = Self::parse_line_value(&tline, "Main PID:") {
                let toks = split_ws_vec(&v);
                if toks.len() > 0 {
                    proof {
                        assert(toks@[0]@ == split_ws(v@)[0]);
                    }
                    main_pid = parse_u32(&toks[0]);
                } else {
                    main_pid = None;
                }
            }
            if let Some(v) = Self::parse_line_value(&tline, "Mem peak:") {
                memory_peak = Some(v);
            }
            if let Some(v) = Self::parse_line_value(&tline, "CPU:") {
                cpu_time = Some(v);
            }
            i = i + 1;
        }
        proof {
            assert(lseq.take(lseq.len() as int) =~= lseq);
        }
        let st = DockerStatus {
            raw_output: output.stdout.clone(),
            active_state: chars_to_string(&active_state),
            is_active,
            loaded_state: chars_to_string(&loaded_state),
            main_pid,
            memory_peak: match &memory_peak {
                Some(v) => Some(chars_to_string(v)),
                None => None,
            },
            cpu_time: match &cpu_time {
                Some(v) => Some(chars_to_string(v)),
                None => None,
            },
        };
        st
    }

    /// Checks if the Docker daemon is currently active and running, given
    /// the captured output of the status query.
    pub fn is_active(output: &CommandOutput) -> (b: bool)
        ensures
            b == spec_daemon_status(output.stdout@).is_active,
    {
        let status = Self::status(output);
        status.is_active
    }

    /// Interprets the outcome of `sudo systemctl start docker`.
    pub fn start(output: &CommandOutput) -> (r: Result<(), DockerError>)
        ensures
            output.exit_success <==> r is Ok,
            !output.exit_success ==> (r matches Err(DockerError::CommandFailed(m)) && m@
                == output.stderr@),
    {
        if output.exit_success {
            Ok(())
        } else {
            Err(DockerError::CommandFailed(output.stderr.clone()))
        }
    }

    /// Interprets the outcome of `sudo systemctl stop docker`.
    pub fn stop(output: &CommandOutput) -> (r: Result<(), DockerError>)
        ensures
            output.exit_success <==> r is Ok,
            !output.exit_success ==> (r matches Err(DockerError::CommandFailed(m)) && m@
                == output.stderr@),
    {
        if output.exit_success {
            Ok(())
        } else {
            Err(DockerError::CommandFailed(output.stderr.clone()))
        }
    }

    /// The toggle decision: stop the daemon when the activity query found
    /// it active, and start it in every other case — a failed query counts
    /// as inactive.
    pub fn toggle(query: Result<bool, DockerError>) -> (a: DaemonAction)
        ensures
            query matches Ok(true) ==> a == DaemonAction::Stop,
            !(query matches Ok(true)) ==> a == DaemonAction::Start,
    {
        match query {
            Ok(true) => DaemonAction::Stop,
            _ => DaemonAction::Start,
        }
    }
}

/// When line `i` is the last one recognized for `key`, the scan returns
/// that line's value.
pub proof fn lemma_last_line_value_found(lines: Seq<Seq<char>>, key: Seq<char>, i: int)
    requires
        0 <= i < lines.len(),
        recognized_value(lines[i], key) is Some,
        forall|j: int| i < j < lines.len() ==> recognized_value(#[trigger] lines[j], key) is None,
    ensures
        last_line_value(lines, key) == recognized_value(lines[i], key),
    decreases lines.len(),
{
    if i < lines.len() - 1 {
        assert(recognized_value(lines[lines.len() - 1], key) is None);
        assert(lines.drop_last()[i] == lines[i]);
        assert(forall|j: int|
            i < j < lines.drop_last().len() ==> recognized_value(
                #[trigger] lines.drop_last()[j],
                key,
            ) is None);
        lemma_last_line_value_found(lines.drop_last(), key, i);
    }
}

/// When no line is recognized for `key`, the scan returns nothing.
pub proof fn lemma_last_line_value_absent(lines: Seq<Seq<char>>, key: Seq<char>)
    requires
        forall|j: int| 0 <= j < lines.len() ==> recognized_value(#[trigger] lines[j], key) is None,
    ensures
        last_line_value(lines, key) is None,
    decreases lines.len(),
{
    if lines.len() > 0 {
        assert(forall|j: int|
            0 <= j < lines.drop_last().len() ==> recognized_value(
                #[trigger] lines.drop_last()[j],
                key,
            ) is None);
        lemma_last_line_value_absent(lines.drop_last(), key);
    }
}

/// A text whose last recognized `Active:` line carries the value `v`
/// parses with `active_state == v`, and `is_active` holds exactly when `v`
/// contains `"(running)"`.
pub proof fn lemma_active_line_determines_state(raw: Seq<char>, i: int)
    requires
        0 <= i < split_lines(raw).len(),
        recognized_value(split_lines(raw)[i], "Active:"@) is Some,
        forall|j: int|
            i < j < split_lines(raw).len() ==> recognized_value(
                #[trigger] split_lines(raw)[j],
                "Active:"@,
            ) is None,
    ensures
        Some(spec_daemon_status(raw).active_state) == recognized_value(split_lines(raw)[i], "Active:"@),
        spec_daemon_status(raw).is_active <==> contains_seq(
            recognized_value(split_lines(raw)[i], "Active:"@)->Some_0,
            "(running)"@,
        ),
{
    lemma_last_line_value_found(split_lines(raw), "Active:"@, i);
}

/// A text whose last recognized `Main PID:` line carries the value `v`
/// parses with the PID read from `v`'s first token — `None` when that
/// token is missing or not a number; a text with no recognized `Main PID:`
/// line parses with no PID.  Neither case is an error.
pub proof fn lemma_main_pid_line_determines_pid(raw: Seq<char>)
    ensures
        forall|i: int|
            (0 <= i < split_lines(raw).len() && recognized_value(
                #[trigger] split_lines(raw)[i],
                "Main PID:"@,
            ) is Some && (forall|j: int|
                i < j < split_lines(raw).len() ==> recognized_value(
                    #[trigger] split_lines(raw)[j],
                    "Main PID:"@,
                ) is None)) ==> spec_daemon_status(raw).main_pid == pid_from_value(
                recognized_value(split_lines(raw)[i], "Main PID:"@),
            ),
        (forall|j: int|
            0 <= j < split_lines(raw).len() ==> recognized_value(
                #[trigger] split_lines(raw)[j],
                "Main PID:"@,
            ) is None) ==> spec_daemon_status(raw).main_pid is None,
{
    let lines = split_lines(raw);
    assert forall|i: int|
        (0 <= i < lines.len() && recognized_value(#[trigger] lines[i], "Main PID:"@) is Some && (
        forall|j: int|
            i < j < lines.len() ==> recognized_value(
                #[trigger] lines[j],
                "Main PID:"@,
            ) is None)) implies spec_daemon_status(raw).main_pid == pid_from_value(
        recognized_value(lines[i], "Main PID:"@),
    ) by {
        lemma_last_line_value_found(lines, "Main PID:"@, i);
    }
    if forall|j: int| 0 <= j < lines.len() ==> recognized_value(#[trigger] lines[j], "Main PID:"@) is None {
        lemma_last_line_value_absent(lines, "Main PID:"@);
    }
}

/// The invariants of the parsed daemon status, for every input text:
/// `is_active` holds exactly when the active state contains `"(running)"`
/// and equals the value of the last recognized `Active:` line; the PID is
/// read from the last recognized `Main PID:` line; each optional field is
/// `None` exactly when its source line is absent.
pub proof fn lemma_daemon_status_invariant(raw: Seq<char>)
    ensures
        spec_daemon_status(raw).is_active <==> contains_seq(
            spec_daemon_status(raw).active_state,
            "(running)"@,
        ),
        spec_daemon_status(raw).active_state == value_or_empty(
            last_line_value(split_lines(raw), "Active:"@),
        ),
        spec_daemon_status(raw).main_pid == pid_from_value(
            last_line_value(split_lines(raw), "Main PID:"@),
        ),
        spec_daemon_status(raw).memory_peak == last_line_value(split_lines(raw), "Mem peak:"@),
        spec_daemon_status(raw).cpu_time == last_line_value(split_lines(raw), "CPU:"@),
{
}

} // verus!
