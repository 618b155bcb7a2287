//! Supervising a freshly started runtime: telling a crash during startup
//! from a successful hand-off, and keeping progress reports in stage order.
//!
//! The caller runs the process and the clock; it hands each early line of
//! standard error and each one-second liveness check to the supervisor,
//! which says whether to keep watching, or how the launch ended.
use vstd::prelude::*;

use crate::messages::{
    fatal_markers, fatal_messages, fatal_table, marker_views, message_views, table_lookup,
    table_message,
};
use crate::models::{stage_rank, LaunchProgress, LaunchStage};
use crate::text::{int_text, int_to_text, joined, nat_text, nat_to_text, seq_contains, text_contains};

verus! {

/// The observation window.
#[derive(Clone, Copy, Debug, PartialEq, Eq, Structural)]
pub struct SupervisorConfig {
    /// How many one-second liveness checks the window lasts.
    pub poll_steps: u32,
    /// A clean exit seen within this many checks counts as a failed start.
    pub clean_exit_steps: u32,
    /// How many early lines of standard error are kept.
    pub max_stderr_lines: usize,
}

impl Default for SupervisorConfig {
    fn default() -> (r: Self)
        ensures
            r.poll_steps == 7,
            r.clean_exit_steps == 2,
            r.max_stderr_lines == 10,
    {
        SupervisorConfig { poll_steps: 7, clean_exit_steps: 2, max_stderr_lines: 10 }
    }
}

/// What a liveness check found.
#[derive(Clone, Debug)]
pub enum ProcessStatus {
    Running,
    /// The process ended with this exit code (`-1` when it had none).
    Exited { code: i32 },
    /// The status could not be read.
    Unreadable { error: String },
}

/// Where the supervision stands.
#[derive(Clone, Copy, Debug, PartialEq, Eq, Structural)]
pub enum Phase {
    Watching,
    Confirmed,
    Crashed,
}

/// What the caller does next.
#[derive(Clone, Debug)]
pub enum Verdict {
    /// Wait one second and check again.
    KeepWatching,
    /// The runtime survived the window: the launch succeeded.
    Confirmed,
    /// The launch failed, with the message to show.
    Failed { message: String },
}

/// A verdict, with its message as characters.
pub enum Outcome {
    KeepWatching,
    Confirmed,
    Failed(Seq<char>),
}

impl View for Verdict {
    type V = Outcome;

    open spec fn view(&self) -> Outcome {
        match self {
            Verdict::KeepWatching => Outcome::KeepWatching,
            Verdict::Confirmed => Outcome::Confirmed,
            Verdict::Failed { message } => Outcome::Failed(message@),
        }
    }
}

/// The supervision of one started runtime.
pub struct Supervisor {
    pub config: SupervisorConfig,
    /// Liveness checks made so far.
    pub step: u32,
    /// Early lines of standard error, in arrival order.
    pub captured: Vec<String>,
    pub phase: Phase,
}

/// The fatal-error message for one line of standard error, if it has one.
pub open spec fn line_signature(line: Seq<char>) -> Option<Seq<char>> {
    table_message(line, fatal_markers(), fatal_messages())
}

/// The message of the first captured line that carries a fatal signature.
pub open spec fn captured_signature(lines: Seq<Seq<char>>) -> Option<Seq<char>>
    decreases lines.len(),
{
    if lines.len() == 0 {
        None
    } else {
        match line_signature(lines[0]) {
            Some(m) => Some(m),
            None => captured_signature(lines.drop_first()),
        }
    }
}

/// The message for an exit with a non-zero `code`: the signature found in
/// the captured lines, or the exit code.
pub open spec fn crash_message(code: int, lines: Seq<Seq<char>>) -> Seq<char> {
    match captured_signature(lines) {
        Some(m) => m,
        None => "Game crashed during startup with code: "@ + int_text(code),
    }
}

/// The message for a clean exit early in the window.
pub open spec fn early_clean_exit_message() -> Seq<char> {
    "Minecraft process ended unexpectedly but cleanly"@
}

/// The views of the captured lines.
pub open spec fn line_views(s: Seq<String>) -> Seq<Seq<char>> {
    s.map_values(|x: String| x@)
}

/// The outcome of a liveness check made as check number `step` (from 0).
pub open spec fn poll_outcome(
    config: SupervisorConfig,
    step: u32,
    lines: Seq<Seq<char>>,
    status: ProcessStatus,
) -> Outcome {
    match status {
        ProcessStatus::Running => if step + 1 >= config.poll_steps {
            Outcome::Confirmed
        } else {
            Outcome::KeepWatching
        },
        ProcessStatus::Exited { code } => if code != 0 {
            Outcome::Failed(crash_message(code as int, lines))
        } else if step < config.clean_exit_steps {
            Outcome::Failed(early_clean_exit_message())
        } else {
            Outcome::Confirmed
        },
        ProcessStatus::Unreadable { error } => Outcome::Failed(
            "Failed to check game process status: "@ + error@,
        ),
    }
}

/// The phase that an outcome leaves the supervision in.
pub open spec fn phase_after(o: Outcome) -> Phase {
    match o {
        Outcome::KeepWatching => Phase::Watching,
        Outcome::Confirmed => Phase::Confirmed,
        Outcome::Failed(_) => Phase::Crashed,
    }
}

impl Supervisor {
    /// The checks made stay within the window, and the kept lines within
    /// their bound.
    pub open spec fn wf(&self) -> bool {
        &&& self.step <= self.config.poll_steps
        &&& self.captured@.len() <= self.config.max_stderr_lines
    }

    /// The supervision of a runtime that has just started.
    pub fn new(config: SupervisorConfig) -> (r: Self)
        ensures
            r.wf(),
            r.config == config,
            r.step == 0,
            r.captured@.len() == 0,
            r.phase == Phase::Watching,
    {
        Supervisor { config, step: 0, captured: Vec::new(), phase: Phase::Watching }
    }

    /// Takes one early line of standard error. A line with a fatal signature
    /// ends the launch at once with that signature's message; the first
    /// `max_stderr_lines` lines are kept.
    pub fn observe_line(&mut self, line: &str) -> (r: Verdict)
        requires
            old(self).phase == Phase::Watching,
            old(self).wf(),
        ensures
            final(self).wf(),
            r@ == (match line_signature(line@) {
                Some(m) => Outcome::Failed(m),
                None => Outcome::KeepWatching,
            }),
            final(self).phase == phase_after(r@),
            final(self).config == old(self).config,
            final(self).step == old(self).step,
            line_views(final(self).captured@) == if old(self).captured@.len()
                < old(self).config.max_stderr_lines {
                line_views(old(self).captured@).push(line@)
            } else {
                line_views(old(self).captured@)
            },
    {
        if self.captured.len() < self.config.max_stderr_lines {
            let ghost before = self.captured@;
            self.captured.push(String::from_str(line));
            assert(line_views(self.captured@) =~= line_views(before).push(line@));
        }
        let table = fatal_table();
        match table_lookup(line, &table) {
            Some(m) => {
                self.phase = Phase::Crashed;
                Verdict::Failed { message: String::from_str(m) }
            },
            None => Verdict::KeepWatching,
        }
    }

    /// Takes the result of the next one-second liveness check.
    pub fn poll(&mut self, status: &ProcessStatus) -> (r: Verdict)
        requires
            old(self).phase == Phase::Watching,
            old(self).wf(),
            old(self).step < old(self).config.poll_steps,
        ensures
            final(self).wf(),
            r@ == poll_outcome(
                old(self).config,
                old(self).step,
                line_views(old(self).captured@),
                *status,
            ),
            final(self).phase == phase_after(r@),
            final(self).step == old(self).step + 1,
            final(self).config == old(self).config,
            final(self).captured@ == old(self).captured@,
    {
        let step = self.step;
        self.step = step + 1;
        let r = match status {
            ProcessStatus::Running => {
                if step + 1 >= self.config.poll_steps {
                    Verdict::Confirmed
                } else {
                    Verdict::KeepWatching
                }
            },
            ProcessStatus::Exited { code } => {
                if *code != 0 {
                    Verdict::Failed { message: self.crash_text(*code) }
                } else if step < self.config.clean_exit_steps {
                    Verdict::Failed {
                        message: String::from_str(
                            "Minecraft process ended unexpectedly but cleanly",
                        ),
                    }
                } else {
                    Verdict::Confirmed
                }
            },
            ProcessStatus::Unreadable { error } => Verdict::Failed {
                message: joined("Failed to check game process status: ", error.as_str()),
            },
        };
        self.phase = match r {
            Verdict::KeepWatching => Phase::Watching,
            Verdict::Confirmed => Phase::Confirmed,
            Verdict::Failed { .. } => Phase::Crashed,
        };
        r
    }

    fn crash_text(&self, code: i32) -> (r: String)
        ensures
            r@ == crash_message(code as int, line_views(self.captured@)),
    {
        let table = fatal_table();
        let ghost lines = line_views(self.captured@);
        assert(lines.subrange(0, lines.len() as int) =~= lines);
        let mut i: usize = 0;
        while i < self.captured.len()
            invariant
                i <= self.captured@.len(),
                lines == line_views(self.captured@),
                marker_views(table) == fatal_markers(),
                message_views(table) == fatal_messages(),
                table.markers@.len() == table.messages@.len(),
                captured_signature(lines) == captured_signature(
                    lines.subrange(i as int, lines.len() as int),
                ),
            decreases self.captured@.len() - i,
        {
            let ghost rest = lines.subrange(i as int, lines.len() as int);
            assert(rest.drop_first() =~= lines.subrange(i + 1, lines.len() as int));
            assert(rest[0] == self.captured@[i as int]@);
            match table_lookup(self.captured[i].as_str(), &table) {
                Some(m) => {
                    return String::from_str(m);
                },
                None => {},
            }
            i = i + 1;
        }
        let mut s = String::from_str("Game crashed during startup with code: ");
        let digits = int_to_text(code as i64);
        s.append(digits.as_str());
        s
    }
}

/// The outcome of a run of liveness checks starting at check number `step`:
/// the first outcome that is not "keep watching", if any.
pub open spec fn watch(
    config: SupervisorConfig,
    step: u32,
    lines: Seq<Seq<char>>,
    statuses: Seq<ProcessStatus>,
) -> Outcome
    decreases statuses.len(),
{
    if statuses.len() == 0 {
        Outcome::KeepWatching
    } else {
        match poll_outcome(config, step, lines, statuses[0]) {
            Outcome::KeepWatching => if step < u32::MAX {
                watch(config, (step + 1) as u32, lines, statuses.drop_first())
            } else {
                Outcome::KeepWatching
            },
            o => o,
        }
    }
}

proof fn lemma_watch_running_then(
    config: SupervisorConfig,
    step: u32,
    lines: Seq<Seq<char>>,
    statuses: Seq<ProcessStatus>,
    k: int,
)
    requires
        0 <= k < statuses.len(),
        step + k < config.poll_steps,
        forall|i: int| 0 <= i < k ==> #[trigger] statuses[i] is Running,
        !(poll_outcome(config, (step + k) as u32, lines, statuses[k]) is KeepWatching),
    ensures
        watch(config, step, lines, statuses) == poll_outcome(
            config,
            (step + k) as u32,
            lines,
            statuses[k],
        ),
    decreases k,
{
    if k > 0 {
        assert(statuses[0] is Running);
        assert(poll_outcome(config, step, lines, statuses[0]) is KeepWatching);
        let rest = statuses.drop_first();
        assert forall|i: int| 0 <= i < k - 1 implies #[trigger] rest[i] is Running by {
            assert(rest[i] == statuses[i + 1]);
        }
        lemma_watch_running_then(config, (step + 1) as u32, lines, rest, k - 1);
        assert(rest[k - 1] == statuses[k]);
    }
}

/// Over a run of one-second checks from the start: a runtime that keeps
/// running through the whole window is confirmed; one that exits with a
/// non-zero code at any check fails with the crash message (its captured
/// signature, else its code); one that exits cleanly within the first
/// `clean_exit_steps` checks fails as an unexpected clean exit.
pub proof fn lemma_observation_window(
    config: SupervisorConfig,
    lines: Seq<Seq<char>>,
    statuses: Seq<ProcessStatus>,
    k: int,
)
    requires
        config.poll_steps >= 1,
        0 <= k < statuses.len(),
        k < config.poll_steps,
        forall|i: int| 0 <= i < k ==> #[trigger] statuses[i] is Running,
    ensures
        k == config.poll_steps - 1 && statuses[k] is Running ==> watch(config, 0, lines, statuses)
            == Outcome::Confirmed,
        match statuses[k] {
            ProcessStatus::Exited { code } => {
                &&& code != 0 ==> watch(config, 0, lines, statuses) == Outcome::Failed(
                    crash_message(code as int, lines),
                )
                &&& code == 0 && k < config.clean_exit_steps ==> watch(config, 0, lines, statuses)
                    == Outcome::Failed(early_clean_exit_message())
            },
            _ => true,
        },
{
    if !(poll_outcome(config, k as u32, lines, statuses[k]) is KeepWatching) {
        lemma_watch_running_then(config, 0, lines, statuses, k);
    }
}

/// The status line shown while the runtime is watched, after `seconds`.
pub fn loading_message(seconds: u32) -> (r: String)
    ensures
        r@ == "Minecraft is loading... ("@ + nat_text(seconds as nat) + "s)"@,
{
    let mut s = String::from_str("Minecraft is loading... (");
    let digits = nat_to_text(seconds as u64);
    s.append(digits.as_str());
    s.append("s)");
    s
}

/// The later of a previous stage, if any, and a new one.
pub open spec fn later_stage(last: Option<LaunchStage>, stage: LaunchStage) -> LaunchStage {
    match last {
        Some(p) => if stage_rank(p) > stage_rank(stage) {
            p
        } else {
            stage
        },
        None => stage,
    }
}

fn rank(s: LaunchStage) -> (r: u8)
    ensures
        r == stage_rank(s),
{
    match s {
        LaunchStage::PreparingLibraries => 0,
        LaunchStage::DownloadingLibraries => 1,
        LaunchStage::ExtractingNatives => 2,
        LaunchStage::PreparingAssets => 3,
        LaunchStage::DownloadingAssets => 4,
        LaunchStage::AssetLoadComplete => 5,
        LaunchStage::ValidatingJava => 6,
        LaunchStage::BuildingArguments => 7,
        LaunchStage::StartingProcess => 8,
        LaunchStage::ProcessStarted => 9,
        LaunchStage::LaunchingGame => 10,
        LaunchStage::Complete => 11,
    }
}

/// Builds the progress reports of one launch attempt, never letting the
/// stage go back.
pub struct ProgressTracker {
    pub last: Option<LaunchStage>,
}

impl ProgressTracker {
    pub fn new() -> (r: Self)
        ensures
            r.last is None,
    {
        ProgressTracker { last: None }
    }

    /// The report for `stage`, raised to the last reported stage if it is
    /// earlier than that.
    pub fn report(&mut self, stage: LaunchStage, current: usize, total: usize, message: String) -> (r:
        LaunchProgress)
        ensures
            r.stage == later_stage(old(self).last, stage),
            r.current == current,
            r.total == total,
            r.message == message,
            final(self).last == Some(r.stage),
            old(self).last matches Some(p) ==> stage_rank(p) <= stage_rank(r.stage),
    {
        let s = match self.last {
            Some(p) => if rank(p) > rank(stage) {
                p
            } else {
                stage
            },
            None => stage,
        };
        self.last = Some(s);
        LaunchProgress { stage: s, message, current, total }
    }
}

/// The lower-case form of `s`, as `str::to_lowercase` gives it.
pub uninterp spec fn lowercase_of(s: Seq<char>) -> Seq<char>;

/// Relies on `str::to_lowercase`: the string with every character mapped to
/// its lower-case form.
#[verifier::external_body]
fn to_lower(s: &str) -> (r: String)
    ensures
        r@ == lowercase_of(s@),
{
    s.to_lowercase()
}

/// The words that mark a final report as a failure, matched in lower case.
pub open spec fn failure_words() -> Seq<Seq<char>> {
    seq!["error"@, "failed"@, "crashed"@, "exited"@, "unexpectedly"@]
}

/// A final report whose message, in lower case, holds a failure word.
pub open spec fn reports_failure(p: LaunchProgress) -> bool {
    p.stage == LaunchStage::Complete && exists|k: int|
        0 <= k < 5 && seq_contains(lowercase_of(p.message@), #[trigger] failure_words()[k])
}

/// Whether `lowered` holds one of the failure words.
pub fn holds_failure_word(lowered: &str) -> (r: bool)
    ensures
        r == exists|k: int| 0 <= k < 5 && seq_contains(lowered@, #[trigger] failure_words()[k]),
{
    let a = text_contains(lowered, "error");
    let b = text_contains(lowered, "failed");
    let c = text_contains(lowered, "crashed");
    let d = text_contains(lowered, "exited");
    let e = text_contains(lowered, "unexpectedly");
    let r = a || b || c || d || e;
    assert(r == exists|k: int| 0 <= k < 5 && seq_contains(lowered@, #[trigger] failure_words()[k])) by {
        let w = failure_words();
        assert(w[0] == "error"@ && w[1] == "failed"@ && w[2] == "crashed"@);
        assert(w[3] == "exited"@ && w[4] == "unexpectedly"@);
        if r {
            if a {
                assert(seq_contains(lowered@, w[0]));
            } else if b {
                assert(seq_contains(lowered@, w[1]));
            } else if c {
                assert(seq_contains(lowered@, w[2]));
            } else if d {
                assert(seq_contains(lowered@, w[3]));
            } else {
                assert(seq_contains(lowered@, w[4]));
            }
        }
    }
    r
}

/// The one pending error message meant for the user: a later failure
/// replaces an earlier one, and taking it empties the slot.
pub struct ErrorSlot {
    pub pending: Option<String>,
}

impl ErrorSlot {
    pub fn new() -> (r: Self)
        ensures
            r.pending is None,
    {
        ErrorSlot { pending: None }
    }

    /// Records `message` as the error to show, replacing any earlier one.
    pub fn set(&mut self, message: String)
        ensures
            final(self).pending == Some(message),
    {
        self.pending = Some(message);
    }

    /// Records the message of a final report that marks a failure.
    pub fn offer(&mut self, p: &LaunchProgress)
        ensures
            reports_failure(*p) ==> final(self).pending == Some(p.message),
            !reports_failure(*p) ==> final(self).pending == old(self).pending,
    {
        if p.stage == LaunchStage::Complete {
            let lowered = to_lower(p.message.as_str());
            if holds_failure_word(lowered.as_str()) {
                self.pending = Some(p.message.clone());
            }
        }
    }

    /// The pending message, once: the slot is empty afterwards.
    pub fn take(&mut self) -> (r: Option<String>)
        ensures
            r == old(self).pending,
            final(self).pending is None,
    {
        let r = self.pending.take();
        r
    }
}

} // verus!
