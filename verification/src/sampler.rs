//! The sampler: what to decide on every tick, and what to write.
//!
//! A run goes through three states. The caller owns the clock and the
//! process table, does what each step asks for, and hands back what it
//! found.
//!
//! - Priming. The caller reads the status text of the target once and hands
//!   it to [`Sampler::start`]. Without a name for the target there is no
//!   [`Sampler`], and so no tick: the failure is fatal.
//! - Sampling. On every tick the caller reads the status texts of the
//!   visible processes, builds the tree from them and asks
//!   [`Sampler::plan_tick`]. For [`TickPlan::Measure`] it reads the
//!   memory-accounting text of each process named, hands what it could read
//!   to [`Sampler::record_tick`], and writes what [`tick_output`] gives for
//!   the sample.
//! - Finished. For [`TickPlan::Finish`] the target is gone: the caller
//!   writes what [`Sampler::finish`] gives, which uses up the sampler.

use std::collections::HashMap;
use std::collections::HashSet;
use vstd::prelude::*;
use vstd::string::StringExecFns;

use crate::decimal::{decimal_text, push_i32};
use crate::proc_stat::{parse_proc_stat_with, stat_record, CloseMatch, ProcStatError};
use crate::size::{push_size, size_text, UnitSystem};
use crate::statm::{parse_statm_with_page_size, resident_kib};
use crate::template::{rendered, MemorySample, Template};
use crate::tree::{descendants, find_descendants, lemma_parsed_text_is_in_tree, tree_of};

verus! {

broadcast use vstd::std_specs::hash::group_hash_axioms;

/// What is written while sampling.
#[derive(Debug)]
pub enum OutputMode {
    /// A heading, then one line per tick.
    Continuous,
    /// Nothing until the final line.
    Terse,
    /// One line per tick, rendered through a compiled template.
    Templated(Template),
}

/// The state that lasts from one tick to the next.
#[derive(Debug)]
pub struct Sampler {
    /// The process whose memory impact is measured.
    pub target_pid: i32,
    /// Its display name, resolved once at the start.
    pub process_name: String,
    /// The largest total seen so far, in kibibytes.
    pub running_max: u64,
    /// Which `)` closes a process name in status text.
    pub policy: CloseMatch,
    /// Kibibytes per page.
    pub page_size_kb: u64,
}

/// The milliseconds to pause between two ticks at `hertz` ticks per second,
/// truncated; a frequency of zero is invalid.
pub fn tick_interval_millis(hertz: u64) -> (millis: Option<u64>)
    ensures
        millis == if hertz == 0 {
            None
        } else {
            Some((1000int / hertz as int) as u64)
        },
{
    if hertz == 0 {
        None
    } else {
        Some(1000 / hertz)
    }
}

/// The message for a target whose status text cannot be read.
pub open spec fn unreadable_text(pid: i32) -> Seq<char> {
    "Could not read /proc/"@ + decimal_text(pid as int) + "/stat"@
}

/// The message for a target whose status text cannot be parsed.
pub open spec fn unsupported_text(pid: i32, error: ProcStatError) -> Seq<char> {
    "Unsupported /proc/"@ + decimal_text(pid as int) + "/stat format ("@ + error.name_text()
        + "). Your system is currently not supported. "@
        + "Please open an issue with your kernel version."@
}

/// The display name of the target, or the message that says why it cannot
/// be had: the name is that of the target's status record, parentheses
/// included.
pub open spec fn target_name(pid: i32, stat: Option<Seq<char>>, policy: CloseMatch) -> Result<
    Seq<char>,
    Seq<char>,
> {
    match stat {
        None => Err(unreadable_text(pid)),
        Some(text) => match stat_record(text, policy) {
            Ok(record) => Ok(record.comm),
            Err(error) => Err(unsupported_text(pid, error)),
        },
    }
}

/// The view of an optional text.
pub open spec fn option_view(text: Option<&str>) -> Option<Seq<char>> {
    match text {
        Some(text) => Some(text@),
        None => None,
    }
}

/// Resolves the display name of the target from its status text; `None`
/// stands for a text that could not be read.
pub fn get_process_name(pid: i32, stat: Option<&str>, policy: CloseMatch) -> (result: Result<
    String,
    String,
>)
    ensures
        match target_name(pid, option_view(stat), policy) {
            Ok(name) => result matches Ok(found) && found@ == name,
            Err(text) => result matches Err(message) && message@ == text,
        },
{
    match stat {
        None => {
            let mut message = "Could not read /proc/".to_owned();
            push_i32(&mut message, pid);
            message.append("/stat");
            Err(message)
        },
        Some(text) => match parse_proc_stat_with(text, policy) {
            Ok(record) => Ok(record.comm.to_owned()),
            Err(error) => {
                let mut message = "Unsupported /proc/".to_owned();
                push_i32(&mut message, pid);
                message.append("/stat format (");
                message.append(error.name());
                message.append("). Your system is currently not supported. ");
                message.append("Please open an issue with your kernel version.");
                Err(message)
            },
        },
    }
}

/// A run cannot start on a target that the tree would not hold: when the
/// status text read for the target is one of the texts that a tree is built
/// from, and is the target's own wherever it parses, and that tree does not
/// hold the target, then there is no name, and no run.
pub proof fn lemma_absent_target_fails_start(
    pid: i32,
    stat: Option<Seq<char>>,
    texts: Seq<Seq<char>>,
    policy: CloseMatch,
)
    requires
        stat matches Some(text) ==> texts.contains(text) && (stat_record(text, policy) matches Ok(
            record,
        ) ==> record.pid == pid),
        !tree_of(texts, policy).contains_key(pid),
    ensures
        target_name(pid, stat, policy) is Err,
{
    if let Some(text) = stat {
        if stat_record(text, policy) is Ok {
            let i = choose|i: int| 0 <= i < texts.len() && texts[i] == text;
            lemma_parsed_text_is_in_tree(texts, i, policy);
        }
    }
}

/// What one process adds to the total: the resident memory that its
/// memory-accounting text reports, and zero when the text could not be read
/// or does not parse.
pub open spec fn reading_kib(reading: Option<Seq<char>>, page_size_kb: u64) -> nat {
    match reading {
        Some(text) => match resident_kib(text, page_size_kb) {
            Some(kib) => kib as nat,
            None => 0,
        },
        None => 0,
    }
}

/// The memory-accounting texts `readings` over plain values.
pub open spec fn reading_views(readings: Seq<Option<String>>) -> Seq<Option<Seq<char>>> {
    readings.map_values(
        |reading: Option<String>|
            match reading {
                Some(text) => Some(text@),
                None => None,
            },
    )
}

/// The sum of what each process adds.
pub open spec fn total_kib(readings: Seq<Option<Seq<char>>>, page_size_kb: u64) -> nat
    decreases readings.len(),
{
    if readings.len() == 0 {
        0
    } else {
        total_kib(readings.drop_last(), page_size_kb) + reading_kib(readings.last(), page_size_kb)
    }
}

/// `total`, held to what 64 bits can count.
pub open spec fn capped(total: nat) -> u64 {
    if total <= u64::MAX {
        total as u64
    } else {
        u64::MAX
    }
}

/// Sums the resident memory over the processes of one tick. A total beyond
/// `u64::MAX` is reported as `u64::MAX`.
pub fn aggregate(readings: &Vec<Option<String>>, page_size_kb: u64) -> (total: u64)
    ensures
        total == capped(total_kib(reading_views(readings@), page_size_kb)),
{
    let mut total: u64 = 0;
    let mut i: usize = 0;
    while i < readings.len()
        invariant
            i <= readings@.len(),
            total == capped(total_kib(reading_views(readings@).take(i as int), page_size_kb)),
        decreases readings@.len() - i,
    {
        proof {
            let next = reading_views(readings@).take(i + 1);
            assert(next.drop_last() =~= reading_views(readings@).take(i as int));
        }
        let kib: u64 = match &readings[i] {
            Some(text) => match parse_statm_with_page_size(text.as_str(), page_size_kb) {
                Some(kib) => kib,
                None => 0,
            },
            None => 0,
        };
        total = if total > u64::MAX - kib {
            u64::MAX
        } else {
            total + kib
        };
        i += 1;
    }
    proof {
        assert(reading_views(readings@).take(readings@.len() as int) =~= reading_views(
            readings@,
        ));
    }
    total
}

/// The heading of a continuous run.
pub open spec fn tracking_text(pid: i32, name: Seq<char>) -> Seq<char> {
    "Tracking memory usage of PID "@ + decimal_text(pid as int) + " "@ + name + "\n"@
}

/// The line of one tick of a continuous run.
pub open spec fn sample_text(pid: i32, name: Seq<char>, current: u64, max: u64) -> Seq<char> {
    "PID "@ + decimal_text(pid as int) + " "@ + name + ": current "@ + size_text(
        current as nat,
        UnitSystem::Decimal,
    ) + ", max "@ + size_text(max as nat, UnitSystem::Decimal) + "\n"@
}

/// The line that ends every run.
pub open spec fn final_text(pid: i32, name: Seq<char>, max: u64) -> Seq<char> {
    "PID "@ + decimal_text(pid as int) + " "@ + name + ": max "@ + size_text(
        max as nat,
        UnitSystem::Decimal,
    ) + "\n"@
}

/// What is written for `sample` in `mode`, if anything.
pub open spec fn tick_text(mode: OutputMode, sample: MemorySample) -> Option<Seq<char>> {
    match mode {
        OutputMode::Continuous => Some(
            sample_text(
                sample.pid,
                sample.process_name@,
                sample.current_bytes,
                sample.max_bytes,
            ),
        ),
        OutputMode::Terse => None,
        OutputMode::Templated(template) => Some(rendered(template@, sample) + "\n"@),
    }
}

/// What the caller does on a tick.
#[derive(Debug)]
pub enum TickPlan {
    /// The target is gone: write the final line and stop.
    Finish,
    /// Read the memory-accounting text of each of these processes.
    Measure(HashSet<i32>),
}

impl Sampler {
    /// Starts a run: resolves the display name of the target from its status
    /// text, where `None` stands for a text that could not be read. Without
    /// a name there is no run, and the error holds the message to show. The
    /// running maximum starts at zero.
    pub fn start(
        target_pid: i32,
        stat: Option<&str>,
        policy: CloseMatch,
        page_size_kb: u64,
    ) -> (result: Result<Sampler, String>)
        ensures
            match target_name(target_pid, option_view(stat), policy) {
                Ok(name) => result matches Ok(sampler) && sampler.target_pid == target_pid
                    && sampler.process_name@ == name && sampler.running_max == 0 && sampler.policy
                    == policy && sampler.page_size_kb == page_size_kb,
                Err(text) => result matches Err(message) && message@ == text,
            },
    {
        match get_process_name(target_pid, stat, policy) {
            Ok(process_name) => Ok(
                Sampler { target_pid, process_name, running_max: 0, policy, page_size_kb },
            ),
            Err(message) => Err(message),
        }
    }

    /// Decides what this tick does, given the freshly built tree: the run is
    /// over as soon as the tree does not know the target; otherwise the
    /// target and all its descendants are measured.
    pub fn plan_tick(&self, tree: &HashMap<i32, i32>) -> (plan: TickPlan)
        ensures
            match plan {
                TickPlan::Finish => !tree@.contains_key(self.target_pid),
                TickPlan::Measure(pids) => tree@.contains_key(self.target_pid) && pids@
                    == descendants(tree@, self.target_pid),
            },
    {
        if !tree.contains_key(&self.target_pid) {
            TickPlan::Finish
        } else {
            TickPlan::Measure(find_descendants(tree, self.target_pid))
        }
    }

    /// Takes in the memory-accounting texts of one tick, one per process
    /// measured, where `None` stands for a text that could not be read, and
    /// gives the sample of the tick, taken at `timestamp`. The running
    /// maximum rises to the total of the tick when that is larger, and
    /// nothing else changes.
    pub fn record_tick<'a>(&'a mut self, readings: &Vec<Option<String>>, timestamp: u64) -> (sample:
        MemorySample<'a>)
        ensures
            sample.pid == old(self).target_pid,
            sample.process_name@ == old(self).process_name@,
            sample.current_bytes == capped(
                total_kib(reading_views(readings@), old(self).page_size_kb),
            ),
            sample.max_bytes == if sample.current_bytes > old(self).running_max {
                sample.current_bytes
            } else {
                old(self).running_max
            },
            sample.timestamp == timestamp,
            final(self).running_max == sample.max_bytes,
            final(self).target_pid == old(self).target_pid,
            final(self).process_name == old(self).process_name,
            final(self).policy == old(self).policy,
            final(self).page_size_kb == old(self).page_size_kb,
    {
        let current = aggregate(readings, self.page_size_kb);
        if current > self.running_max {
            self.running_max = current;
        }
        MemorySample {
            pid: self.target_pid,
            process_name: self.process_name.as_str(),
            current_bytes: current,
            max_bytes: self.running_max,
            timestamp,
        }
    }

    /// The heading to write before the first tick: one in a continuous run,
    /// none otherwise.
    pub fn heading(&self, mode: &OutputMode) -> (line: Option<String>)
        ensures
            match line {
                Some(text) => mode is Continuous && text@ == tracking_text(
                    self.target_pid,
                    self.process_name@,
                ),
                None => !(mode is Continuous),
            },
    {
        match mode {
            OutputMode::Continuous => {
                let mut line = "Tracking memory usage of PID ".to_owned();
                push_i32(&mut line, self.target_pid);
                line.append(" ");
                line.append(self.process_name.as_str());
                line.append("\n");
                Some(line)
            },
            _ => None,
        }
    }

    /// Ends the run and gives its last line, written in every mode: the
    /// largest total seen.
    pub fn finish(self) -> (line: String)
        ensures
            line@ == final_text(self.target_pid, self.process_name@, self.running_max),
    {
        let mut line = "PID ".to_owned();
        push_i32(&mut line, self.target_pid);
        line.append(" ");
        line.append(self.process_name.as_str());
        line.append(": max ");
        push_size(&mut line, self.running_max, UnitSystem::Decimal);
        line.append("\n");
        line
    }
}

/// What to write for `sample` in `mode`: a line with the current and the
/// largest total in a continuous run, the rendered template and a line
/// break where a template is given, nothing in a terse run.
pub fn tick_output(mode: &OutputMode, sample: &MemorySample) -> (line: Option<String>)
    ensures
        match tick_text(*mode, *sample) {
            Some(text) => line matches Some(written) && written@ == text,
            None => line is None,
        },
{
    match mode {
        OutputMode::Continuous => {
            let mut line = "PID ".to_owned();
            push_i32(&mut line, sample.pid);
            line.append(" ");
            line.append(sample.process_name);
            line.append(": current ");
            push_size(&mut line, sample.current_bytes, UnitSystem::Decimal);
            line.append(", max ");
            push_size(&mut line, sample.max_bytes, UnitSystem::Decimal);
            line.append("\n");
            Some(line)
        },
        OutputMode::Terse => None,
        OutputMode::Templated(template) => {
            let mut line = String::new();
            let _ = template.render(sample, &mut line);
            line.append("\n");
            Some(line)
        },
    }
}

} // verus!
