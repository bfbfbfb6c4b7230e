//! The per-process status record: `<pid> (<name>) <state> <parent-pid> ...`.
//!
//! The name may hold spaces and parentheses, so the record is cut at the
//! parentheses first: the text before the first `(` is the process
//! identifier, the text after the closing `)` holds the remaining fields,
//! separated by whitespace. Which `)` closes the name is the caller's choice.

use vstd::prelude::*;
use vstd::slice::slice_subrange;
use vstd::std_specs::convert::TryFromSpecImpl;
use vstd::string::StrSliceExecFns;

use crate::decimal::{
    decimal_text, i32_of_text, lemma_decimal_text_chars, lemma_i32_round_trip, parse_i32_chars,
};
use crate::text::{
    field, field_start, find_first, find_last, first_index, has_field, is_space, last_index,
    lemma_first_index, lemma_first_index_is, lemma_last_index, lemma_last_index_is,
    lemma_skip_spaces_is, lemma_skip_token_is, next_field, to_chars,
};

verus! {

/// The run state of a process, named by the letter that stands for it.
#[derive(Debug, Clone, Copy, PartialEq, Eq, Structural)]
pub enum ProcessState {
    /// Running.
    R,
    /// Sleeping in an interruptible wait.
    S,
    /// Waiting in uninterruptible disk sleep.
    D,
    /// Zombie.
    Z,
    /// Stopped.
    T,
    /// Paging, or waking.
    W,
    /// Dead.
    X,
    /// Wakekill.
    K,
    /// Parked.
    P,
    /// Idle.
    I,
}

/// Why a status record cannot be read.
#[derive(Debug, Clone, Copy, PartialEq, Eq, Structural)]
pub enum ProcStatError {
    /// The text does not have the shape of a status record.
    InvalidFormat,
    /// The state letter is none of the known ones: the record may come from
    /// a kernel with another layout.
    UnsupportedKernelLayout,
}

/// Which `)` closes the process name.
#[derive(Debug, Clone, Copy, PartialEq, Eq, Structural)]
pub enum CloseMatch {
    /// The first `)` after the opening parenthesis. A name that holds a `)`
    /// is cut short.
    First,
    /// The last `)` of the text. A name may hold any character.
    Last,
}

/// One parsed status record.
#[derive(Debug, PartialEq)]
pub struct ProcStat<'a> {
    pub pid: i32,
    /// The process name, with the parentheses around it.
    pub comm: &'a str,
    pub state: ProcessState,
    pub ppid: i32,
}

/// A status record over plain values.
pub struct ProcStatView {
    pub pid: i32,
    pub comm: Seq<char>,
    pub state: ProcessState,
    pub ppid: i32,
}

impl<'a> View for ProcStat<'a> {
    type V = ProcStatView;

    open spec fn view(&self) -> ProcStatView {
        ProcStatView { pid: self.pid, comm: self.comm@, state: self.state, ppid: self.ppid }
    }
}

/// The state that the letter `c` stands for.
pub open spec fn state_of_char(c: char) -> Option<ProcessState> {
    if c == 'R' {
        Some(ProcessState::R)
    } else if c == 'S' {
        Some(ProcessState::S)
    } else if c == 'D' {
        Some(ProcessState::D)
    } else if c == 'Z' {
        Some(ProcessState::Z)
    } else if c == 'T' {
        Some(ProcessState::T)
    } else if c == 'W' {
        Some(ProcessState::W)
    } else if c == 'X' {
        Some(ProcessState::X)
    } else if c == 'K' {
        Some(ProcessState::K)
    } else if c == 'P' {
        Some(ProcessState::P)
    } else if c == 'I' {
        Some(ProcessState::I)
    } else {
        None
    }
}

/// The state that a status token stands for: that of its first character.
pub open spec fn state_of_token(token: Seq<char>) -> Result<ProcessState, ProcStatError> {
    if token.len() == 0 {
        Err(ProcStatError::UnsupportedKernelLayout)
    } else {
        match state_of_char(token[0]) {
            Some(state) => Ok(state),
            None => Err(ProcStatError::UnsupportedKernelLayout),
        }
    }
}

impl ProcessState {
    /// The letter that stands for this state.
    pub open spec fn letter(self) -> char {
        match self {
            ProcessState::R => 'R',
            ProcessState::S => 'S',
            ProcessState::D => 'D',
            ProcessState::Z => 'Z',
            ProcessState::T => 'T',
            ProcessState::W => 'W',
            ProcessState::X => 'X',
            ProcessState::K => 'K',
            ProcessState::P => 'P',
            ProcessState::I => 'I',
        }
    }

    /// The state that the letter `c` stands for.
    pub fn from_char(c: char) -> (state: Option<ProcessState>)
        ensures
            state == state_of_char(c),
    {
        if c == 'R' {
            Some(ProcessState::R)
        } else if c == 'S' {
            Some(ProcessState::S)
        } else if c == 'D' {
            Some(ProcessState::D)
        } else if c == 'Z' {
            Some(ProcessState::Z)
        } else if c == 'T' {
            Some(ProcessState::T)
        } else if c == 'W' {
            Some(ProcessState::W)
        } else if c == 'X' {
            Some(ProcessState::X)
        } else if c == 'K' {
            Some(ProcessState::K)
        } else if c == 'P' {
            Some(ProcessState::P)
        } else if c == 'I' {
            Some(ProcessState::I)
        } else {
            None
        }
    }
}

impl ProcStatError {
    /// The name of this error, as it appears in messages.
    pub open spec fn name_text(self) -> Seq<char> {
        match self {
            ProcStatError::InvalidFormat => "InvalidFormat"@,
            ProcStatError::UnsupportedKernelLayout => "UnsupportedKernelLayout"@,
        }
    }

    /// The name of this error, as it appears in messages.
    pub fn name(self) -> (name: &'static str)
        ensures
            name@ == self.name_text(),
    {
        match self {
            ProcStatError::InvalidFormat => "InvalidFormat",
            ProcStatError::UnsupportedKernelLayout => "UnsupportedKernelLayout",
        }
    }
}

impl<'a> TryFrom<&'a str> for ProcessState {
    type Error = ProcStatError;

    /// Decodes the first character of a status token. An empty token, or
    /// one that starts with an unknown letter, is an unsupported layout.
    fn try_from(s: &'a str) -> (result: Result<ProcessState, ProcStatError>)
        ensures
            result == state_of_token(s@),
    {
        if s.is_empty() {
            return Err(ProcStatError::UnsupportedKernelLayout);
        }
        match ProcessState::from_char(s.get_char(0)) {
            Some(state) => Ok(state),
            None => Err(ProcStatError::UnsupportedKernelLayout),
        }
    }
}

impl<'a> TryFromSpecImpl<&'a str> for ProcessState {
    open spec fn obeys_try_from_spec() -> bool {
        true
    }

    open spec fn try_from_spec(s: &'a str) -> Result<ProcessState, ProcStatError> {
        state_of_token(s@)
    }
}

/// Where the name of the record `s` opens: at the first `(`.
pub open spec fn open_paren(s: Seq<char>) -> int {
    first_index(s, '(', 0)
}

/// Where the name of the record `s` closes under `policy`; an index at or
/// before the opening parenthesis, or outside `s`, when nothing closes it.
pub open spec fn close_paren(s: Seq<char>, policy: CloseMatch) -> int {
    match policy {
        CloseMatch::First => first_index(s, ')', open_paren(s) + 1),
        CloseMatch::Last => last_index(s, ')', s.len() as int),
    }
}

/// What the status text `s` holds, with `policy` deciding where the name
/// ends.
///
/// - Without a `(`, or without a `)` after it, the format is invalid.
/// - The text before the `(` must be one field, a 32-bit decimal integer:
///   the process identifier. Anything else is an invalid format.
/// - The first field after the closing `)` is the status token, decoded by
///   its first character. A missing token or an unknown letter is an
///   unsupported layout.
/// - The second field after the closing `)` must be a 32-bit decimal
///   integer: the parent's identifier. Anything else is an invalid format.
/// - The name is the text from `(` to `)`, both included.
pub open spec fn stat_record(s: Seq<char>, policy: CloseMatch) -> Result<
    ProcStatView,
    ProcStatError,
> {
    let open = open_paren(s);
    let close = close_paren(s, policy);
    if open >= s.len() || close <= open || close >= s.len() {
        Err(ProcStatError::InvalidFormat)
    } else {
        let before = s.subrange(0, open);
        let after = s.subrange(close + 1, s.len() as int);
        if has_field(before, 1) {
            Err(ProcStatError::InvalidFormat)
        } else {
            match i32_of_text(field(before, 0)) {
                None => Err(ProcStatError::InvalidFormat),
                Some(pid) => match state_of_token(field(after, 0)) {
                    Err(error) => Err(error),
                    Ok(state) => match i32_of_text(field(after, 1)) {
                        None => Err(ProcStatError::InvalidFormat),
                        Some(ppid) => Ok(
                            ProcStatView { pid, comm: s.subrange(open, close + 1), state, ppid },
                        ),
                    },
                },
            }
        }
    }
}

/// Parses one status record, with `policy` deciding which `)` closes the
/// name.
pub fn parse_proc_stat_with<'a>(content: &'a str, policy: CloseMatch) -> (result: Result<
    ProcStat<'a>,
    ProcStatError,
>)
    ensures
        match stat_record(content@, policy) {
            Ok(record) => result matches Ok(parsed) && parsed@ == record,
            Err(error) => result == Err::<ProcStat<'a>, ProcStatError>(error),
        },
{
    let chars = to_chars(content);
    let all = chars.as_slice();
    let n = all.len();
    let open = find_first(all, '(', 0);
    if open >= n {
        return Err(ProcStatError::InvalidFormat);
    }
    let close = match policy {
        CloseMatch::First => find_first(all, ')', open + 1),
        CloseMatch::Last => match find_last(all, ')') {
            Some(at) => at,
            None => n,
        },
    };
    proof {
        lemma_first_index(all@, ')', open + 1);
        lemma_last_index(all@, ')', n as int);
    }
    if close <= open || close >= n {
        return Err(ProcStatError::InvalidFormat);
    }
    let before = slice_subrange(all, 0, open);
    let after = slice_subrange(all, close + 1, n);

    let (pid_start, pid_end) = next_field(before, 0);
    let (extra_start, _) = next_field(before, pid_end);
    if extra_start < before.len() {
        return Err(ProcStatError::InvalidFormat);
    }
    let pid = match parse_i32_chars(slice_subrange(before, pid_start, pid_end)) {
        Some(pid) => pid,
        None => return Err(ProcStatError::InvalidFormat),
    };

    let (state_start, state_end) = next_field(after, 0);
    if state_start == state_end {
        return Err(ProcStatError::UnsupportedKernelLayout);
    }
    let state = match ProcessState::from_char(after[state_start]) {
        Some(state) => state,
        None => return Err(ProcStatError::UnsupportedKernelLayout),
    };

    let (ppid_start, ppid_end) = next_field(after, state_end);
    let ppid = match parse_i32_chars(slice_subrange(after, ppid_start, ppid_end)) {
        Some(ppid) => ppid,
        None => return Err(ProcStatError::InvalidFormat),
    };

    let comm = content.substring_char(open, close + 1);
    Ok(ProcStat { pid, comm, state, ppid })
}

/// Parses one status record; the name runs to the last `)` of the text.
pub fn parse_proc_stat<'a>(content: &'a str) -> (result: Result<ProcStat<'a>, ProcStatError>)
    ensures
        match stat_record(content@, CloseMatch::Last) {
            Ok(record) => result matches Ok(parsed) && parsed@ == record,
            Err(error) => result == Err::<ProcStat<'a>, ProcStatError>(error),
        },
{
    parse_proc_stat_with(content, CloseMatch::Last)
}

/// A process name as a status record holds it: in parentheses.
pub open spec fn comm_text(name: Seq<char>) -> Seq<char> {
    seq!['('] + name + seq![')']
}

/// What follows the name in a status record of the usual shape: a space,
/// the state letter, a space, the parent's identifier, and whatever comes
/// after it.
pub open spec fn tail_text(state: ProcessState, ppid: i32, rest: Seq<char>) -> Seq<char> {
    seq![' ', state.letter(), ' '] + decimal_text(ppid as int) + rest
}

/// The status text of a record in its usual shape: the identifier, a
/// space, the name in parentheses, a space, the state letter, a space, the
/// parent's identifier, and whatever follows.
pub open spec fn stat_text(
    pid: i32,
    name: Seq<char>,
    state: ProcessState,
    ppid: i32,
    rest: Seq<char>,
) -> Seq<char> {
    decimal_text(pid as int).push(' ') + comm_text(name) + tail_text(state, ppid, rest)
}

/// Each state is the one that its own letter stands for.
pub proof fn lemma_state_letter_round_trip(state: ProcessState)
    ensures
        state_of_char(state.letter()) == Some(state),
        !is_space(state.letter()),
        state.letter() != '(',
        state.letter() != ')',
{
}

/// A text without a `(`, or without a `)`, is no status record under
/// either policy.
pub proof fn lemma_missing_parenthesis(s: Seq<char>, policy: CloseMatch)
    requires
        !s.contains('(') || !s.contains(')'),
    ensures
        stat_record(s, policy) == Err::<ProcStatView, ProcStatError>(ProcStatError::InvalidFormat),
{
    lemma_first_index(s, '(', 0);
    let open = open_paren(s);
    if open < s.len() {
        lemma_first_index(s, ')', open + 1);
        lemma_last_index(s, ')', s.len() as int);
    }
}

/// The text of an integer holds no separator and no parenthesis.
proof fn lemma_decimal_text_is_plain(n: int)
    ensures
        decimal_text(n).len() > 0,
        forall|k: int|
            0 <= k < decimal_text(n).len() ==> {
                let c = #[trigger] decimal_text(n)[k];
                !is_space(c) && c != '(' && c != ')'
            },
{
    lemma_decimal_text_chars(n);
}

/// The text before the name of a written record is one field: the
/// identifier.
proof fn lemma_head_fields(pid: i32)
    ensures
        !has_field(decimal_text(pid as int).push(' '), 1),
        field(decimal_text(pid as int).push(' '), 0) == decimal_text(pid as int),
{
    let digits = decimal_text(pid as int);
    let head = digits.push(' ');
    let p = digits.len() as int;
    lemma_decimal_text_is_plain(pid as int);
    lemma_skip_spaces_is(head, 0, 0);
    lemma_skip_token_is(head, 0, p);
    lemma_skip_spaces_is(head, p, p + 1);
    assert(field_start(head, 0) == 0);
}

/// The text after the name of a written record starts with two fields: the
/// state letter and the parent's identifier.
proof fn lemma_tail_fields(state: ProcessState, ppid: i32, rest: Seq<char>)
    requires
        rest.len() == 0 || is_space(rest[0]),
    ensures
        field(tail_text(state, ppid, rest), 0) == seq![state.letter()],
        field(tail_text(state, ppid, rest), 1) == decimal_text(ppid as int),
{
    let digits = decimal_text(ppid as int);
    let tail = tail_text(state, ppid, rest);
    let q = digits.len() as int;
    lemma_decimal_text_is_plain(ppid as int);
    lemma_state_letter_round_trip(state);
    assert(tail[0] == ' ');
    lemma_skip_spaces_is(tail, 0, 1);
    lemma_skip_token_is(tail, 1, 2);
    lemma_skip_spaces_is(tail, 2, 3);
    lemma_skip_token_is(tail, 3, 3 + q);
}

/// Where the name opens and closes in a text made of a head without `(`,
/// a name in parentheses, and a tail.
proof fn lemma_parentheses(head: Seq<char>, name: Seq<char>, tail: Seq<char>, policy: CloseMatch)
    requires
        !head.contains('('),
        policy == CloseMatch::First ==> !name.contains(')'),
        policy == CloseMatch::Last ==> !tail.contains(')'),
    ensures
        open_paren(head + comm_text(name) + tail) == head.len(),
        close_paren(head + comm_text(name) + tail, policy) == head.len() + name.len() + 1,
{
    let s = head + comm_text(name) + tail;
    let open = head.len() as int;
    let close = open + name.len() + 1;
    lemma_first_index_is(s, '(', 0, open);
    match policy {
        CloseMatch::First => {
            lemma_first_index_is(s, ')', open + 1, close);
        },
        CloseMatch::Last => {
            lemma_last_index_is(s, ')', s.len() as int, close);
        },
    }
}

/// Reading a written record gives the record back: the identifier, the
/// name with its parentheses, the state and the parent's identifier, for
/// every name and whatever follows the parent's identifier after a
/// separator. With the first `)` closing the name, the name must hold no
/// `)`; with the last one, what follows must hold none.
pub proof fn lemma_stat_round_trip(
    pid: i32,
    name: Seq<char>,
    state: ProcessState,
    ppid: i32,
    rest: Seq<char>,
    policy: CloseMatch,
)
    requires
        rest.len() == 0 || is_space(rest[0]),
        policy == CloseMatch::First ==> !name.contains(')'),
        policy == CloseMatch::Last ==> !rest.contains(')'),
    ensures
        stat_record(stat_text(pid, name, state, ppid, rest), policy) == Ok::<
            ProcStatView,
            ProcStatError,
        >(ProcStatView { pid, comm: comm_text(name), state, ppid }),
{
    let head = decimal_text(pid as int).push(' ');
    let comm = comm_text(name);
    let tail = tail_text(state, ppid, rest);
    let s = stat_text(pid, name, state, ppid, rest);
    let open = head.len() as int;
    let close = open + name.len() + 1;

    // The parentheses of the name are the ones that the parser finds.
    lemma_decimal_text_is_plain(pid as int);
    if policy == CloseMatch::Last {
        lemma_tail_has_no_close(state, ppid, rest);
    }
    lemma_parentheses(head, name, tail, policy);
    // They cut the text into the three parts it was written from.
    assert(s.subrange(0, open) =~= head);
    assert(s.subrange(close + 1, s.len() as int) =~= tail);
    assert(s.subrange(open, close + 1) =~= comm);
    // The fields of the outer parts read back as what was written.
    lemma_head_fields(pid);
    lemma_tail_fields(state, ppid, rest);
    lemma_i32_round_trip(pid);
    lemma_i32_round_trip(ppid);
    lemma_state_letter_round_trip(state);
}

/// The text after the name of a written record holds no `)` unless what
/// follows the parent's identifier does.
proof fn lemma_tail_has_no_close(state: ProcessState, ppid: i32, rest: Seq<char>)
    requires
        !rest.contains(')'),
    ensures
        !tail_text(state, ppid, rest).contains(')'),
{
    lemma_decimal_text_is_plain(ppid as int);
    lemma_state_letter_round_trip(state);
}

} // verus!
