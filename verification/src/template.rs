//! The output template: a format string is compiled once into a sequence of
//! tokens, and that sequence is rendered against a sample on every tick.
//!
//! In a format string `{Name}` stands for a field of the sample, `{{` and
//! `}}` stand for a literal brace, and every other character stands for
//! itself.

pub mod laws;

use std::str::FromStr;
use vstd::prelude::*;
use vstd::string::StringExecFns;

use crate::decimal::{decimal_text, push_i32, push_u64};
use crate::size::{push_size, size_text, UnitSystem};
use crate::text::{find_first, first_index, lemma_first_index, string_of, to_chars};

verus! {

/// One measurement of the target process and its descendants.
#[derive(Debug, Clone, Copy)]
pub struct MemorySample<'a> {
    /// The target process.
    pub pid: i32,
    /// The display name of the target process.
    pub process_name: &'a str,
    /// The resident memory of this tick, summed over the descendants.
    pub current_bytes: u64,
    /// The largest `current_bytes` seen so far.
    pub max_bytes: u64,
    /// Seconds since the epoch.
    pub timestamp: u64,
}

/// The fields of a sample that a placeholder can name.
#[derive(Debug, Clone, Copy, PartialEq, Eq, Hash, Structural)]
pub enum Field {
    Pid,
    ProcessName,
    CurrentBytes,
    MaxBytes,
    CurrentHuman,
    MaxHuman,
    Timestamp,
}

/// A substitution point of a template.
#[derive(Debug)]
pub struct Placeholder {
    pub field: Field,
}

/// One piece of a compiled template.
#[derive(Debug)]
pub enum Token {
    /// Text copied to the output as it stands.
    Literal(String),
    /// A field of the sample, written in its place.
    Placeholder(Placeholder),
}

/// A compiled template.
#[derive(Debug)]
pub struct Template {
    pub tokens: Vec<Token>,
}

/// What a token is, over plain values.
pub enum TokenView {
    Literal(Seq<char>),
    Placeholder(Field),
}

impl View for Token {
    type V = TokenView;

    open spec fn view(&self) -> TokenView {
        match self {
            Token::Literal(text) => TokenView::Literal(text@),
            Token::Placeholder(placeholder) => TokenView::Placeholder(placeholder.field),
        }
    }
}

/// The views of `tokens`, in order.
pub open spec fn token_views(tokens: Seq<Token>) -> Seq<TokenView> {
    tokens.map_values(|token: Token| token@)
}

impl View for Template {
    type V = Seq<TokenView>;

    open spec fn view(&self) -> Seq<TokenView> {
        token_views(self.tokens@)
    }
}

/// Why a format string does not compile.
pub enum CompileError {
    /// A `{` that opens a placeholder has no `}` after it.
    UnclosedPlaceholder,
    /// A placeholder with nothing between its braces.
    EmptyPlaceholder,
    /// A single `}` outside any placeholder.
    UnmatchedClose,
    /// A placeholder whose name is not that of a field.
    UnknownField(Seq<char>),
}

/// The text that the `Debug` formatting of a string slice writes for the
/// characters `s`: the slice in double quotes, with escapes. The library
/// states nothing more of it.
pub uninterp spec fn debug_text(s: Seq<char>) -> Seq<char>;

/// The message that reports `name` as the name of no field.
pub open spec fn unknown_field_text(name: Seq<char>) -> Seq<char> {
    "unknow field "@ + debug_text(name)
}

impl CompileError {
    /// The message that reports this error.
    pub open spec fn message(self) -> Seq<char> {
        match self {
            CompileError::UnclosedPlaceholder => "Unclosed placeholder"@,
            CompileError::EmptyPlaceholder => "Empty placeholder {}"@,
            CompileError::UnmatchedClose => "Unmatched '}'"@,
            CompileError::UnknownField(name) => unknown_field_text(name),
        }
    }
}

impl Field {
    /// The name by which a placeholder refers to this field.
    pub open spec fn name_text(self) -> Seq<char> {
        match self {
            Field::Pid => "Pid"@,
            Field::ProcessName => "ProcessName"@,
            Field::CurrentBytes => "CurrentBytes"@,
            Field::MaxBytes => "MaxBytes"@,
            Field::CurrentHuman => "CurrentHuman"@,
            Field::MaxHuman => "MaxHuman"@,
            Field::Timestamp => "Timestamp"@,
        }
    }

    /// The name by which a placeholder refers to this field.
    pub fn name(self) -> (name: &'static str)
        ensures
            name@ == self.name_text(),
    {
        match self {
            Field::Pid => "Pid",
            Field::ProcessName => "ProcessName",
            Field::CurrentBytes => "CurrentBytes",
            Field::MaxBytes => "MaxBytes",
            Field::CurrentHuman => "CurrentHuman",
            Field::MaxHuman => "MaxHuman",
            Field::Timestamp => "Timestamp",
        }
    }

    /// The field that `name` names, compared exactly and with case.
    pub fn from_chars(name: &[char]) -> (field: Option<Field>)
        ensures
            field == field_named(name@),
    {
        if same_text(name, Field::Pid.name()) {
            Some(Field::Pid)
        } else if same_text(name, Field::ProcessName.name()) {
            Some(Field::ProcessName)
        } else if same_text(name, Field::CurrentBytes.name()) {
            Some(Field::CurrentBytes)
        } else if same_text(name, Field::MaxBytes.name()) {
            Some(Field::MaxBytes)
        } else if same_text(name, Field::CurrentHuman.name()) {
            Some(Field::CurrentHuman)
        } else if same_text(name, Field::MaxHuman.name()) {
            Some(Field::MaxHuman)
        } else if same_text(name, Field::Timestamp.name()) {
            Some(Field::Timestamp)
        } else {
            None
        }
    }
}

/// The field that `name` names, if any.
pub open spec fn field_named(name: Seq<char>) -> Option<Field> {
    if name == Field::Pid.name_text() {
        Some(Field::Pid)
    } else if name == Field::ProcessName.name_text() {
        Some(Field::ProcessName)
    } else if name == Field::CurrentBytes.name_text() {
        Some(Field::CurrentBytes)
    } else if name == Field::MaxBytes.name_text() {
        Some(Field::MaxBytes)
    } else if name == Field::CurrentHuman.name_text() {
        Some(Field::CurrentHuman)
    } else if name == Field::MaxHuman.name_text() {
        Some(Field::MaxHuman)
    } else if name == Field::Timestamp.name_text() {
        Some(Field::Timestamp)
    } else {
        None
    }
}

/// Whether `chars` spells `text`.
fn same_text(chars: &[char], text: &str) -> (same: bool)
    ensures
        same == (chars@ == text@),
{
    let other = to_chars(text);
    if chars.len() != other.len() {
        return false;
    }
    let mut i: usize = 0;
    while i < chars.len()
        invariant
            i <= chars@.len() == other@.len(),
            other@ == text@,
            chars@.take(i as int) == other@.take(i as int),
        decreases chars@.len() - i,
    {
        if chars[i] != other[i] {
            return false;
        }
        i += 1;
    }
    proof {
        assert(chars@.take(chars@.len() as int) =~= chars@);
        assert(other@.take(other@.len() as int) =~= other@);
    }
    true
}

/// Each field is the one that its own name names.
pub proof fn lemma_field_name_round_trip(field: Field)
    ensures
        field_named(field.name_text()) == Some(field),
        field.name_text().len() > 0,
        !field.name_text().contains('{'),
        !field.name_text().contains('}'),
{
    reveal_strlit("Pid");
    reveal_strlit("ProcessName");
    reveal_strlit("CurrentBytes");
    reveal_strlit("MaxBytes");
    reveal_strlit("CurrentHuman");
    reveal_strlit("MaxHuman");
    reveal_strlit("Timestamp");
    // Names differ in length, or where `Bytes` and `Human` start.
    assert("Pid"@.len() == 3 && "Timestamp"@.len() == 9 && "ProcessName"@.len() == 11);
    assert("MaxBytes"@.len() == 8 && "MaxBytes"@[3] == 'B');
    assert("MaxHuman"@.len() == 8 && "MaxHuman"@[3] == 'H');
    assert("CurrentBytes"@.len() == 12 && "CurrentBytes"@[7] == 'B');
    assert("CurrentHuman"@.len() == 12 && "CurrentHuman"@[7] == 'H');
}

/// The text that `<str as std::fmt::Debug>::fmt` writes for `s`, had
/// through `format!("{:?}", s)`. Nothing is proved of it: the contract
/// claims that this text depends on the characters of `s` alone, and calls
/// it [`debug_text`].
#[verifier::external_body]
fn debug_string(s: &str) -> (quoted: String)
    ensures
        quoted@ == debug_text(s@),
{
    format!("{:?}", s)
}

/// The message that reports an unknown field, given the name as `Debug`
/// writes it.
pub fn unknown_field_message(quoted: &str) -> (message: String)
    ensures
        message@ == "unknow field "@ + quoted@,
{
    let mut message = "unknow field ".to_owned();
    message.append(quoted);
    message
}

impl FromStr for Field {
    type Err = String;

    /// Reads the name of a field, compared exactly and with case; any other
    /// text is reported in the error message.
    fn from_str(input: &str) -> (result: Result<Field, String>)
        ensures
            match field_named(input@) {
                Some(field) => result == Ok::<Field, String>(field),
                None => result matches Err(message) && message@ == unknown_field_text(input@),
            },
    {
        let chars = to_chars(input);
        match Field::from_chars(chars.as_slice()) {
            Some(field) => Ok(field),
            None => {
                let quoted = debug_string(input);
                Err(unknown_field_message(quoted.as_str()))
            },
        }
    }
}

/// `tokens` followed by the pending literal text `literal`, when there is
/// any.
pub open spec fn flushed(tokens: Seq<TokenView>, literal: Seq<char>) -> Seq<TokenView> {
    if literal.len() > 0 {
        tokens.push(TokenView::Literal(literal))
    } else {
        tokens
    }
}

/// Compiles the format string `s` from index `i` on, given the tokens
/// completed so far and the literal text gathered since the last of them.
///
/// - `{{` and `}}` add one brace to the literal text.
/// - Any other `{` opens a placeholder, which runs to the next `}`; the text
///   between the two must be the name of a field. The literal text gathered
///   before it becomes a token of its own.
/// - Any other `}` is an error.
/// - Every other character is added to the literal text.
pub open spec fn compile_from(
    s: Seq<char>,
    i: int,
    tokens: Seq<TokenView>,
    literal: Seq<char>,
) -> Result<Seq<TokenView>, CompileError>
    decreases s.len() - i,
{
    if i < 0 || i >= s.len() {
        Ok(flushed(tokens, literal))
    } else if s[i] == '{' {
        if i + 1 < s.len() && s[i + 1] == '{' {
            compile_from(s, i + 2, tokens, literal.push('{'))
        } else {
            let close = first_index(s, '}', i + 1);
            if close >= s.len() {
                Err(CompileError::UnclosedPlaceholder)
            } else if close <= i + 1 {
                Err(CompileError::EmptyPlaceholder)
            } else {
                let name = s.subrange(i + 1, close);
                match field_named(name) {
                    None => Err(CompileError::UnknownField(name)),
                    Some(field) => compile_from(
                        s,
                        close + 1,
                        flushed(tokens, literal).push(TokenView::Placeholder(field)),
                        Seq::empty(),
                    ),
                }
            }
        }
    } else if s[i] == '}' {
        if i + 1 < s.len() && s[i + 1] == '}' {
            compile_from(s, i + 2, tokens, literal.push('}'))
        } else {
            Err(CompileError::UnmatchedClose)
        }
    } else {
        compile_from(s, i + 1, tokens, literal.push(s[i]))
    }
}

/// The tokens that the format string `s` compiles to, or the reason why it
/// does not compile.
pub open spec fn compile(s: Seq<char>) -> Result<Seq<TokenView>, CompileError> {
    compile_from(s, 0, Seq::empty(), Seq::empty())
}

/// The text that stands for `field` of `sample`: the identifier, the two
/// byte counts and the timestamp as decimal integers, the name as it is, and
/// the two human-readable sizes with binary unit labels.
pub open spec fn field_text(field: Field, sample: MemorySample) -> Seq<char> {
    match field {
        Field::Pid => decimal_text(sample.pid as int),
        Field::ProcessName => sample.process_name@,
        Field::CurrentBytes => decimal_text(sample.current_bytes as int),
        Field::MaxBytes => decimal_text(sample.max_bytes as int),
        Field::CurrentHuman => size_text(sample.current_bytes as nat, UnitSystem::Binary),
        Field::MaxHuman => size_text(sample.max_bytes as nat, UnitSystem::Binary),
        Field::Timestamp => decimal_text(sample.timestamp as int),
    }
}

/// The text that `token` contributes when rendered against `sample`.
pub open spec fn token_text(token: TokenView, sample: MemorySample) -> Seq<char> {
    match token {
        TokenView::Literal(text) => text,
        TokenView::Placeholder(field) => field_text(field, sample),
    }
}

/// The text of `tokens` rendered against `sample`: the texts of the tokens,
/// one after the other.
pub open spec fn rendered(tokens: Seq<TokenView>, sample: MemorySample) -> Seq<char>
    decreases tokens.len(),
{
    if tokens.len() == 0 {
        Seq::empty()
    } else {
        rendered(tokens.drop_last(), sample) + token_text(tokens.last(), sample)
    }
}

/// The human-readable text of `value`, with the labels `KiB` to `ZiB`.
pub fn format_memory_from_kib(value: u64) -> (text: String)
    ensures
        text@ == size_text(value as nat, UnitSystem::Binary),
{
    let mut text = String::new();
    push_size(&mut text, value, UnitSystem::Binary);
    text
}

/// Moves the pending literal text, when there is any, to the end of
/// `tokens`, and leaves `literal` empty.
fn flush(tokens: &mut Vec<Token>, literal: &mut String)
    ensures
        token_views(final(tokens)@) == flushed(token_views(old(tokens)@), old(literal)@),
        final(literal)@ == Seq::<char>::empty(),
{
    if !literal.as_str().is_empty() {
        let mut text = String::new();
        std::mem::swap(&mut text, literal);
        tokens.push(Token::Literal(text));
    }
}

impl Template {
    /// Compiles a format string. Each error is reported by its message.
    pub fn parse(input: &str) -> (result: Result<Self, String>)
        ensures
            match compile(input@) {
                Ok(tokens) => result matches Ok(template) && template@ == tokens,
                Err(error) => result matches Err(message) && message@ == error.message(),
            },
    {
        let chars = to_chars(input);
        let n = chars.len();
        let mut tokens: Vec<Token> = Vec::new();
        let mut literal = String::new();
        let mut i: usize = 0;
        proof {
            assert(token_views(tokens@) =~= Seq::<TokenView>::empty());
        }
        while i < n
            invariant
                i <= n == chars@.len(),
                chars@ == input@,
                compile(input@) == compile_from(input@, i as int, token_views(tokens@), literal@),
            decreases n - i,
        {
            let c = chars[i];
            if c == '{' {
                if i + 1 < n && chars[i + 1] == '{' {
                    literal.push('{');
                    i += 2;
                } else {
                    let close = find_first(chars.as_slice(), '}', i + 1);
                    proof {
                        lemma_first_index(input@, '}', i + 1);
                    }
                    if close >= n {
                        return Err("Unclosed placeholder".to_owned());
                    }
                    if close == i + 1 {
                        return Err("Empty placeholder {}".to_owned());
                    }
                    let name = vstd::slice::slice_subrange(chars.as_slice(), i + 1, close);
                    match Field::from_chars(name) {
                        None => {
                            let name_text = string_of(name);
                            let quoted = debug_string(name_text.as_str());
                            return Err(unknown_field_message(quoted.as_str()));
                        },
                        Some(field) => {
                            flush(&mut tokens, &mut literal);
                            let ghost before = tokens@;
                            tokens.push(Token::Placeholder(Placeholder { field }));
                            proof {
                                assert(token_views(tokens@) =~= token_views(before).push(
                                    TokenView::Placeholder(field),
                                ));
                            }
                            i = close + 1;
                        },
                    }
                }
            } else if c == '}' {
                if i + 1 < n && chars[i + 1] == '}' {
                    literal.push('}');
                    i += 2;
                } else {
                    return Err("Unmatched '}'".to_owned());
                }
            } else {
                literal.push(c);
                i += 1;
            }
        }
        flush(&mut tokens, &mut literal);
        Ok(Template { tokens })
    }

    /// Appends to `out` the text of this template for `sample`. Rendering
    /// reads the compiled tokens only and never fails.
    pub fn render(&self, sample: &MemorySample, out: &mut String) -> (result: std::fmt::Result)
        ensures
            result is Ok,
            final(out)@ == old(out)@ + rendered(self@, *sample),
    {
        let mut i: usize = 0;
        while i < self.tokens.len()
            invariant
                i <= self.tokens@.len(),
                out@ == old(out)@ + rendered(self@.take(i as int), *sample),
            decreases self.tokens@.len() - i,
        {
            match &self.tokens[i] {
                Token::Literal(text) => {
                    out.append(text.as_str());
                },
                Token::Placeholder(placeholder) => {
                    push_field(out, placeholder.field, sample);
                },
            }
            proof {
                let next = self@.take(i + 1);
                assert(next.drop_last() =~= self@.take(i as int));
            }
            i += 1;
        }
        proof {
            assert(self@.take(self.tokens@.len() as int) =~= self@);
        }
        Ok(())
    }
}

/// Appends to `out` the text that stands for `field` of `sample`.
fn push_field(out: &mut String, field: Field, sample: &MemorySample)
    ensures
        final(out)@ == old(out)@ + field_text(field, *sample),
{
    match field {
        Field::Pid => push_i32(out, sample.pid),
        Field::ProcessName => out.append(sample.process_name),
        Field::CurrentBytes => push_u64(out, sample.current_bytes),
        Field::MaxBytes => push_u64(out, sample.max_bytes),
        Field::CurrentHuman => push_size(out, sample.current_bytes, UnitSystem::Binary),
        Field::MaxHuman => push_size(out, sample.max_bytes, UnitSystem::Binary),
        Field::Timestamp => push_u64(out, sample.timestamp),
    }
}

/// Why a text with backslash escapes cannot be read.
pub enum UnescapeError {
    /// A backslash before a character that no escape uses.
    UnknownEscape(char),
    /// A backslash at the very end.
    TrailingBackslash,
}

impl UnescapeError {
    /// The message that reports this error.
    pub open spec fn message(self) -> Seq<char> {
        match self {
            UnescapeError::UnknownEscape(c) => "Unknown escape: \\"@.push(c),
            UnescapeError::TrailingBackslash => "Trailing backslash"@,
        }
    }
}

/// The character that a backslash followed by `c` stands for.
pub open spec fn escaped_char(c: char) -> Option<char> {
    if c == 'n' {
        Some('\n')
    } else if c == 't' {
        Some('\t')
    } else if c == '\\' {
        Some('\\')
    } else if c == '"' {
        Some('"')
    } else {
        None
    }
}

/// Reads `s` from index `i` on, after the text `done`: a backslash and the
/// character after it stand for one character, every other character for
/// itself.
pub open spec fn unescaped_from(s: Seq<char>, i: int, done: Seq<char>) -> Result<
    Seq<char>,
    UnescapeError,
>
    decreases s.len() - i,
{
    if i < 0 || i >= s.len() {
        Ok(done)
    } else if s[i] == '\\' {
        if i + 1 >= s.len() {
            Err(UnescapeError::TrailingBackslash)
        } else {
            match escaped_char(s[i + 1]) {
                Some(c) => unescaped_from(s, i + 2, done.push(c)),
                None => Err(UnescapeError::UnknownEscape(s[i + 1])),
            }
        }
    } else {
        unescaped_from(s, i + 1, done.push(s[i]))
    }
}

/// The text that `s` stands for once its escapes `\n`, `\t`, `\\` and `\"`
/// are replaced, or the first error met.
pub open spec fn unescaped(s: Seq<char>) -> Result<Seq<char>, UnescapeError> {
    unescaped_from(s, 0, Seq::empty())
}

/// Replaces the escapes `\n`, `\t`, `\\` and `\"` of `input` by the
/// characters they stand for. Each error is reported by its message.
pub fn unescape(input: &str) -> (result: Result<String, String>)
    ensures
        match unescaped(input@) {
            Ok(text) => result matches Ok(out) && out@ == text,
            Err(error) => result matches Err(message) && message@ == error.message(),
        },
{
    let chars = to_chars(input);
    let n = chars.len();
    let mut out = String::new();
    let mut i: usize = 0;
    while i < n
        invariant
            i <= n == chars@.len(),
            chars@ == input@,
            unescaped(input@) == unescaped_from(input@, i as int, out@),
        decreases n - i,
    {
        let c = chars[i];
        if c == '\\' {
            if i + 1 >= n {
                return Err("Trailing backslash".to_owned());
            }
            let next = chars[i + 1];
            if next == 'n' {
                out.push('\n');
            } else if next == 't' {
                out.push('\t');
            } else if next == '\\' {
                out.push('\\');
            } else if next == '"' {
                out.push('"');
            } else {
                let mut message = "Unknown escape: \\".to_owned();
                message.push(next);
                return Err(message);
            }
            i += 2;
        } else {
            out.push(c);
            i += 1;
        }
    }
    Ok(out)
}

/// Declares `std::fmt::Error`, the error of `std::fmt::Result`, so that
/// rendering can keep the signature of a formatting function. No value of
/// it is ever made here.
#[verifier::external_type_specification]
#[verifier::external_body]
pub struct ExFmtError(std::fmt::Error);

} // verus!
