//! What compiling and rendering guarantee beyond their definitions: a
//! compiled template is in a normal form, every template in that form is
//! what its own source text compiles to, rendering reads the sample through
//! the named fields only, and text without braces renders as itself.

use vstd::prelude::*;

use crate::template::{
    compile, compile_from, field_named, field_text, flushed, lemma_field_name_round_trip,
    rendered, unescaped, unescaped_from, CompileError, Field, MemorySample, TokenView,
    UnescapeError,
};
use crate::text::{first_index, lemma_first_index_is};

verus! {

/// Whether `tokens` is in the form that compiling gives: no literal is
/// empty, and no literal follows another.
pub open spec fn canonical(tokens: Seq<TokenView>) -> bool {
    forall|i: int|
        0 <= i < tokens.len() ==> (#[trigger] tokens[i] matches TokenView::Literal(text)
            ==> text.len() > 0 && (i + 1 < tokens.len() ==> tokens[i + 1] is Placeholder))
}

/// How a format string writes the literal character `c`: a brace twice,
/// any other character once.
pub open spec fn written_char(c: char) -> Seq<char> {
    if c == '{' || c == '}' {
        seq![c, c]
    } else {
        seq![c]
    }
}

/// How a format string writes the literal text `text`.
pub open spec fn written_literal(text: Seq<char>) -> Seq<char>
    decreases text.len(),
{
    if text.len() == 0 {
        Seq::empty()
    } else {
        written_char(text[0]) + written_literal(text.drop_first())
    }
}

/// How a format string writes `token`: a literal with its braces doubled,
/// a placeholder as the name of its field in braces.
pub open spec fn written_token(token: TokenView) -> Seq<char> {
    match token {
        TokenView::Literal(text) => written_literal(text),
        TokenView::Placeholder(field) => seq!['{'] + field.name_text() + seq!['}'],
    }
}

/// The format string that writes `tokens`.
pub open spec fn written(tokens: Seq<TokenView>) -> Seq<char>
    decreases tokens.len(),
{
    if tokens.len() == 0 {
        Seq::empty()
    } else {
        written_token(tokens[0]) + written(tokens.drop_first())
    }
}

/// Reading written literal text adds that text to the pending literal and
/// nothing else.
proof fn lemma_compile_literal(
    pre: Seq<char>,
    text: Seq<char>,
    post: Seq<char>,
    tokens: Seq<TokenView>,
    literal: Seq<char>,
)
    ensures
        compile_from(pre + written_literal(text) + post, pre.len() as int, tokens, literal)
            == compile_from(
            pre + written_literal(text) + post,
            (pre.len() + written_literal(text).len()) as int,
            tokens,
            literal + text,
        ),
    decreases text.len(),
{
    let s = pre + written_literal(text) + post;
    if text.len() > 0 {
        let c = text[0];
        let rest = text.drop_first();
        let next = pre + written_char(c);
        assert(s =~= next + written_literal(rest) + post);
        lemma_compile_literal(next, rest, post, tokens, literal.push(c));
        assert(literal.push(c) + rest =~= literal + text);
    }
}

/// Reading a written placeholder completes the pending literal and adds
/// the placeholder.
proof fn lemma_compile_placeholder(
    pre: Seq<char>,
    field: Field,
    post: Seq<char>,
    tokens: Seq<TokenView>,
    literal: Seq<char>,
)
    ensures
        compile_from(
            pre + written_token(TokenView::Placeholder(field)) + post,
            pre.len() as int,
            tokens,
            literal,
        ) == compile_from(
            pre + written_token(TokenView::Placeholder(field)) + post,
            (pre.len() + written_token(TokenView::Placeholder(field)).len()) as int,
            flushed(tokens, literal).push(TokenView::Placeholder(field)),
            Seq::empty(),
        ),
{
    let name = field.name_text();
    let s = pre + written_token(TokenView::Placeholder(field)) + post;
    let open = pre.len() as int;
    let close = open + 1 + name.len();
    lemma_field_name_round_trip(field);
    lemma_first_index_is(s, '}', open + 1, close);
    assert(s.subrange(open + 1, close) =~= name);
}

/// Reading written tokens adds exactly those tokens, provided that a
/// pending literal is followed by a placeholder.
proof fn lemma_compile_written_from(
    pre: Seq<char>,
    written_tokens: Seq<TokenView>,
    tokens: Seq<TokenView>,
    literal: Seq<char>,
)
    requires
        canonical(written_tokens),
        literal.len() > 0 ==> written_tokens.len() == 0 || written_tokens[0] is Placeholder,
    ensures
        compile_from(pre + written(written_tokens), pre.len() as int, tokens, literal) == Ok::<
            Seq<TokenView>,
            CompileError,
        >(flushed(tokens, literal) + written_tokens),
    decreases written_tokens.len(),
{
    let s = pre + written(written_tokens);
    if written_tokens.len() > 0 {
        let first = written_tokens[0];
        let rest = written_tokens.drop_first();
        let next = pre + written_token(first);
        assert(s =~= next + written(rest));
        assert(canonical(rest)) by {
            assert(forall|i: int| 0 <= i < rest.len() ==> rest[i] == written_tokens[i + 1]);
        }
        match first {
            TokenView::Literal(text) => {
                lemma_compile_literal(pre, text, written(rest), tokens, literal);
                lemma_compile_written_from(next, rest, tokens, text);
                assert(flushed(tokens, text) + rest =~= flushed(tokens, literal) + written_tokens);
            },
            TokenView::Placeholder(field) => {
                lemma_compile_placeholder(pre, field, written(rest), tokens, literal);
                let done = flushed(tokens, literal).push(first);
                lemma_compile_written_from(next, rest, done, Seq::empty());
                assert(flushed(done, Seq::empty()) + rest =~= flushed(tokens, literal)
                    + written_tokens);
            },
        }
    }
}

/// Every template in normal form is what its own source text compiles to.
pub proof fn lemma_compile_written(tokens: Seq<TokenView>)
    requires
        canonical(tokens),
    ensures
        compile(written(tokens)) == Ok::<Seq<TokenView>, CompileError>(tokens),
{
    let none = Seq::<char>::empty();
    lemma_compile_written_from(none, tokens, Seq::empty(), none);
}

/// Compiling keeps the normal form, as long as the completed tokens end
/// with a placeholder.
proof fn lemma_compile_from_canonical(
    s: Seq<char>,
    i: int,
    tokens: Seq<TokenView>,
    literal: Seq<char>,
)
    requires
        canonical(tokens),
        tokens.len() == 0 || tokens.last() is Placeholder,
    ensures
        compile_from(s, i, tokens, literal) matches Ok(compiled) ==> canonical(compiled),
    decreases s.len() - i,
{
    if i < 0 || i >= s.len() {
    } else if s[i] == '{' {
        if i + 1 < s.len() && s[i + 1] == '{' {
            lemma_compile_from_canonical(s, i + 2, tokens, literal.push('{'));
        } else {
            let close = first_index(s, '}', i + 1);
            if i + 1 < close < s.len() {
                match field_named(s.subrange(i + 1, close)) {
                    Some(field) => {
                        lemma_compile_from_canonical(
                            s,
                            close + 1,
                            flushed(tokens, literal).push(TokenView::Placeholder(field)),
                            Seq::empty(),
                        );
                    },
                    None => {},
                }
            }
        }
    } else if s[i] == '}' {
        if i + 1 < s.len() && s[i + 1] == '}' {
            lemma_compile_from_canonical(s, i + 2, tokens, literal.push('}'));
        }
    } else {
        lemma_compile_from_canonical(s, i + 1, tokens, literal.push(s[i]));
    }
}

/// A compiled template is in normal form: it holds no empty literal and no
/// two literals in a row.
pub proof fn lemma_compiled_is_canonical(s: Seq<char>)
    ensures
        compile(s) matches Ok(tokens) ==> canonical(tokens),
{
    lemma_compile_from_canonical(s, 0, Seq::empty(), Seq::empty());
}

/// Rendering tokens one after the other gives their texts one after the
/// other.
pub proof fn lemma_rendered_concat(
    first: Seq<TokenView>,
    second: Seq<TokenView>,
    sample: MemorySample,
)
    ensures
        rendered(first + second, sample) == rendered(first, sample) + rendered(second, sample),
    decreases second.len(),
{
    if second.len() > 0 {
        lemma_rendered_concat(first, second.drop_last(), sample);
        assert((first + second).drop_last() =~= first + second.drop_last());
        assert(rendered(first + second, sample) =~= rendered(first, sample) + rendered(
            second,
            sample,
        ));
    }
}

/// What a template renders depends on the sample through the fields that
/// its placeholders name, and on nothing else: two samples that agree on
/// those fields render alike.
pub proof fn lemma_rendered_reads_named_fields(
    tokens: Seq<TokenView>,
    first: MemorySample,
    second: MemorySample,
)
    requires
        forall|i: int|
            0 <= i < tokens.len() ==> (#[trigger] tokens[i] matches TokenView::Placeholder(field)
                ==> field_text(field, first) == field_text(field, second)),
    ensures
        rendered(tokens, first) == rendered(tokens, second),
    decreases tokens.len(),
{
    if tokens.len() > 0 {
        let earlier = tokens.drop_last();
        assert(forall|i: int| 0 <= i < earlier.len() ==> earlier[i] == tokens[i]);
        lemma_rendered_reads_named_fields(earlier, first, second);
    }
}

/// Text without braces is written as it is.
proof fn lemma_written_plain(text: Seq<char>)
    requires
        !text.contains('{'),
        !text.contains('}'),
    ensures
        written_literal(text) == text,
    decreases text.len(),
{
    if text.len() > 0 {
        let rest = text.drop_first();
        assert(forall|k: int| 0 <= k < rest.len() ==> rest[k] == text[k + 1]);
        lemma_written_plain(rest);
    }
}

/// Text without braces compiles, and renders as itself against every
/// sample.
pub proof fn lemma_plain_text(text: Seq<char>, sample: MemorySample)
    requires
        !text.contains('{'),
        !text.contains('}'),
    ensures
        compile(text) == Ok::<Seq<TokenView>, CompileError>(flushed(Seq::empty(), text)),
        rendered(flushed(Seq::empty(), text), sample) == text,
{
    let tokens = flushed(Seq::empty(), text);
    lemma_written_plain(text);
    if text.len() > 0 {
        let none = Seq::<TokenView>::empty();
        assert(tokens.drop_first() =~= none);
        assert(written(none) =~= Seq::<char>::empty());
        assert(tokens.drop_last() =~= none);
        assert(rendered(none, sample) =~= Seq::<char>::empty());
    }
    lemma_compile_written(tokens);
}

/// How text is written with escapes: a backslash before `n`, `t`, a
/// backslash or a double quote for the character that the pair stands for,
/// every other character as it is.
pub open spec fn escaped_text(text: Seq<char>) -> Seq<char>
    decreases text.len(),
{
    if text.len() == 0 {
        Seq::empty()
    } else {
        let c = text[0];
        let head = if c == '\n' {
            seq!['\\', 'n']
        } else if c == '\t' {
            seq!['\\', 't']
        } else if c == '\\' {
            seq!['\\', '\\']
        } else if c == '"' {
            seq!['\\', '"']
        } else {
            seq![c]
        };
        head + escaped_text(text.drop_first())
    }
}

/// Reading escaped text adds the text that was escaped.
proof fn lemma_unescape_escaped_from(pre: Seq<char>, text: Seq<char>, done: Seq<char>)
    ensures
        unescaped_from(pre + escaped_text(text), pre.len() as int, done) == Ok::<
            Seq<char>,
            UnescapeError,
        >(done + text),
    decreases text.len(),
{
    let s = pre + escaped_text(text);
    if text.len() > 0 {
        let c = text[0];
        let rest = text.drop_first();
        let head = escaped_text(text).subrange(
            0,
            escaped_text(text).len() - escaped_text(rest).len(),
        );
        let next = pre + head;
        assert(s =~= next + escaped_text(rest));
        lemma_unescape_escaped_from(next, rest, done.push(c));
        assert(done.push(c) + rest =~= done + text);
    }
}

/// Unescaping undoes escaping.
pub proof fn lemma_unescape_escaped(text: Seq<char>)
    ensures
        unescaped(escaped_text(text)) == Ok::<Seq<char>, UnescapeError>(text),
{
    let none = Seq::<char>::empty();
    lemma_unescape_escaped_from(none, text, none);
}

} // verus!
