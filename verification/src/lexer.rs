//! The lexer: from a source text to lines of tokens.
//!
//! The source is split at line feeds; a carriage return at the end of a
//! line is dropped; a `#` starts a comment that runs to the end of the
//! line; what is left is split at spaces, tabs and commas, and a token that
//! is the name of a define is replaced by the text of the define.

use crate::htab::HashTable;
use crate::text::{
    index_of, lemma_index_of, lemma_index_of_concat, lemma_index_of_is, line_views, slice_views,
    to_chars,
};
use vstd::prelude::*;

verus! {

/// A line without the carriage return at its end, if it has one.
pub open spec fn strip_cr(line: Seq<char>) -> Seq<char> {
    if line.len() > 0 && line.last() == '\r' {
        line.drop_last()
    } else {
        line
    }
}

/// A line without its comment.
pub open spec fn strip_comment(line: Seq<char>) -> Seq<char> {
    line.take(index_of(line, '#'))
}

/// The characters that separate tokens.
pub open spec fn is_separator(c: char) -> bool {
    c == ' ' || c == '\t' || c == ','
}

/// The number of characters at the start of `s` that are no separators.
pub open spec fn token_len(s: Seq<char>) -> int
    decreases s.len(),
{
    if s.len() > 0 && !is_separator(s[0]) {
        1 + token_len(s.drop_first())
    } else {
        0
    }
}

/// The tokens of `s`: the longest runs of characters that are no
/// separators, in order.
pub open spec fn split_tokens(s: Seq<char>) -> Seq<Seq<char>>
    decreases s.len(),
    via split_tokens_decreases
{
    if s.len() == 0 {
        Seq::empty()
    } else if is_separator(s[0]) {
        split_tokens(s.drop_first())
    } else {
        seq![s.take(token_len(s))] + split_tokens(s.skip(token_len(s)))
    }
}

#[via_fn]
proof fn split_tokens_decreases(s: Seq<char>) {
    lemma_token_len(s);
}

/// A token, or the text of the define that it names.
pub open spec fn substitute(token: Seq<char>, defines: Map<Seq<char>, Seq<char>>) -> Seq<char> {
    if defines.contains_key(token) {
        defines[token]
    } else {
        token
    }
}

/// Each token, or the text of the define that it names.
pub open spec fn substitute_all(tokens: Seq<Seq<char>>, defines: Map<Seq<char>, Seq<char>>) -> Seq<
    Seq<char>,
> {
    Seq::new(tokens.len(), |i: int| substitute(tokens[i], defines))
}

/// The tokens of one line, which holds no line feed.
pub open spec fn lex_line(line: Seq<char>, defines: Map<Seq<char>, Seq<char>>) -> Seq<Seq<char>> {
    substitute_all(split_tokens(strip_comment(strip_cr(line))), defines)
}

/// What follows the first line of `s`.
pub open spec fn after_first_line(s: Seq<char>) -> Seq<char> {
    if index_of(s, '\n') < s.len() {
        s.skip(index_of(s, '\n') + 1)
    } else {
        Seq::empty()
    }
}

/// The lines of tokens of a source. A line ends at a line feed or at the
/// end of the source; a source that ends with a line feed has no empty
/// last line.
pub open spec fn lex_spec(source: Seq<char>, defines: Map<Seq<char>, Seq<char>>) -> Seq<
    Seq<Seq<char>>,
>
    decreases source.len(),
    via lex_spec_decreases
{
    if source.len() == 0 {
        Seq::empty()
    } else {
        seq![lex_line(source.take(index_of(source, '\n')), defines)] + lex_spec(
            after_first_line(source),
            defines,
        )
    }
}

#[via_fn]
proof fn lex_spec_decreases(source: Seq<char>, defines: Map<Seq<char>, Seq<char>>) {
    crate::text::lemma_index_of(source, '\n');
}

/// What `token_len` counts: the longest run without a separator.
pub proof fn lemma_token_len(s: Seq<char>)
    ensures
        0 <= token_len(s) <= s.len(),
        forall|j: int| 0 <= j < token_len(s) ==> !is_separator(#[trigger] s[j]),
        token_len(s) < s.len() ==> is_separator(s[token_len(s)]),
    decreases s.len(),
{
    if s.len() > 0 && !is_separator(s[0]) {
        let t = s.drop_first();
        lemma_token_len(t);
        assert forall|j: int| 0 <= j < token_len(s) implies !is_separator(#[trigger] s[j]) by {
            if j > 0 {
                assert(s[j] == t[j - 1]);
            }
        }
    }
}

/// A run of `n` characters without a separator that ends before one, or at
/// the end, is the whole run.
pub proof fn lemma_token_len_is(s: Seq<char>, n: int)
    requires
        0 <= n <= s.len(),
        forall|j: int| 0 <= j < n ==> !is_separator(#[trigger] s[j]),
        n < s.len() ==> is_separator(s[n]),
    ensures
        token_len(s) == n,
{
    lemma_token_len(s);
    let k = token_len(s);
    if k < n {
        assert(!is_separator(s[k]));
    } else if n < k {
        assert(!is_separator(s[n]));
    }
}

/// The position of the first `c` in `s[from..to]`, or `to`.
fn find_before(s: &[char], from: usize, to: usize, c: char) -> (at: usize)
    requires
        from <= to <= s@.len(),
    ensures
        from <= at <= to,
        at == from + index_of(s@.subrange(from as int, to as int), c),
{
    let mut i: usize = from;
    while i < to && s[i] != c
        invariant
            from <= i <= to <= s@.len(),
            forall|j: int| from <= j < i ==> s@[j] != c,
        decreases to - i,
    {
        i += 1;
    }
    proof {
        lemma_index_of_is(s@.subrange(from as int, to as int), c, i - from);
    }
    i
}

/// Whether `c` separates tokens.
fn separates(c: char) -> (yes: bool)
    ensures
        yes == is_separator(c),
{
    c == ' ' || c == '\t' || c == ','
}

/// The tokens of `source[from..to]`, each replaced by the text of the
/// define that it names, if it names one.
fn lex_tokens<'a>(
    source: &'a str,
    chars: &[char],
    from: usize,
    to: usize,
    defines: &'a HashTable,
) -> (tokens: Vec<&'a str>)
    requires
        chars@ == source@,
        from <= to <= chars@.len(),
    ensures
        slice_views(tokens@) == substitute_all(
            split_tokens(chars@.subrange(from as int, to as int)),
            defines@,
        ),
{
    let ghost content = chars@.subrange(from as int, to as int);
    let ghost mut raw: Seq<Seq<char>> = Seq::empty();
    let mut tokens: Vec<&'a str> = Vec::new();
    let mut p: usize = from;
    assert(content.skip(0) =~= content);
    while p < to
        invariant
            from <= p <= to <= chars@.len(),
            chars@ == source@,
            content == chars@.subrange(from as int, to as int),
            split_tokens(content) == raw + split_tokens(content.skip(p - from)),
            raw.len() == tokens@.len(),
            slice_views(tokens@) == substitute_all(raw, defines@),
        decreases to - p,
    {
        let ghost rest = content.skip(p - from);
        if separates(chars[p]) {
            assert(rest.drop_first() =~= content.skip(p + 1 - from));
            p += 1;
        } else {
            let start = p;
            while p < to && !separates(chars[p])
                invariant
                    start <= p <= to <= chars@.len(),
                    forall|j: int| start <= j < p ==> !is_separator(#[trigger] chars@[j]),
                decreases to - p,
            {
                p += 1;
            }
            let token: &'a str = source.substring_char(start, p);
            let shown: &'a str = match defines.get(token) {
                Some(text) => text,
                None => token,
            };
            proof {
                lemma_token_len_is(rest, p - start);
                assert(rest.take(p - start) =~= token@);
                assert(rest.skip(p - start) =~= content.skip(p - from));
                assert(raw + (seq![token@] + split_tokens(content.skip(p - from))) =~= raw.push(
                    token@,
                ) + split_tokens(content.skip(p - from)));
                assert forall|i: int| 0 <= i < tokens@.len() implies (#[trigger] tokens@[i])@
                    == substitute(raw[i], defines@) by {
                    assert(slice_views(tokens@)[i] == substitute_all(raw, defines@)[i]);
                }
                assert(shown@ == substitute(token@, defines@));
                assert(slice_views(tokens@.push(shown)) =~= substitute_all(
                    raw.push(token@),
                    defines@,
                ));
                raw = raw.push(token@);
            }
            tokens.push(shown);
        }
    }
    proof {
        assert(content.skip(to - from) =~= Seq::<char>::empty());
        assert(raw + Seq::<Seq<char>>::empty() =~= raw);
    }
    tokens
}

/// The lines of tokens of `source`: see [`lex_spec`].
pub fn lex<'a>(source: &'a str, defines: &'a HashTable) -> (lines: Vec<Vec<&'a str>>)
    ensures
        line_views(lines@) == lex_spec(source@, defines@),
{
    let chars = to_chars(source);
    let text = chars.as_slice();
    let n = text.len();
    let mut lines: Vec<Vec<&'a str>> = Vec::new();
    let mut pos: usize = 0;
    assert(text@.skip(0) =~= text@);
    while pos < n
        invariant
            pos <= n == text@.len(),
            text@ == source@,
            lex_spec(source@, defines@) == line_views(lines@) + lex_spec(
                text@.skip(pos as int),
                defines@,
            ),
        decreases n - pos,
    {
        let ghost rest = text@.skip(pos as int);
        let end = find_before(text, pos, n, '\n');
        let line_end: usize = if end > pos && text[end - 1] == '\r' {
            end - 1
        } else {
            end
        };
        let content_end = find_before(text, pos, line_end, '#');
        let tokens = lex_tokens(source, text, pos, content_end, defines);
        let next: usize = if end < n {
            end + 1
        } else {
            n
        };
        proof {
            assert(text@.subrange(pos as int, n as int) =~= rest);
            let line = rest.take(end - pos);
            assert(line =~= text@.subrange(pos as int, end as int));
            assert(strip_cr(line) =~= text@.subrange(pos as int, line_end as int));
            assert(strip_comment(strip_cr(line)) =~= text@.subrange(
                pos as int,
                content_end as int,
            ));
            assert(after_first_line(rest) =~= text@.skip(next as int));
            assert(line_views(lines@.push(tokens)) =~= line_views(lines@).push(
                slice_views(tokens@),
            ));
            assert(line_views(lines@) + (seq![lex_line(line, defines@)] + lex_spec(
                text@.skip(next as int),
                defines@,
            )) =~= line_views(lines@).push(slice_views(tokens@)) + lex_spec(
                text@.skip(next as int),
                defines@,
            ));
        }
        lines.push(tokens);
        pos = next;
    }
    proof {
        assert(text@.skip(n as int) =~= Seq::<char>::empty());
        assert(line_views(lines@) + Seq::<Seq<Seq<char>>>::empty() =~= line_views(lines@));
    }
    lines
}

/// The lines of tokens of a source.
pub struct LexerContext<'a> {
    tokens: Vec<Vec<&'a str>>,
}

impl<'a> LexerContext<'a> {
    /// The lines of tokens that this context holds.
    pub closed spec fn lines(&self) -> Seq<Seq<Seq<char>>> {
        line_views(self.tokens@)
    }

    /// A context without lines.
    pub fn empty() -> (context: LexerContext<'a>)
        ensures
            context.lines() == Seq::<Seq<Seq<char>>>::empty(),
    {
        let context = LexerContext { tokens: Vec::new() };
        assert(context.lines() =~= Seq::<Seq<Seq<char>>>::empty());
        context
    }

    /// Lexes `source`: see [`lex_spec`].
    pub fn lex(source: &'a str, defines: &'a HashTable) -> (context: LexerContext<'a>)
        ensures
            context.lines() == lex_spec(source@, defines@),
    {
        LexerContext { tokens: lex(source, defines) }
    }

    /// The lines of tokens.
    pub fn tokens(&self) -> (tokens: &Vec<Vec<&'a str>>)
        ensures
            line_views(tokens@) == self.lines(),
    {
        &self.tokens
    }
}

/// The lexer output of a text whose first line is `line`.
pub proof fn lemma_lex_first_line(
    line: Seq<char>,
    rest: Seq<char>,
    defines: Map<Seq<char>, Seq<char>>,
)
    requires
        index_of(line, '\n') == line.len(),
    ensures
        lex_spec(line + seq!['\n'] + rest, defines) == seq![lex_line(line, defines)] + lex_spec(
            rest,
            defines,
        ),
        line.len() > 0 ==> lex_spec(line, defines) == seq![lex_line(line, defines)],
{
    let s = line + seq!['\n'] + rest;
    lemma_index_of_concat(line, seq!['\n'] + rest, '\n');
    assert(s =~= line + (seq!['\n'] + rest));
    assert(index_of(seq!['\n'] + rest, '\n') == 0);
    assert(s.take(line.len() as int) =~= line);
    assert(after_first_line(s) =~= rest);
    if line.len() > 0 {
        assert(line.take(line.len() as int) =~= line);
        assert(after_first_line(line) =~= Seq::<char>::empty());
        assert(lex_spec(Seq::<char>::empty(), defines) =~= Seq::<Seq<Seq<char>>>::empty());
        assert(seq![lex_line(line, defines)] + Seq::<Seq<Seq<char>>>::empty() =~= seq![
            lex_line(line, defines),
        ]);
    }
}

/// The lexer output of two texts in a row, where the first is empty or
/// ends with a line feed, is the output of the first and then that of the
/// second.
pub proof fn lemma_lex_concat(a: Seq<char>, b: Seq<char>, defines: Map<Seq<char>, Seq<char>>)
    requires
        a.len() == 0 || a.last() == '\n',
    ensures
        lex_spec(a + b, defines) == lex_spec(a, defines) + lex_spec(b, defines),
    decreases a.len(),
{
    if a.len() == 0 {
        assert(a + b =~= b);
        assert(lex_spec(a, defines) + lex_spec(b, defines) =~= lex_spec(b, defines));
    } else {
        lemma_index_of(a, '\n');
        let n = index_of(a, '\n');
        let line = a.take(n);
        let rest = a.skip(n + 1);
        assert(a =~= line + seq!['\n'] + rest);
        assert(a + b =~= line + seq!['\n'] + (rest + b));
        lemma_index_of_is(line, '\n', n);
        lemma_lex_first_line(line, rest, defines);
        lemma_lex_first_line(line, rest + b, defines);
        if rest.len() > 0 {
            assert(rest.last() == a.last());
        }
        lemma_lex_concat(rest, b, defines);
        assert(seq![lex_line(line, defines)] + (lex_spec(rest, defines) + lex_spec(b, defines))
            =~= (seq![lex_line(line, defines)] + lex_spec(rest, defines)) + lex_spec(b, defines));
    }
}

/// Whether the carriage return at the end of a line, if there is one,
/// stands in a comment.
pub open spec fn comment_safe(line: Seq<char>) -> bool {
    line.len() > 0 && line.last() == '\r' ==> index_of(line, '#') < line.len()
}

/// A carriage return in a comment makes no difference to what is left of
/// the line.
pub proof fn lemma_strip_cr_in_comment(line: Seq<char>)
    requires
        comment_safe(line),
    ensures
        strip_comment(strip_cr(line)) == strip_comment(line),
{
    if line.len() > 0 && line.last() == '\r' {
        lemma_index_of(line, '#');
        let p = index_of(line, '#');
        let short = line.drop_last();
        assert forall|j: int| 0 <= j < p implies short[j] != '#' by {
            assert(short[j] == line[j]);
        }
        assert(short[p] == line[p]);
        lemma_index_of_is(short, '#', p);
        assert(short.take(p) =~= line.take(p));
    }
}

/// Comment neutrality on one line: a comment appended to a line changes no
/// token of it. A line that ends with a carriage return outside a comment
/// is left out: there the carriage return, once not last, joins a token.
pub proof fn lemma_comment_neutral_line(
    line: Seq<char>,
    comment: Seq<char>,
    defines: Map<Seq<char>, Seq<char>>,
)
    requires
        comment_safe(line),
    ensures
        lex_line(line + seq!['#'] + comment, defines) == lex_line(line, defines),
{
    let whole = line + seq!['#'] + comment;
    let kept = strip_cr(whole);
    let tail = if whole.last() == '\r' {
        seq!['#'] + comment.drop_last()
    } else {
        seq!['#'] + comment
    };
    assert(whole.last() == '\r' ==> comment.len() > 0);
    assert(kept =~= line + tail);
    lemma_index_of(line, '#');
    lemma_index_of_concat(line, tail, '#');
    assert(index_of(tail, '#') == 0);
    assert((line + tail).take(index_of(line, '#')) =~= line.take(index_of(line, '#')));
    lemma_strip_cr_in_comment(line);
}

/// Comment neutrality: a comment appended to a line of a source changes
/// nothing in the lexer output. The line is `line`, which stands after
/// `before` and before `after`. Where no line feed follows the line, the
/// line is not empty: a comment makes a line of its own there.
pub proof fn lemma_comment_neutral(
    before: Seq<char>,
    line: Seq<char>,
    comment: Seq<char>,
    after: Seq<char>,
    defines: Map<Seq<char>, Seq<char>>,
)
    requires
        before.len() == 0 || before.last() == '\n',
        index_of(line, '\n') == line.len(),
        index_of(comment, '\n') == comment.len(),
        after.len() == 0 && line.len() > 0 || after.len() > 0 && after[0] == '\n',
        comment_safe(line),
    ensures
        lex_spec(before + (line + seq!['#'] + comment) + after, defines) == lex_spec(
            before + line + after,
            defines,
        ),
{
    let long = line + seq!['#'] + comment;
    lemma_comment_neutral_line(line, comment, defines);
    lemma_index_of_concat(line, seq!['#'] + comment, '\n');
    lemma_index_of_concat(seq!['#'], comment, '\n');
    assert(index_of(seq!['#'], '\n') == 1) by {
        lemma_index_of_is(seq!['#'], '\n', 1);
    }
    assert(long =~= line + (seq!['#'] + comment));
    assert(index_of(long, '\n') == long.len());
    assert(before + long + after =~= before + (long + after));
    assert(before + line + after =~= before + (line + after));
    lemma_lex_concat(before, long + after, defines);
    lemma_lex_concat(before, line + after, defines);
    if after.len() == 0 {
        assert(long + after =~= long);
        assert(line + after =~= line);
        lemma_lex_first_line(long, Seq::empty(), defines);
        lemma_lex_first_line(line, Seq::empty(), defines);
    } else {
        let rest = after.drop_first();
        assert(long + after =~= long + seq!['\n'] + rest);
        assert(line + after =~= line + seq!['\n'] + rest);
        lemma_lex_first_line(long, rest, defines);
        lemma_lex_first_line(line, rest, defines);
    }
}

/// The text with a carriage return put before every line feed.
pub open spec fn to_crlf(s: Seq<char>) -> Seq<char>
    decreases s.len(),
{
    if s.len() == 0 {
        Seq::empty()
    } else if s[0] == '\n' {
        seq!['\r', '\n'] + to_crlf(s.drop_first())
    } else {
        seq![s[0]] + to_crlf(s.drop_first())
    }
}

/// Whether every carriage return that stands right before a line feed
/// stands in a comment.
pub open spec fn crlf_safe(s: Seq<char>) -> bool
    decreases s.len(),
    via crlf_safe_decreases
{
    if s.len() == 0 {
        true
    } else {
        (index_of(s, '\n') < s.len() ==> comment_safe(s.take(index_of(s, '\n')))) && crlf_safe(
            after_first_line(s),
        )
    }
}

#[via_fn]
proof fn crlf_safe_decreases(s: Seq<char>) {
    lemma_index_of(s, '\n');
}

/// A carriage return before every line feed changes nothing in a text
/// without line feeds, and goes through texts in a row.
pub proof fn lemma_to_crlf(a: Seq<char>, b: Seq<char>)
    ensures
        to_crlf(a + b) == to_crlf(a) + to_crlf(b),
        index_of(a, '\n') == a.len() ==> to_crlf(a) == a,
    decreases a.len(),
{
    if a.len() == 0 {
        assert(a + b =~= b);
        assert(to_crlf(a) + to_crlf(b) =~= to_crlf(b));
        assert(to_crlf(a) =~= a);
    } else {
        lemma_to_crlf(a.drop_first(), b);
        assert((a + b).drop_first() =~= a.drop_first() + b);
        lemma_index_of(a, '\n');
        if a[0] == '\n' {
            assert(to_crlf(a + b) =~= to_crlf(a) + to_crlf(b));
        } else {
            assert(to_crlf(a + b) =~= to_crlf(a) + to_crlf(b));
            if index_of(a, '\n') == a.len() {
                assert(to_crlf(a) =~= a);
            }
        }
    }
}

/// Line ending invariance: a source with a carriage return put before
/// every line feed has the lexer output of the source itself. A source
/// with a carriage return right before a line feed, outside a comment, is
/// left out: there the second carriage return makes the first join a token.
pub proof fn lemma_crlf_invariance(s: Seq<char>, defines: Map<Seq<char>, Seq<char>>)
    requires
        crlf_safe(s),
    ensures
        lex_spec(to_crlf(s), defines) == lex_spec(s, defines),
    decreases s.len(),
{
    if s.len() > 0 {
        lemma_index_of(s, '\n');
        let n = index_of(s, '\n');
        let line = s.take(n);
        lemma_index_of_is(line, '\n', n);
        if n == s.len() {
            assert(line =~= s);
            lemma_to_crlf(s, Seq::empty());
        } else {
            let rest = s.skip(n + 1);
            assert(after_first_line(s) == rest);
            assert(s =~= line + (seq!['\n'] + rest));
            lemma_to_crlf(line, seq!['\n'] + rest);
            lemma_to_crlf(seq!['\n'], rest);
            assert(seq!['\n'].drop_first() =~= Seq::<char>::empty());
            assert(to_crlf(Seq::<char>::empty()) =~= Seq::<char>::empty());
            assert(to_crlf(seq!['\n']) =~= seq!['\r', '\n']);
            let ended = line + seq!['\r'];
            assert(to_crlf(s) =~= ended + seq!['\n'] + to_crlf(rest));
            lemma_index_of_concat(line, seq!['\r'], '\n');
            assert(index_of(seq!['\r'], '\n') == 1) by {
                lemma_index_of_is(seq!['\r'], '\n', 1);
            }
            lemma_lex_first_line(ended, to_crlf(rest), defines);
            assert(s =~= line + seq!['\n'] + rest);
            lemma_lex_first_line(line, rest, defines);
            assert(strip_cr(ended) =~= line);
            lemma_strip_cr_in_comment(line);
            lemma_crlf_invariance(rest, defines);
        }
    }
}

/// Whether `name` is a token of the text, before defines are put in.
pub open spec fn mentions(s: Seq<char>, name: Seq<char>) -> bool
    decreases s.len(),
    via mentions_decreases
{
    if s.len() == 0 {
        false
    } else {
        split_tokens(strip_comment(strip_cr(s.take(index_of(s, '\n'))))).contains(name)
            || mentions(after_first_line(s), name)
    }
}

#[via_fn]
proof fn mentions_decreases(s: Seq<char>, name: Seq<char>) {
    lemma_index_of(s, '\n');
}

/// A define that no token of a text names changes nothing in the lexer
/// output of the text.
pub proof fn lemma_unused_define(
    s: Seq<char>,
    defines: Map<Seq<char>, Seq<char>>,
    name: Seq<char>,
    text: Seq<char>,
)
    requires
        !mentions(s, name),
    ensures
        lex_spec(s, defines.insert(name, text)) == lex_spec(s, defines),
    decreases s.len(),
{
    if s.len() > 0 {
        lemma_index_of(s, '\n');
        let tokens = split_tokens(strip_comment(strip_cr(s.take(index_of(s, '\n')))));
        assert forall|i: int| 0 <= i < tokens.len() implies substitute(
            tokens[i],
            defines.insert(name, text),
        ) == substitute(tokens[i], defines) by {
            assert(tokens.contains(tokens[i]));
        }
        assert(substitute_all(tokens, defines.insert(name, text)) =~= substitute_all(
            tokens,
            defines,
        ));
        lemma_unused_define(after_first_line(s), defines, name, text);
    }
}

} // verus!
