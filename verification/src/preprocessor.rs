//! The preprocessor: `%include` and `%define` directives.
//!
//! A directive runs from its word, anywhere on a line, to the end of that
//! line. An include is replaced by the text that it names; a define is
//! replaced by a line feed and enters the table of defines. One include,
//! then one define, are handled in turn until the source holds neither.
//! Reading what an include names is left to the caller: [`preprocess`] and
//! [`resume`] stop at each include and say what they need.

use crate::htab::HashTable;
use crate::text::{
    find, find_char, find_sub, index_of, lemma_find_from, lemma_index_of, to_chars, trim,
    trim_bounds,
};
use vstd::prelude::*;

verus! {

/// The word that starts an include.
pub const TOK_INCLUDE: &'static str = "%include";

/// The word that starts a define.
pub const TOK_DEFINE: &'static str = "%define";

/// Why a source could not be preprocessed.
#[derive(Debug, PartialEq, Eq, Clone)]
pub enum PreprocessingError {
    /// What an include names could not be had; `inner` says why.
    FailedInclude { name: String, inner: String },
    /// A define of a name that is defined already.
    DuplicateDefine { name: String, original_value: String, new_value: String },
    /// A define without a name.
    EmptyDefine,
    /// A define with a name and nothing else.
    DefineWithoutValue(String),
}

/// The mathematical value of a [`PreprocessingError`].
pub enum Problem {
    FailedInclude { name: Seq<char>, inner: Seq<char> },
    DuplicateDefine { name: Seq<char>, original_value: Seq<char>, new_value: Seq<char> },
    EmptyDefine,
    DefineWithoutValue(Seq<char>),
}

impl View for PreprocessingError {
    type V = Problem;

    open spec fn view(&self) -> Problem {
        match self {
            PreprocessingError::FailedInclude { name, inner } => Problem::FailedInclude {
                name: name@,
                inner: inner@,
            },
            PreprocessingError::DuplicateDefine {
                name,
                original_value,
                new_value,
            } => Problem::DuplicateDefine {
                name: name@,
                original_value: original_value@,
                new_value: new_value@,
            },
            PreprocessingError::EmptyDefine => Problem::EmptyDefine,
            PreprocessingError::DefineWithoutValue(key) => Problem::DefineWithoutValue(key@),
        }
    }
}

/// Where the first directive of `word` starts, and where its line ends: at
/// the next line feed, or at the end of the source.
pub open spec fn locate(src: Seq<char>, word: Seq<char>) -> Option<(int, int)> {
    match find(src, word) {
        None => None,
        Some(at) => Some((at, at + index_of(src.skip(at), '\n'))),
    }
}

/// What a directive says: the text between its word and the end of its
/// line, trimmed.
pub open spec fn directive_text(src: Seq<char>, word: Seq<char>, at: int, end: int) -> Seq<char> {
    trim(src.subrange(at + word.len(), end))
}

/// The source with `src[at..end]`, and the line feed at `end` if there is
/// one, replaced by `replacement`.
pub open spec fn splice(src: Seq<char>, at: int, end: int, replacement: Seq<char>) -> Seq<char> {
    src.take(at) + replacement + if end < src.len() {
        src.skip(end + 1)
    } else {
        Seq::empty()
    }
}

/// The table with what the define `line` says: the name runs to the first
/// space, the text is the rest, trimmed.
pub open spec fn define_spec(line: Seq<char>, defines: Map<Seq<char>, Seq<char>>) -> Result<
    Map<Seq<char>, Seq<char>>,
    Problem,
> {
    let space = index_of(line, ' ');
    let name = line.take(space);
    let text = trim(line.skip(space));
    if line.len() == 0 {
        Err(Problem::EmptyDefine)
    } else if space == line.len() {
        Err(Problem::DefineWithoutValue(line))
    } else if defines.contains_key(name) {
        Err(Problem::DuplicateDefine { name, original_value: defines[name], new_value: text })
    } else {
        Ok(defines.insert(name, text))
    }
}

/// One define step: the first define of the source, if there is one,
/// enters the table and gives way to a line feed. The flag says whether
/// there was one.
pub open spec fn defines_step(src: Seq<char>, defines: Map<Seq<char>, Seq<char>>) -> Result<
    (Seq<char>, Map<Seq<char>, Seq<char>>, bool),
    Problem,
> {
    match locate(src, TOK_DEFINE@) {
        None => Ok((src, defines, false)),
        Some((at, end)) => match define_spec(directive_text(src, TOK_DEFINE@, at, end), defines) {
            Err(e) => Err(e),
            Ok(table) => Ok((splice(src, at, end, seq!['\n']), table, true)),
        },
    }
}

/// What the first include of the source names, if there is one.
pub open spec fn pending_include(src: Seq<char>) -> Option<Seq<char>> {
    match locate(src, TOK_INCLUDE@) {
        None => None,
        Some((at, end)) => Some(directive_text(src, TOK_INCLUDE@, at, end)),
    }
}

/// One include step: the first include of the source, if there is one,
/// gives way to `contents`.
pub open spec fn include_step(src: Seq<char>, contents: Seq<char>) -> Seq<char> {
    match locate(src, TOK_INCLUDE@) {
        None => src,
        Some((at, end)) => splice(src, at, end, contents),
    }
}

/// Where preprocessing stops.
pub enum Outcome {
    /// The source holds no directive any more.
    Done { text: Seq<char>, defines: Map<Seq<char>, Seq<char>> },
    /// The source holds an include of `name`.
    Include { name: Seq<char>, text: Seq<char>, defines: Map<Seq<char>, Seq<char>> },
    /// A directive is wrong.
    Failed(Problem),
}

/// Preprocessing from the start of a round: an include stops it; else one
/// define step is made and, if it found a define, another round follows.
pub open spec fn settle(src: Seq<char>, defines: Map<Seq<char>, Seq<char>>) -> Outcome
    decreases src.len(),
    via settle_decreases
{
    match pending_include(src) {
        Some(name) => Outcome::Include { name, text: src, defines },
        None => match defines_step(src, defines) {
            Err(e) => Outcome::Failed(e),
            Ok((text, table, changed)) => if changed {
                settle(text, table)
            } else {
                Outcome::Done { text, defines: table }
            },
        },
    }
}

#[via_fn]
proof fn settle_decreases(src: Seq<char>, defines: Map<Seq<char>, Seq<char>>) {
    lemma_define_shrinks(src, defines);
}

/// Preprocessing after an include was read: its contents take its place,
/// the define step of the round is made, and the next round follows.
pub open spec fn resume_spec(
    src: Seq<char>,
    contents: Seq<char>,
    defines: Map<Seq<char>, Seq<char>>,
) -> Outcome {
    match defines_step(include_step(src, contents), defines) {
        Err(e) => Outcome::Failed(e),
        Ok((text, table, _)) => settle(text, table),
    }
}

/// Where a directive is found, its line lies within the source and holds
/// its word.
pub proof fn lemma_locate(src: Seq<char>, word: Seq<char>)
    requires
        forall|i: int| 0 <= i < word.len() ==> word[i] != '\n',
    ensures
        locate(src, word) matches Some((at, end)) ==> 0 <= at && at + word.len() <= end
            <= src.len(),
{
    lemma_find_from(src, word, 0);
    if let Some(at) = find(src, word) {
        let tail = src.skip(at);
        lemma_index_of(tail, '\n');
        let n = index_of(tail, '\n');
        if n < word.len() {
            assert(tail[n] == src.subrange(at, at + word.len())[n]);
        }
    }
}

/// A define step that finds a define makes the source shorter.
pub proof fn lemma_define_shrinks(src: Seq<char>, defines: Map<Seq<char>, Seq<char>>)
    ensures
        defines_step(src, defines) matches Ok((text, _, changed)) ==> (changed ==> text.len()
            < src.len()) && (!changed ==> text == src),
{
    reveal_strlit("%define");
    lemma_locate(src, TOK_DEFINE@);
}

/// Where the first directive of `word` starts and where its line ends.
fn find_directive(text: &[char], word: &str) -> (r: Option<(usize, usize)>)
    requires
        forall|i: int| 0 <= i < word@.len() ==> word@[i] != '\n',
    ensures
        match r {
            Some((at, end)) => locate(text@, word@) == Some((at as int, end as int)) && at
                + word@.len() <= end <= text@.len(),
            None => locate(text@, word@) is None,
        },
{
    let pattern = to_chars(word);
    match find_sub(text, pattern.as_slice()) {
        None => None,
        Some(at) => {
            proof {
                lemma_find_from(text@, word@, 0);
                lemma_locate(text@, word@);
            }
            let end = find_char(text, at, '\n');
            Some((at, end))
        },
    }
}

/// The source with `src[at..end]`, and the line feed at `end` if there is
/// one, replaced by `replacement`.
fn splice_text(src: &str, length: usize, at: usize, end: usize, replacement: &str) -> (out: String)
    requires
        at <= end <= length == src@.len(),
    ensures
        out@ == splice(src@, at as int, end as int, replacement@),
{
    let mut out = String::from_str(src.substring_char(0, at));
    out.append(replacement);
    if end < length {
        out.append(src.substring_char(end + 1, length));
        assert(src@.subrange(end + 1, length as int) =~= src@.skip(end + 1));
    }
    assert(src@.subrange(0, at as int) =~= src@.take(at as int));
    assert(out@ =~= splice(src@, at as int, end as int, replacement@));
    out
}

/// Enters what the define `line` says into `defines`: see [`define_spec`].
/// On an error the table stays as it is.
pub fn parse_define(line: &str, defines: &mut HashTable) -> (r: Result<(), PreprocessingError>)
    ensures
        match r {
            Ok(()) => define_spec(line@, old(defines)@) == Ok::<Map<Seq<char>, Seq<char>>, Problem>(
                final(defines)@,
            ),
            Err(e) => define_spec(line@, old(defines)@) == Err::<
                Map<Seq<char>, Seq<char>>,
                Problem,
            >(e@) && final(defines)@ == old(defines)@,
        },
{
    let chars = to_chars(line);
    let text = chars.as_slice();
    let n = text.len();
    if n == 0 {
        return Err(PreprocessingError::EmptyDefine);
    }
    let space = find_char(text, 0, ' ');
    assert(text@.skip(0) =~= text@);
    if space == n {
        return Err(PreprocessingError::DefineWithoutValue(line.to_owned()));
    }
    let name = line.substring_char(0, space);
    let (lo, hi) = trim_bounds(text, space, n);
    let value = line.substring_char(lo, hi);
    proof {
        assert(line@.subrange(0, space as int) =~= line@.take(space as int));
        assert(line@.subrange(space as int, n as int) =~= line@.skip(space as int));
    }
    match defines.get(name) {
        Some(original) => Err(
            PreprocessingError::DuplicateDefine {
                name: name.to_owned(),
                original_value: original.to_owned(),
                new_value: value.to_owned(),
            },
        ),
        None => {
            defines.insert(name, value);
            Ok(())
        },
    }
}

/// Makes one define step: see [`defines_step`]. On an error the table
/// stays as it is.
pub fn process_defines(src: String, defines: &mut HashTable) -> (r: Result<
    (String, bool),
    PreprocessingError,
>)
    ensures
        match r {
            Ok((text, changed)) => defines_step(src@, old(defines)@) == Ok::<
                (Seq<char>, Map<Seq<char>, Seq<char>>, bool),
                Problem,
            >((text@, final(defines)@, changed)),
            Err(e) => defines_step(src@, old(defines)@) == Err::<
                (Seq<char>, Map<Seq<char>, Seq<char>>, bool),
                Problem,
            >(e@) && final(defines)@ == old(defines)@,
        },
{
    let chars = to_chars(src.as_str());
    let text = chars.as_slice();
    proof {
        reveal_strlit("%define");
    }
    match find_directive(text, TOK_DEFINE) {
        None => Ok((src, false)),
        Some((at, end)) => {
            let (lo, hi) = trim_bounds(text, at + 7, end);
            let line = src.as_str().substring_char(lo, hi);
            parse_define(line, defines)?;
            let replaced = splice_text(src.as_str(), text.len(), at, end, "\n");
            proof {
                reveal_strlit("\n");
                assert("\n"@ =~= seq!['\n']);
            }
            Ok((replaced, true))
        },
    }
}

/// What the first include of the source names, if there is one.
pub fn next_include(src: &str) -> (name: Option<String>)
    ensures
        match name {
            Some(text) => pending_include(src@) == Some(text@),
            None => pending_include(src@) is None,
        },
{
    let chars = to_chars(src);
    let text = chars.as_slice();
    proof {
        reveal_strlit("%include");
    }
    match find_directive(text, TOK_INCLUDE) {
        None => None,
        Some((at, end)) => {
            let (lo, hi) = trim_bounds(text, at + 8, end);
            Some(src.substring_char(lo, hi).to_owned())
        },
    }
}

/// Makes one include step with the contents of what the first include
/// names: see [`include_step`]. The flag says whether there was an include.
pub fn process_includes(src: String, contents: &str) -> (r: (String, bool))
    ensures
        r.0@ == include_step(src@, contents@),
        r.1 == pending_include(src@) is Some,
{
    let chars = to_chars(src.as_str());
    let text = chars.as_slice();
    proof {
        reveal_strlit("%include");
    }
    match find_directive(text, TOK_INCLUDE) {
        None => (src, false),
        Some((at, end)) => (splice_text(src.as_str(), text.len(), at, end, contents), true),
    }
}

/// Where [`preprocess`] and [`resume`] stop without an error.
#[derive(Debug, PartialEq, Eq, Clone)]
pub enum Preprocessed {
    /// The source holds no directive any more: this is its text.
    Done(String),
    /// The source, as it stands in `src`, holds an include of `name`. With
    /// what `name` holds, [`resume`] goes on.
    Include { name: String, src: String },
}

/// Whether the executable result `r`, with the table of defines `table`,
/// is the outcome `expected`.
pub open spec fn reached(
    r: Result<Preprocessed, PreprocessingError>,
    table: Map<Seq<char>, Seq<char>>,
    expected: Outcome,
) -> bool {
    match r {
        Ok(Preprocessed::Done(text)) => expected == (Outcome::Done { text: text@, defines: table }),
        Ok(Preprocessed::Include { name, src }) => expected == (Outcome::Include {
            name: name@,
            text: src@,
            defines: table,
        }),
        Err(e) => expected == Outcome::Failed(e@),
    }
}

/// Preprocesses `src` up to its first include, or to its end: see
/// [`settle`].
pub fn preprocess(src: String, defines: &mut HashTable) -> (r: Result<
    Preprocessed,
    PreprocessingError,
>)
    ensures
        reached(r, final(defines)@, settle(src@, old(defines)@)),
{
    let ghost goal = settle(src@, defines@);
    let mut current = src;
    loop
        invariant
            goal == settle(src@, old(defines)@),
            goal == settle(current@, defines@),
        decreases current@.len(),
    {
        if let Some(name) = next_include(current.as_str()) {
            return Ok(Preprocessed::Include { name, src: current });
        }
        proof {
            lemma_define_shrinks(current@, defines@);
        }
        let (text, changed) = process_defines(current, defines)?;
        if !changed {
            return Ok(Preprocessed::Done(text));
        }
        current = text;
    }
}

/// Goes on after the first include of `src` was read, with what it holds:
/// see [`resume_spec`].
pub fn resume(src: String, contents: &str, defines: &mut HashTable) -> (r: Result<
    Preprocessed,
    PreprocessingError,
>)
    ensures
        reached(r, final(defines)@, resume_spec(src@, contents@, old(defines)@)),
{
    let (included, _) = process_includes(src, contents);
    let (text, _) = process_defines(included, defines)?;
    preprocess(text, defines)
}

} // verus!
