//! A loaded program, and loading: preprocessor, lexer and parser in turn.
//!
//! Loading stops at each include of the source and hands back what it
//! needs; the caller reads it and resumes.

use crate::context::LoadError;
use crate::htab::HashTable;
use crate::instruction::Instruction;
use crate::lexer::{lemma_unused_define, lex, lex_spec, mentions};
use crate::parser::parser::{parse, parse_spec, Failure, ParseError};
use crate::preprocessor::{
    defines_step, lemma_define_shrinks, pending_include, preprocess, resume, resume_spec, settle,
    Outcome, Preprocessed, PreprocessingError, Problem,
};
use vstd::prelude::*;

verus! {

/// The result of loading a source: immutable once built.
#[derive(Debug, Clone, PartialEq, Eq)]
pub struct Program {
    pub instructions: Vec<Instruction>,
    pub start_instruction_index: i32,
}

/// A load that waits for what an include names.
#[derive(Debug, PartialEq, Eq)]
pub struct PendingInclude {
    name: String,
    src: String,
    defines: HashTable,
}

/// Where loading stops without an error.
#[derive(Debug, PartialEq, Eq)]
pub enum Loading {
    /// The program.
    Ready(Program),
    /// The source holds an include: see [`PendingInclude::resume`].
    Include(PendingInclude),
}

/// Why a source gives no program.
pub enum LoadFailure {
    Preprocessing(Problem),
    Parse(usize, Failure),
}

/// Where loading stops.
pub enum Loaded {
    /// The program: its instructions and where it starts.
    Ready(Seq<Instruction>, i32),
    /// The source, as it stands in `text`, holds an include of `name`.
    Include { name: Seq<char>, text: Seq<char>, defines: Map<Seq<char>, Seq<char>> },
    /// The source gives no program.
    Failed(LoadFailure),
}

/// The program that a preprocessed text writes, under the defines that
/// the preprocessor gathered.
pub open spec fn assemble_spec(text: Seq<char>, defines: Map<Seq<char>, Seq<char>>) -> Result<
    (Seq<Instruction>, i32),
    (usize, Failure),
> {
    parse_spec(lex_spec(text, defines))
}

/// Loading, from where the preprocessor stopped.
pub open spec fn loaded(outcome: Outcome) -> Loaded {
    match outcome {
        Outcome::Done { text, defines } => match assemble_spec(text, defines) {
            Ok((instructions, start)) => Loaded::Ready(instructions, start),
            Err((line, e)) => Loaded::Failed(LoadFailure::Parse(line, e)),
        },
        Outcome::Include { name, text, defines } => Loaded::Include { name, text, defines },
        Outcome::Failed(e) => Loaded::Failed(LoadFailure::Preprocessing(e)),
    }
}

/// Loading a source, up to its first include or to its end.
pub open spec fn load_spec(source: Seq<char>) -> Loaded {
    loaded(settle(source, Map::empty()))
}

impl View for LoadError {
    type V = LoadFailure;

    open spec fn view(&self) -> LoadFailure {
        match self {
            LoadError::PreprocessingError(e) => LoadFailure::Preprocessing(e@),
            LoadError::ParseError(e) => LoadFailure::Parse(e.line_index, e.error@),
        }
    }
}

/// Whether the executable result `r` is `expected`.
pub open spec fn load_matches(r: Result<Loading, LoadError>, expected: Loaded) -> bool {
    match r {
        Ok(Loading::Ready(program)) => expected == Loaded::Ready(
            program.instructions@,
            program.start_instruction_index,
        ),
        Ok(Loading::Include(pending)) => expected == (Loaded::Include {
            name: pending.name_spec(),
            text: pending.text(),
            defines: pending.defines_spec(),
        }),
        Err(e) => expected == Loaded::Failed(e@),
    }
}

/// Lexes and parses a preprocessed text: see [`assemble_spec`].
pub fn assemble(text: &str, defines: &HashTable) -> (r: Result<Program, ParseError>)
    ensures
        match r {
            Ok(program) => assemble_spec(text@, defines@) == Ok::<
                (Seq<Instruction>, i32),
                (usize, Failure),
            >((program.instructions@, program.start_instruction_index)),
            Err(e) => assemble_spec(text@, defines@) == Err::<
                (Seq<Instruction>, i32),
                (usize, Failure),
            >(e@),
        },
{
    let lines = lex(text, defines);
    parse(lines.as_slice())
}

/// Goes on with loading from where the preprocessor stopped.
fn finish(step: Result<Preprocessed, PreprocessingError>, defines: HashTable) -> (r: Result<
    Loading,
    LoadError,
>)
    ensures
        forall|outcome: Outcome| #[trigger]
            crate::preprocessor::reached(step, defines@, outcome) ==> load_matches(
                r,
                loaded(outcome),
            ),
{
    match step {
        Err(e) => Err(LoadError::PreprocessingError(e)),
        Ok(Preprocessed::Include { name, src }) => Ok(
            Loading::Include(PendingInclude { name, src, defines }),
        ),
        Ok(Preprocessed::Done(text)) => match assemble(text.as_str(), &defines) {
            Ok(program) => Ok(Loading::Ready(program)),
            Err(e) => Err(LoadError::ParseError(e)),
        },
    }
}

impl PendingInclude {
    /// What the include names.
    pub closed spec fn name_spec(&self) -> Seq<char> {
        self.name@
    }

    /// The source as it stands.
    pub closed spec fn text(&self) -> Seq<char> {
        self.src@
    }

    /// The defines gathered so far.
    pub closed spec fn defines_spec(&self) -> Map<Seq<char>, Seq<char>> {
        self.defines@
    }

    /// What the include names.
    pub fn name(&self) -> (name: &str)
        ensures
            name@ == self.name_spec(),
    {
        self.name.as_str()
    }

    /// Goes on with loading, with what the include names holding
    /// `contents`: see [`resume_spec`].
    pub fn resume(self, contents: &str) -> (r: Result<Loading, LoadError>)
        ensures
            load_matches(
                r,
                loaded(resume_spec(self.text(), contents@, self.defines_spec())),
            ),
    {
        let mut defines = self.defines;
        let step = resume(self.src, contents, &mut defines);
        finish(step, defines)
    }
}

impl Program {
    /// The program without instructions, which starts at index 0.
    pub fn new() -> (program: Program)
        ensures
            program.instructions@ == Seq::<Instruction>::empty(),
            program.start_instruction_index == 0,
    {
        Program { instructions: Vec::new(), start_instruction_index: 0 }
    }

    /// Loads a source, up to its first include or to its end: see
    /// [`load_spec`].
    pub fn load(source: String) -> (r: Result<Loading, LoadError>)
        ensures
            load_matches(r, load_spec(source@)),
    {
        let mut defines = HashTable::new();
        let step = preprocess(source, &mut defines);
        finish(step, defines)
    }
}

/// A define that no token of a text names changes nothing in the program
/// that the text writes.
pub proof fn lemma_unused_define_same_program(
    text: Seq<char>,
    defines: Map<Seq<char>, Seq<char>>,
    name: Seq<char>,
    value: Seq<char>,
)
    requires
        !mentions(text, name),
    ensures
        assemble_spec(text, defines.insert(name, value)) == assemble_spec(text, defines),
{
    lemma_unused_define(text, defines, name, value);
}

/// Preprocessing keeps every define that it starts with; and where it
/// ends without a define of `name`, it ends with the same text when it
/// starts with one more define, of `name`.
pub proof fn lemma_settle_with_one_more_define(
    src: Seq<char>,
    defines: Map<Seq<char>, Seq<char>>,
    name: Seq<char>,
    value: Seq<char>,
)
    requires
        settle(src, defines) is Done,
    ensures
        forall|key: Seq<char>| #[trigger]
            defines.contains_key(key) ==> settle(src, defines)->Done_defines.contains_key(key),
        !settle(src, defines)->Done_defines.contains_key(name) ==> settle(
            src,
            defines.insert(name, value),
        ) == (Outcome::Done {
            text: settle(src, defines)->Done_text,
            defines: settle(src, defines)->Done_defines.insert(name, value),
        }),
    decreases src.len(),
{
    lemma_define_shrinks(src, defines);
    lemma_define_shrinks(src, defines.insert(name, value));
    match defines_step(src, defines) {
        Err(_) => {},
        Ok((text, table, changed)) => {
            if changed {
                lemma_settle_with_one_more_define(text, table, name, value);
                let last = settle(src, defines)->Done_defines;
                assert forall|key: Seq<char>| #[trigger]
                    defines.contains_key(key) implies last.contains_key(key) by {
                    assert(table.contains_key(key));
                }
                if !last.contains_key(name) {
                    assert(!table.contains_key(name));
                    assert(defines_step(src, defines.insert(name, value)) matches Ok((t, d, c))
                        && t == text && c && d =~= table.insert(name, value));
                }
            }
        },
    }
}

/// Define idempotence: a source whose first directive is a define that
/// nothing uses loads like the source with a line feed in place of the
/// define. Here `src` holds no include, its first define is of `name`, and
/// `text` is `src` with a line feed in place of that define; nothing uses
/// the define if the rest of `src` neither defines `name` again nor holds
/// it as a token.
pub proof fn lemma_define_idempotence(
    src: Seq<char>,
    text: Seq<char>,
    name: Seq<char>,
    value: Seq<char>,
)
    requires
        pending_include(src) is None,
        defines_step(src, Map::empty()) == Ok::<
            (Seq<char>, Map<Seq<char>, Seq<char>>, bool),
            Problem,
        >((text, Map::<Seq<char>, Seq<char>>::empty().insert(name, value), true)),
        settle(text, Map::empty()) is Done,
        !settle(text, Map::empty())->Done_defines.contains_key(name),
        !mentions(settle(text, Map::empty())->Done_text, name),
    ensures
        load_spec(src) == load_spec(text),
{
    let none = Map::<Seq<char>, Seq<char>>::empty();
    lemma_define_shrinks(src, none);
    lemma_settle_with_one_more_define(text, none, name, value);
    let done = settle(text, none);
    lemma_unused_define_same_program(done->Done_text, done->Done_defines, name, value);
}

} // verus!
