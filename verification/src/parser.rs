//! Parsing: from tokens to a program, with the files that it includes.
//!
//! A parser reads the items of a file in order. Where a file includes
//! another, the parser stops and names the file that it needs; the caller
//! reads that file and hands it over, and the parser goes on with the
//! included file before it returns to the including one. The items of an
//! included file stand in the program where the inclusion stood.

pub mod cursor;
pub mod expressions;
pub mod grammar;
pub mod items;
pub mod render;
pub mod statements;
pub mod types;

use crate::ast::{views, Item, Program, SpecItem};
use crate::error::{LexicalError, SpecSyntaxError, SyntaxError};
use crate::lexer::{spec_tokenize, tokenize_text, SpecToken, Token};
use crate::parser::grammar::{spec_parse_item, SpecParsedItem};
use crate::parser::items::{parse_item, ParsedItem};
use crate::text::{contains_text, spec_contains, starts_with, str_equal};
use vstd::prelude::*;

verus! {

/// Where a source file lies, as far as inclusions need to know.
#[derive(Debug, Clone, PartialEq, Eq)]
pub struct FilePlace {
    /// The directory that holds the file.
    pub directory: String,
    /// The nearest directory above the file that holds the project's marker
    /// file, if there is one.
    pub project_root: Option<String>,
    /// The directory that holds the file's directory, if there is one.
    pub parent_directory: Option<String>,
}

/// Model of [`FilePlace`].
pub struct SpecFilePlace {
    pub directory: Seq<char>,
    pub project_root: Option<Seq<char>>,
    pub parent_directory: Option<Seq<char>>,
}

impl View for FilePlace {
    type V = SpecFilePlace;

    open spec fn view(&self) -> SpecFilePlace {
        SpecFilePlace {
            directory: self.directory@,
            project_root: match self.project_root {
                Some(d) => Some(d@),
                None => None,
            },
            parent_directory: match self.parent_directory {
                Some(d) => Some(d@),
                None => None,
            },
        }
    }
}

/// A file that an inclusion names: the path as written, and the directory
/// that it is relative to. Without a directory the path stands for itself.
#[derive(Debug, Clone, PartialEq, Eq)]
pub struct IncludeRequest {
    pub base: Option<String>,
    pub path: String,
}

/// Model of [`IncludeRequest`].
pub struct SpecIncludeRequest {
    pub base: Option<Seq<char>>,
    pub path: Seq<char>,
}

impl View for IncludeRequest {
    type V = SpecIncludeRequest;

    open spec fn view(&self) -> SpecIncludeRequest {
        SpecIncludeRequest {
            base: match self.base {
                Some(d) => Some(d@),
                None => None,
            },
            path: self.path@,
        }
    }
}

/// An included file as it was read: its text, and where it lies.
#[derive(Debug, Clone, PartialEq, Eq)]
pub struct LoadedFile {
    pub source: String,
    pub place: FilePlace,
}

/// Why parsing stopped.
#[derive(Debug, Clone, PartialEq, Eq)]
pub enum ParseError {
    /// The tokens do not make a program.
    Syntax(SyntaxError),
    /// An included file holds a character at which no token begins.
    Lexical(LexicalError),
    /// A file includes itself, directly or through the files it includes.
    CircularInclude(String),
    /// An included file does not exist or cannot be read.
    MissingInclude(String),
    /// A file was handed over that the parser had not asked for.
    UnexpectedReply,
}

/// Model of [`ParseError`].
pub enum SpecParseError {
    Syntax(SpecSyntaxError),
    Lexical(LexicalError),
    CircularInclude(Seq<char>),
    MissingInclude(Seq<char>),
    UnexpectedReply,
}

impl View for ParseError {
    type V = SpecParseError;

    open spec fn view(&self) -> SpecParseError {
        match self {
            ParseError::Syntax(e) => SpecParseError::Syntax(e@),
            ParseError::Lexical(e) => SpecParseError::Lexical(*e),
            ParseError::CircularInclude(p) => SpecParseError::CircularInclude(p@),
            ParseError::MissingInclude(p) => SpecParseError::MissingInclude(p@),
            ParseError::UnexpectedReply => SpecParseError::UnexpectedReply,
        }
    }
}

/// What the parser has come to: the whole program, or an inclusion that it
/// needs the file of.
#[derive(Debug, Clone, PartialEq, Eq)]
pub enum ParseStep {
    Done(Program),
    Include(IncludeRequest),
}

/// Model of [`ParseStep`].
pub enum SpecParseStep {
    Done(Seq<SpecItem>),
    Include(SpecIncludeRequest),
}

impl View for ParseStep {
    type V = SpecParseStep;

    open spec fn view(&self) -> SpecParseStep {
        match self {
            ParseStep::Done(program) => SpecParseStep::Done(program@),
            ParseStep::Include(request) => SpecParseStep::Include(request@),
        }
    }
}

/// The directory that an included path is relative to, for an inclusion in a
/// file at `path` that lies at `place`.
///
/// A path that begins with `stdlib/` is relative to the project's root; where
/// no root is known and the file's path holds `examples`, to the directory
/// above the file's directory; else it stands for itself. Any other path is
/// relative to the file's directory. In a source that comes from no file,
/// every path stands for itself.
pub open spec fn spec_include_base(
    include_path: Seq<char>,
    file: Option<(Seq<char>, SpecFilePlace)>,
) -> Option<Seq<char>> {
    match file {
        None => None,
        Some((path, place)) => if "stdlib/"@.is_prefix_of(include_path) {
            match place.project_root {
                Some(root) => Some(root),
                None => if spec_contains(path, "examples"@) {
                    place.parent_directory
                } else {
                    None
                },
            }
        } else {
            Some(place.directory)
        },
    }
}

/// The directory that an included path is relative to.
pub fn include_base(include_path: &str, file: &Option<(String, FilePlace)>) -> (r: Option<String>)
    ensures
        (match r {
            Some(d) => Some(d@),
            None => None,
        }) == spec_include_base(
            include_path@,
            match file {
                Some((path, place)) => Some((path@, place@)),
                None => None,
            },
        ),
{
    match file {
        None => None,
        Some((path, place)) => {
            if starts_with(include_path, "stdlib/") {
                match &place.project_root {
                    Some(root) => Some(root.clone()),
                    None => {
                        if contains_text(path.as_str(), "examples") {
                            match &place.parent_directory {
                                Some(d) => Some(d.clone()),
                                None => None,
                            }
                        } else {
                            None
                        }
                    },
                }
            } else {
                Some(place.directory.clone())
            }
        },
    }
}

/// A file that is being parsed: its tokens, how far they have been read,
/// where the file lies, and the items read so far.
pub struct Frame {
    tokens: Vec<Token>,
    current: usize,
    file: Option<(String, FilePlace)>,
    items: Vec<Item>,
}

/// Model of [`Frame`].
pub struct SpecFrame {
    pub tokens: Seq<SpecToken>,
    pub current: int,
    pub file: Option<(Seq<char>, SpecFilePlace)>,
    pub items: Seq<SpecItem>,
}

impl View for Frame {
    type V = SpecFrame;

    closed spec fn view(&self) -> SpecFrame {
        SpecFrame {
            tokens: views(self.tokens@),
            current: self.current as int,
            file: match self.file {
                Some((path, place)) => Some((path@, place@)),
                None => None,
            },
            items: views(self.items@),
        }
    }
}

/// Model of a parser: the files being parsed, the including before the
/// included, and whether the parser waits for the file of an inclusion.
pub struct SpecParser {
    pub frames: Seq<SpecFrame>,
    pub pending: bool,
}

/// The paths of the files being parsed: the chain of inclusions.
pub open spec fn spec_chain(frames: Seq<SpecFrame>) -> Seq<Seq<char>>
    decreases frames.len(),
{
    if frames.len() == 0 {
        Seq::empty()
    } else {
        match frames.last().file {
            Some((path, _)) => spec_chain(frames.drop_last()).push(path),
            None => spec_chain(frames.drop_last()),
        }
    }
}

/// What makes a parser's state sound: no file is read beyond its end, and no
/// file stands twice in the chain of inclusions.
pub open spec fn spec_wf(state: SpecParser) -> bool {
    &&& forall|i: int|
        0 <= i < state.frames.len() ==> 0 <= (#[trigger] state.frames[i]).current
            <= state.frames[i].tokens.len()
    &&& spec_chain(state.frames).no_duplicates()
    &&& state.pending ==> state.frames.len() > 0
}

/// What one step of parsing comes to: a new state to go on from, or a new
/// state and what to hand to the caller.
pub enum SpecProgress {
    Continue(SpecParser),
    Stop(SpecParser, Result<SpecParseStep, SpecParseError>),
}

/// The state with the last frame replaced.
pub open spec fn with_top(state: SpecParser, top: SpecFrame) -> SpecParser {
    SpecParser { frames: state.frames.drop_last().push(top), pending: state.pending }
}

/// One step of parsing.
///
/// With no file left, the program is empty. At the end of a file, its items
/// are the program if it is the first file, else they are put after those of
/// the including file, which is gone on with. Else one item is read: an error
/// stops the parser where it is; an item is kept; an inclusion is handed to
/// the caller.
pub open spec fn spec_step(state: SpecParser) -> SpecProgress {
    if state.pending {
        SpecProgress::Stop(state, Err(SpecParseError::UnexpectedReply))
    } else if state.frames.len() == 0 {
        SpecProgress::Stop(state, Ok(SpecParseStep::Done(Seq::empty())))
    } else {
        let top = state.frames.last();
        if top.current >= top.tokens.len() {
            if state.frames.len() == 1 {
                SpecProgress::Stop(
                    SpecParser { frames: Seq::empty(), pending: false },
                    Ok(SpecParseStep::Done(top.items)),
                )
            } else {
                let below = state.frames[state.frames.len() - 2];
                let merged = SpecFrame { items: below.items + top.items, ..below };
                SpecProgress::Continue(
                    SpecParser {
                        frames: state.frames.drop_last().drop_last().push(merged),
                        pending: false,
                    },
                )
            }
        } else {
            match spec_parse_item(top.tokens, top.current) {
                Err(e) => SpecProgress::Stop(state, Err(SpecParseError::Syntax(e))),
                Ok((SpecParsedItem::Item(item), next)) => SpecProgress::Continue(
                    with_top(state, SpecFrame { current: next, items: top.items.push(item), ..top }),
                ),
                Ok((SpecParsedItem::Include(path), next)) => SpecProgress::Stop(
                    SpecParser {
                        frames: state.frames.drop_last().push(SpecFrame { current: next, ..top }),
                        pending: true,
                    },
                    Ok(
                        SpecParseStep::Include(
                            SpecIncludeRequest { base: spec_include_base(path, top.file), path },
                        ),
                    ),
                ),
            }
        }
    }
}

/// What is left to read of the file being parsed.
pub open spec fn spec_left(state: SpecParser) -> int {
    if state.frames.len() == 0 {
        0
    } else {
        state.frames.last().tokens.len() - state.frames.last().current
    }
}

/// Whether `next` is nearer to the end than `state`: it holds fewer files, or
/// as many with less left to read of the last.
pub open spec fn spec_nearer(next: SpecParser, state: SpecParser) -> bool {
    next.frames.len() < state.frames.len() || (next.frames.len() == state.frames.len() && 0
        <= spec_left(next) < spec_left(state))
}

/// Parsing from a state on, up to the next inclusion, to the end of the
/// program, or to an error.
pub open spec fn spec_run(state: SpecParser) -> (SpecParser, Result<SpecParseStep, SpecParseError>)
    decreases state.frames.len(), spec_left(state),
{
    match spec_step(state) {
        SpecProgress::Stop(end, outcome) => (end, outcome),
        SpecProgress::Continue(next) => if spec_nearer(next, state) {
            spec_run(next)
        } else {
            (next, Err(SpecParseError::UnexpectedReply))
        },
    }
}

/// What handing over the file of an inclusion comes to.
///
/// A file that stands in the chain of inclusions already is a circular
/// inclusion, whether or not it can be read; a file that could not be read
/// is missing; a file that holds no tokens is a lexical error. Else the file
/// is parsed next.
pub open spec fn spec_resume(
    state: SpecParser,
    resolved: Seq<char>,
    loaded: Option<(Seq<char>, SpecFilePlace)>,
) -> (SpecParser, Result<(), SpecParseError>) {
    if !state.pending {
        (state, Err(SpecParseError::UnexpectedReply))
    } else if spec_chain(state.frames).contains(resolved) {
        (state, Err(SpecParseError::CircularInclude(resolved)))
    } else {
        match loaded {
            None => (state, Err(SpecParseError::MissingInclude(resolved))),
            Some((source, place)) => match spec_tokenize(source) {
                Err(e) => (state, Err(SpecParseError::Lexical(e))),
                Ok(tokens) => (
                    SpecParser {
                        frames: state.frames.push(
                            SpecFrame {
                                tokens,
                                current: 0,
                                file: Some((resolved, place)),
                                items: Seq::empty(),
                            },
                        ),
                        pending: false,
                    },
                    Ok(()),
                ),
            },
        }
    }
}

/// The chain of inclusions with one more file.
pub proof fn lemma_chain_push(frames: Seq<SpecFrame>, frame: SpecFrame)
    ensures
        spec_chain(frames.push(frame)) == match frame.file {
            Some((path, _)) => spec_chain(frames).push(path),
            None => spec_chain(frames),
        },
{
    assert(frames.push(frame).drop_last() =~= frames);
}

/// Handing over a file that is in the chain of inclusions is an error, and
/// handing over any other keeps the chain free of repetitions.
pub proof fn lemma_resume_keeps_chain_sound(
    state: SpecParser,
    resolved: Seq<char>,
    loaded: Option<(Seq<char>, SpecFilePlace)>,
)
    requires
        spec_wf(state),
    ensures
        state.pending && spec_chain(state.frames).contains(resolved) ==> spec_resume(
            state,
            resolved,
            loaded,
        ).1 == Err::<(), SpecParseError>(SpecParseError::CircularInclude(resolved)),
        spec_wf(spec_resume(state, resolved, loaded).0),
{
    let after = spec_resume(state, resolved, loaded).0;
    if after != state {
        let frame = after.frames.last();
        assert(after.frames =~= state.frames.push(frame));
        lemma_chain_push(state.frames, frame);
        let chain = spec_chain(state.frames);
        assert forall|i: int, j: int|
            0 <= i < chain.push(resolved).len() && 0 <= j < chain.push(resolved).len() && i
                != j implies chain.push(resolved)[i] != chain.push(resolved)[j] by {
            if i < chain.len() && j < chain.len() {
            } else if i < chain.len() {
                assert(chain.contains(chain[i]));
            } else {
                assert(chain.contains(chain[j]));
            }
        }
    }
}

/// A parser.
pub struct Parser {
    frames: Vec<Frame>,
    pending: bool,
}

impl View for Parser {
    type V = SpecParser;

    closed spec fn view(&self) -> SpecParser {
        SpecParser { frames: self.frames@.map_values(|f: Frame| f@), pending: self.pending }
    }
}

/// The model of what the parser has come to, or of the error.
pub open spec fn step_view(r: Result<ParseStep, ParseError>) -> Result<SpecParseStep, SpecParseError> {
    match r {
        Ok(step) => Ok(step@),
        Err(e) => Err(e@),
    }
}

/// The model of a file that was handed over.
pub open spec fn loaded_view(loaded: Option<LoadedFile>) -> Option<(Seq<char>, SpecFilePlace)> {
    match loaded {
        Some(file) => Some((file.source@, file.place@)),
        None => None,
    }
}

/// The chain of inclusions without its last file is free of repetitions
/// where the chain is.
proof fn lemma_chain_drop_last(frames: Seq<SpecFrame>)
    requires
        frames.len() > 0,
        spec_chain(frames).no_duplicates(),
    ensures
        spec_chain(frames.drop_last()).no_duplicates(),
{
    let shorter = spec_chain(frames.drop_last());
    let chain = spec_chain(frames);
    assert forall|i: int, j: int|
        0 <= i < shorter.len() && 0 <= j < shorter.len() && i != j implies shorter[i]
        != shorter[j] by {
        assert(chain[i] == shorter[i] && chain[j] == shorter[j]);
    }
}

/// The chain of inclusions depends on the files' paths alone.
proof fn lemma_chain_same_files(a: Seq<SpecFrame>, b: Seq<SpecFrame>)
    requires
        a.len() == b.len(),
        forall|i: int| 0 <= i < a.len() ==> (#[trigger] a[i]).file == b[i].file,
    ensures
        spec_chain(a) == spec_chain(b),
    decreases a.len(),
{
    if a.len() > 0 {
        lemma_chain_same_files(a.drop_last(), b.drop_last());
    }
}

impl Parser {
    /// Whether the parser's state is sound: see [`spec_wf`].
    pub open spec fn wf(&self) -> bool {
        spec_wf(self@)
    }

    /// A parser for the tokens of a source that comes from no file.
    pub fn new(tokens: Vec<Token>) -> (r: Parser)
        ensures
            r.wf(),
            r@ == (SpecParser {
                frames: seq![
                    SpecFrame {
                        tokens: views(tokens@),
                        current: 0,
                        file: None,
                        items: Seq::empty(),
                    },
                ],
                pending: false,
            }),
    {
        let frame = Frame { tokens, current: 0, file: None, items: Vec::new() };
        let ghost frame_view = frame@;
        let mut frames: Vec<Frame> = Vec::new();
        frames.push(frame);
        let r = Parser { frames, pending: false };
        proof {
            assert(frame_view.items =~= Seq::<SpecItem>::empty());
            assert(r@.frames =~= seq![frame_view]);
            reveal_with_fuel(spec_chain, 2);
            assert(r@.frames.drop_last() =~= Seq::<SpecFrame>::empty());
            assert(spec_chain(r@.frames) =~= Seq::<Seq<char>>::empty());
        }
        r
    }

    /// A parser for the tokens of the file at `path`, which lies at `place`.
    pub fn new_with_file(tokens: Vec<Token>, path: String, place: FilePlace) -> (r: Parser)
        ensures
            r.wf(),
            r@ == (SpecParser {
                frames: seq![
                    SpecFrame {
                        tokens: views(tokens@),
                        current: 0,
                        file: Some((path@, place@)),
                        items: Seq::empty(),
                    },
                ],
                pending: false,
            }),
    {
        let frame = Frame { tokens, current: 0, file: Some((path, place)), items: Vec::new() };
        let ghost frame_view = frame@;
        let mut frames: Vec<Frame> = Vec::new();
        frames.push(frame);
        let r = Parser { frames, pending: false };
        proof {
            assert(frame_view.items =~= Seq::<SpecItem>::empty());
            assert(r@.frames =~= seq![frame_view]);
            reveal_with_fuel(spec_chain, 2);
            assert(r@.frames.drop_last() =~= Seq::<SpecFrame>::empty());
            assert(spec_chain(r@.frames) =~= seq![path@]);
        }
        r
    }

    /// One step of parsing: `None` where parsing goes on.
    fn step(&mut self) -> (r: Option<Result<ParseStep, ParseError>>)
        requires
            old(self).wf(),
        ensures
            final(self).wf(),
            match spec_step(old(self)@) {
                SpecProgress::Continue(next) => r is None && final(self)@ == next && spec_nearer(
                    next,
                    old(self)@,
                ),
                SpecProgress::Stop(end, outcome) => r is Some && step_view(r->0) == outcome
                    && final(self)@ == end,
            },
    {
        let ghost before = self@;
        if self.pending {
            return Some(Err(ParseError::UnexpectedReply));
        }
        if self.frames.len() == 0 {
            let items: Vec<Item> = Vec::new();
            assert(views(items@) =~= Seq::<SpecItem>::empty());
            return Some(Ok(ParseStep::Done(Program { items })));
        }
        assert(before.frames.last() == self.frames[self.frames.len() - 1]@);
        let mut top = self.frames.pop().unwrap();
        assert(self@.frames =~= before.frames.drop_last());
        proof {
            lemma_chain_drop_last(before.frames);
        }
        if top.current >= top.tokens.len() {
            if self.frames.len() == 0 {
                assert(self@.frames =~= Seq::<SpecFrame>::empty());
                return Some(Ok(ParseStep::Done(Program { items: top.items })));
            }
            let ghost lower = self@.frames;
            assert(lower.last() == self.frames[self.frames.len() - 1]@);
            let mut below = self.frames.pop().unwrap();
            let ghost below_view = below@;
            let ghost top_items = views(top.items@);
            let ghost below_items = views(below.items@);
            below.items.append(&mut top.items);
            assert(views(below.items@) =~= below_items + top_items);
            let ghost merged = below@;
            self.frames.push(below);
            proof {
                assert(self@.frames =~= before.frames.drop_last().drop_last().push(merged));
                assert(below_view == before.frames[before.frames.len() - 2]);
                let shorter = before.frames.drop_last();
                assert(shorter.drop_last().push(merged).len() == shorter.len());
                assert forall|i: int| 0 <= i < shorter.len() implies (#[trigger] shorter[i]).file
                    == self@.frames[i].file by {}
                lemma_chain_same_files(shorter, self@.frames);
            }
            None
        } else {
            match parse_item(&top.tokens, top.current) {
                Err(e) => {
                    self.frames.push(top);
                    assert(self@.frames =~= before.frames);
                    Some(Err(ParseError::Syntax(e)))
                },
                Ok((ParsedItem::Item(item), next)) => {
                    let ghost top_view = top@;
                    let ghost listed = views(top.items@);
                    let ghost item_view = item@;
                    top.items.push(item);
                    assert(views(top.items@) =~= listed.push(item_view));
                    top.current = next;
                    let ghost moved_top = top@;
                    self.frames.push(top);
                    proof {
                        assert(self@.frames =~= before.frames.drop_last().push(moved_top));
                        assert forall|i: int| 0 <= i < before.frames.len() implies (
                        #[trigger] before.frames[i]).file == self@.frames[i].file by {}
                        lemma_chain_same_files(before.frames, self@.frames);
                    }
                    None
                },
                Ok((ParsedItem::Include(path), next)) => {
                    let base = include_base(path.as_str(), &top.file);
                    top.current = next;
                    let ghost moved_top = top@;
                    self.frames.push(top);
                    self.pending = true;
                    proof {
                        assert(self@.frames =~= before.frames.drop_last().push(moved_top));
                        assert forall|i: int| 0 <= i < before.frames.len() implies (
                        #[trigger] before.frames[i]).file == self@.frames[i].file by {}
                        lemma_chain_same_files(before.frames, self@.frames);
                    }
                    Some(Ok(ParseStep::Include(IncludeRequest { base, path })))
                },
            }
        }
    }

    /// Parses up to the next inclusion, to the end of the program, or to an
    /// error.
    ///
    /// After an inclusion the parser waits for [`Parser::resume`]; after the
    /// end of the program it holds no file.
    pub fn parse(&mut self) -> (r: Result<ParseStep, ParseError>)
        requires
            old(self).wf(),
        ensures
            final(self).wf(),
            (final(self)@, step_view(r)) == spec_run(old(self)@),
    {
        loop
            invariant
                self.wf(),
                spec_run(old(self)@) == spec_run(self@),
            decreases self@.frames.len(), spec_left(self@),
        {
            match self.step() {
                Some(outcome) => {
                    return outcome;
                },
                None => {},
            }
        }
    }

    /// Hands over the file of the inclusion that the parser waits for:
    /// `resolved` is the file's path, `loaded` what was read from it, or
    /// `None` where it could not be read.
    ///
    /// A file that stands in the chain of inclusions already is refused as a
    /// circular inclusion, so that the chain never holds a file twice.
    pub fn resume(&mut self, resolved: String, loaded: Option<LoadedFile>) -> (r: Result<
        (),
        ParseError,
    >)
        requires
            old(self).wf(),
        ensures
            final(self).wf(),
            (
                final(self)@,
                match r {
                    Ok(_) => Ok(()),
                    Err(e) => Err(e@),
                },
            ) == spec_resume(old(self)@, resolved@, loaded_view(loaded)),
            old(self)@.pending && spec_chain(old(self)@.frames).contains(resolved@) ==> r
                == Err::<(), ParseError>(ParseError::CircularInclude(resolved)),
    {
        let ghost before = self@;
        proof {
            lemma_resume_keeps_chain_sound(before, resolved@, loaded_view(loaded));
        }
        if !self.pending {
            return Err(ParseError::UnexpectedReply);
        }
        if self.in_chain(resolved.as_str()) {
            return Err(ParseError::CircularInclude(resolved));
        }
        match loaded {
            None => Err(ParseError::MissingInclude(resolved)),
            Some(file) => match tokenize_text(file.source.as_str()) {
                Err(e) => Err(ParseError::Lexical(e)),
                Ok(tokens) => {
                    let frame = Frame {
                        tokens,
                        current: 0,
                        file: Some((resolved, file.place)),
                        items: Vec::new(),
                    };
                    let ghost frame_view = frame@;
                    assert(frame_view.items =~= Seq::<SpecItem>::empty());
                    self.frames.push(frame);
                    self.pending = false;
                    assert(self@.frames =~= before.frames.push(frame_view));
                    Ok(())
                },
            },
        }
    }

    /// Whether a file stands in the chain of inclusions.
    fn in_chain(&self, path: &str) -> (r: bool)
        ensures
            r == spec_chain(self@.frames).contains(path@),
    {
        let ghost frames = self@.frames;
        let mut i: usize = 0;
        assert(frames.take(0) =~= Seq::<SpecFrame>::empty());
        while i < self.frames.len()
            invariant
                i <= self.frames.len(),
                frames == self@.frames,
                !spec_chain(frames.take(i as int)).contains(path@),
            decreases self.frames.len() - i,
        {
            let ghost shorter = frames.take(i as int);
            let ghost longer = frames.take(i + 1);
            proof {
                assert(longer.drop_last() =~= shorter);
                assert(longer.last() == self.frames[i as int]@);
            }
            match &self.frames[i].file {
                Some((known, _)) => {
                    if str_equal(known.as_str(), path) {
                        proof {
                            lemma_chain_prefix(frames, i + 1);
                            let chain = spec_chain(longer);
                            assert(chain[chain.len() - 1] == path@);
                            assert(spec_chain(frames)[chain.len() - 1] == path@);
                        }
                        return true;
                    }
                    proof {
                        let chain = spec_chain(longer);
                        if chain.contains(path@) {
                            let k = choose|k: int| 0 <= k < chain.len() && chain[k] == path@;
                            if k < chain.len() - 1 {
                                assert(spec_chain(shorter)[k] == path@);
                            }
                        }
                    }
                },
                None => {},
            }
            i += 1;
        }
        assert(frames.take(self.frames.len() as int) =~= frames);
        false
    }
}

/// The chain of the first `n` files begins the chain of all.
proof fn lemma_chain_prefix(frames: Seq<SpecFrame>, n: int)
    requires
        0 <= n <= frames.len(),
    ensures
        spec_chain(frames.take(n)).is_prefix_of(spec_chain(frames)),
    decreases frames.len() - n,
{
    if n < frames.len() {
        lemma_chain_prefix(frames, n + 1);
        assert(frames.take(n + 1).drop_last() =~= frames.take(n));
    } else {
        assert(frames.take(n) =~= frames);
    }
}

} // verus!
