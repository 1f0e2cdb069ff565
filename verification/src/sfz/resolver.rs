//! SFZ files that import other files.
//!
//! A [`TokenResolver`] reads a file and, in place of each import, the file that is
//! imported. It does no reading itself: it asks for what it needs to know of the
//! file system with a [`ResolverAction`], and its caller answers.

use super::defines::{apply_defines, define, defined, substituted, Defines};
use super::grammar::{tokenize, tokens_from, Token};
use super::parse::{
    group_named, mapped, opcode_of, parse_sfz_group, parse_sfz_opcode, SfzGroupType, SfzOpcode,
};
use super::root::SfzToken;
use crate::path::{folder_of, join_path, joined, parent_path};
use crate::text::{chars_of, replace_char, replaced, same_text};
use encoding_rs::UTF_8;
use encoding_rs_io::DecodeReaderBytesBuilder;
use std::io::{BufReader, Read};
use vstd::prelude::*;
use vstd::utf8::{decode_utf8, valid_utf8};

verus! {

/// Why an SFZ file could not be read.
#[derive(Debug, PartialEq, Eq)]
pub enum SfzParseError<T = String> {
    /// The file is not there or cannot be read.
    FailedToReadFile(T),
    /// The file imports itself, by way of other files or directly.
    IncludeCycle(T),
}

impl DeepView for SfzParseError {
    type V = SfzParseError<Seq<char>>;

    open spec fn deep_view(&self) -> SfzParseError<Seq<char>> {
        match *self {
            SfzParseError::FailedToReadFile(path) => SfzParseError::FailedToReadFile(path@),
            SfzParseError::IncludeCycle(path) => SfzParseError::IncludeCycle(path@),
        }
    }
}

/// What a token of an SFZ file means.
#[derive(Debug)]
pub enum SfzTokenWithMeta<T = String> {
    Group(SfzGroupType),
    Opcode(SfzOpcode<T>),
    Import(T),
    Define(T, T),
}

impl DeepView for SfzTokenWithMeta {
    type V = SfzTokenWithMeta<Seq<char>>;

    open spec fn deep_view(&self) -> SfzTokenWithMeta<Seq<char>> {
        match *self {
            SfzTokenWithMeta::Group(group) => SfzTokenWithMeta::Group(group),
            SfzTokenWithMeta::Opcode(opcode) => SfzTokenWithMeta::Opcode(opcode.deep_view()),
            SfzTokenWithMeta::Import(path) => SfzTokenWithMeta::Import(path@),
            SfzTokenWithMeta::Define(variable, value) => SfzTokenWithMeta::Define(
                variable@,
                value@,
            ),
        }
    }
}

/// What a token means while `defines` are defined. An opcode that the library has
/// no use for means nothing.
pub open spec fn meaning(
    token: Token<Seq<char>>,
    defines: Seq<(Seq<char>, Seq<char>)>,
) -> Option<SfzTokenWithMeta<Seq<char>>> {
    match token {
        Token::Group(name) => Some(SfzTokenWithMeta::Group(group_named(name))),
        Token::Opcode { name, value } => mapped(
            opcode_of(substituted(defines, name, 0), substituted(defines, value, 0)),
            |opcode: SfzOpcode<Seq<char>>| SfzTokenWithMeta::Opcode(opcode),
        ),
        Token::Import(path) => Some(SfzTokenWithMeta::Import(replaced(path, '\\', '/'))),
        Token::Define { variable, value } => Some(SfzTokenWithMeta::Define(variable, value)),
    }
}

/// What a token means while `defines` are defined.
pub fn grammar_token_into_sfz_token(token: &Token, defines: &Defines) -> (r: Option<
    SfzTokenWithMeta,
>)
    ensures
        r.deep_view() == meaning(token.deep_view(), defines.deep_view()),
{
    match token {
        Token::Group(name) => Some(SfzTokenWithMeta::Group(parse_sfz_group(name))),
        Token::Opcode { name, value } => {
            let name = apply_defines(name, defines);
            let value = apply_defines(value, defines);
            match parse_sfz_opcode(&name, &value) {
                Some(opcode) => Some(SfzTokenWithMeta::Opcode(opcode)),
                None => None,
            }
        },
        Token::Import(path) => {
            let chars = chars_of(path);
            Some(SfzTokenWithMeta::Import(replace_char(&chars, '\\', '/')))
        },
        Token::Define { variable, value } => Some(
            SfzTokenWithMeta::Define(variable.clone(), value.clone()),
        ),
    }
}

/// What the tokens mean, one after the other, while `defines` are defined.
pub open spec fn meanings(
    tokens: Seq<Token<Seq<char>>>,
    defines: Seq<(Seq<char>, Seq<char>)>,
) -> Seq<SfzTokenWithMeta<Seq<char>>>
    decreases tokens.len(),
{
    if tokens.len() == 0 {
        Seq::empty()
    } else {
        let before = meanings(tokens.drop_last(), defines);
        match meaning(tokens.last(), defines) {
            Some(t) => before.push(t),
            None => before,
        }
    }
}

/// Reads a text on its own: definitions and imports are listed, not followed.
pub fn parse_tokens_raw(input: &str, defines: &Defines) -> (r: Vec<SfzTokenWithMeta>)
    ensures
        r.deep_view() == meanings(tokens_from(input@, 0), defines.deep_view()),
{
    let tokens = tokenize(input);
    let ghost all = tokens.deep_view();
    let mut out: Vec<SfzTokenWithMeta> = Vec::new();
    let mut i: usize = 0;
    assert(out.deep_view() =~= Seq::empty());
    while i < tokens.len()
        invariant
            i <= tokens.len(),
            all == tokens.deep_view(),
            out.deep_view() == meanings(all.take(i as int), defines.deep_view()),
        decreases tokens.len() - i,
    {
        let ghost before = out.deep_view();
        assert(all.take(i + 1).drop_last() =~= all.take(i as int));
        assert(all.take(i + 1).last() == tokens@[i as int].deep_view());
        if let Some(token) = grammar_token_into_sfz_token(&tokens[i], defines) {
            let ghost model = token.deep_view();
            out.push(token);
            assert(out.deep_view() =~= before.push(model));
        }
        i = i + 1;
    }
    assert(all.take(i as int) =~= all);
    out
}

/// The text that bytes hold when they are read as UTF-8 by the decoder of
/// `encoding_rs_io`, with each malformed part replaced.
pub uninterp spec fn decoded_text(bytes: Seq<u8>) -> Option<Seq<char>>;

/// The bytes begin with the mark that some editors put before UTF-8 text.
pub open spec fn has_mark(bytes: Seq<u8>) -> bool {
    bytes.len() >= 3 && bytes[0] == 0xEF && bytes[1] == 0xBB && bytes[2] == 0xBF
}

/// Reads bytes through the reader that `encoding_rs_io::DecodeReaderBytesBuilder`
/// builds for `encoding_rs::UTF_8`. The result depends on the bytes alone. Bytes
/// that are UTF-8 give the characters that they encode, without the mark at their
/// beginning where they have one. Where a part is malformed, which characters
/// take its place is not said.
#[verifier::external_body]
fn decode(bytes: &[u8]) -> (r: Option<String>)
    ensures
        r.deep_view() == decoded_text(bytes@),
        valid_utf8(bytes@) && !has_mark(bytes@) ==> r.deep_view() == Some(decode_utf8(bytes@)),
        valid_utf8(bytes@) && has_mark(bytes@) ==> r.deep_view() == Some(
            decode_utf8(bytes@.skip(3)),
        ),
{
    let decoder = DecodeReaderBytesBuilder::new().encoding(Some(UTF_8)).build(bytes);
    let mut text = String::new();
    match BufReader::new(decoder).read_to_string(&mut text) {
        Ok(_) => Some(text),
        Err(_) => None,
    }
}

/// The text of a file whose bytes have been read.
pub fn read_file(bytes: &[u8], file_path: &str) -> (r: Result<String, SfzParseError>)
    ensures
        r is Ok <==> decoded_text(bytes@) is Some,
        r matches Ok(text) ==> Some(text@) == decoded_text(bytes@),
        r matches Err(e) ==> e.deep_view() == SfzParseError::FailedToReadFile(file_path@),
        valid_utf8(bytes@) && !has_mark(bytes@) ==> r is Ok && r->Ok_0@ == decode_utf8(bytes@),
        valid_utf8(bytes@) && has_mark(bytes@) ==> r is Ok && r->Ok_0@ == decode_utf8(
            bytes@.skip(3),
        ),
{
    match decode(bytes) {
        Some(text) => Ok(text),
        None => Err(SfzParseError::FailedToReadFile(file_path.to_owned())),
    }
}

/// What a resolver wants its caller to do, and to tell it.
#[derive(Debug)]
pub enum ResolverAction<T = String> {
    /// Find the one path by which the file at this path is known.
    Locate(T),
    /// See whether there is anything at this path.
    Probe(T),
    /// Read the bytes of the file at this path.
    Read(T),
    /// Take the tokens.
    Done,
    /// Give up.
    Failed(SfzParseError<T>),
}

impl DeepView for ResolverAction {
    type V = ResolverAction<Seq<char>>;

    open spec fn deep_view(&self) -> ResolverAction<Seq<char>> {
        match *self {
            ResolverAction::Locate(path) => ResolverAction::Locate(path@),
            ResolverAction::Probe(path) => ResolverAction::Probe(path@),
            ResolverAction::Read(path) => ResolverAction::Read(path@),
            ResolverAction::Done => ResolverAction::Done,
            ResolverAction::Failed(e) => ResolverAction::Failed(e.deep_view()),
        }
    }
}

/// A file that is being read.
#[derive(Debug)]
pub struct Frame {
    /// The one path by which the file is known.
    pub path: String,
    pub tokens: Vec<Token>,
    /// The token that comes next.
    pub next: usize,
    /// What the tokens read so far give, imports among them.
    pub out: Vec<SfzToken>,
    /// Under what the result is kept for the next import of the file.
    pub key: Option<(String, usize)>,
}

/// The model of a file that is being read.
#[verifier::ext_equal]
pub struct FrameModel {
    pub path: Seq<char>,
    pub tokens: Seq<Token<Seq<char>>>,
    pub next: int,
    pub out: Seq<SfzToken<Seq<char>>>,
    pub key: Option<(Seq<char>, usize)>,
}

impl DeepView for Frame {
    type V = FrameModel;

    open spec fn deep_view(&self) -> FrameModel {
        FrameModel {
            path: self.path@,
            tokens: self.tokens.deep_view(),
            next: self.next as int,
            out: self.out.deep_view(),
            key: self.key.deep_view(),
        }
    }
}

/// What a resolver waits for.
#[derive(Debug)]
pub enum Waiting<T = String> {
    /// The one path of the file at `requested`.
    Location { requested: T, key: Option<(T, usize)> },
    /// The bytes of a file.
    Bytes { path: T, key: Option<(T, usize)> },
    /// Whether an imported file lies beside the file that imports it.
    Direct { name: T, direct: T },
    /// Whether an imported file lies beside the first file.
    RootRelative { direct: T, relative: T },
    Nothing,
}

impl DeepView for Waiting {
    type V = Waiting<Seq<char>>;

    open spec fn deep_view(&self) -> Waiting<Seq<char>> {
        match *self {
            Waiting::Location { requested, key } => Waiting::Location {
                requested: requested@,
                key: key.deep_view(),
            },
            Waiting::Bytes { path, key } => Waiting::Bytes { path: path@, key: key.deep_view() },
            Waiting::Direct { name, direct } => Waiting::Direct { name: name@, direct: direct@ },
            Waiting::RootRelative { direct, relative } => Waiting::RootRelative {
                direct: direct@,
                relative: relative@,
            },
            Waiting::Nothing => Waiting::Nothing,
        }
    }
}

/// Reads an SFZ file together with the files that it imports.
#[derive(Debug)]
pub struct TokenResolver {
    pub defines: Defines,
    /// The files that are being read, each imported by the one before it.
    pub stack: Vec<Frame>,
    /// What imported files gave, by their path and by the definitions in force.
    pub cache: Vec<((String, usize), Vec<SfzToken>)>,
    /// How often a variable has been defined.
    pub generation: usize,
    pub waiting: Waiting,
    /// What the first file gave.
    pub result: Vec<SfzToken>,
}

/// The model of a resolver.
#[verifier::ext_equal]
pub struct ResolverModel {
    pub defines: Seq<(Seq<char>, Seq<char>)>,
    pub stack: Seq<FrameModel>,
    pub cache: Seq<((Seq<char>, usize), Seq<SfzToken<Seq<char>>>)>,
    pub generation: usize,
    pub waiting: Waiting<Seq<char>>,
    pub result: Seq<SfzToken<Seq<char>>>,
}

impl DeepView for TokenResolver {
    type V = ResolverModel;

    open spec fn deep_view(&self) -> ResolverModel {
        ResolverModel {
            defines: self.defines.deep_view(),
            stack: self.stack.deep_view(),
            cache: self.cache.deep_view(),
            generation: self.generation,
            waiting: self.waiting.deep_view(),
            result: self.result.deep_view(),
        }
    }
}

/// What an imported file gave, as the latest entry under its key says.
pub open spec fn cached(
    cache: Seq<((Seq<char>, usize), Seq<SfzToken<Seq<char>>>)>,
    key: (Seq<char>, usize),
) -> Option<Seq<SfzToken<Seq<char>>>>
    decreases cache.len(),
{
    if cache.len() == 0 {
        None
    } else if cache.last().0 == key {
        Some(cache.last().1)
    } else {
        cached(cache.drop_last(), key)
    }
}

/// The file that is being read after some of its tokens gave `tokens`.
pub open spec fn extended(frame: FrameModel, tokens: Seq<SfzToken<Seq<char>>>) -> FrameModel {
    FrameModel { out: frame.out + tokens, ..frame }
}

/// The files that are being read with the innermost one replaced.
pub open spec fn with_top(m: ResolverModel, frame: FrameModel) -> ResolverModel {
    ResolverModel { stack: m.stack.drop_last().push(frame), ..m }
}

/// The resolver when the innermost file has been read to its end: what it gave
/// goes into the file that imports it, and is kept.
pub open spec fn file_ended(m: ResolverModel) -> ResolverModel {
    let top = m.stack.last();
    let outer = m.stack.drop_last();
    if outer.len() == 0 {
        ResolverModel { stack: outer, result: top.out, waiting: Waiting::Nothing, ..m }
    } else {
        ResolverModel {
            stack: outer.drop_last().push(extended(outer.last(), top.out)),
            cache: match top.key {
                Some(key) => m.cache.push((key, top.out)),
                None => m.cache,
            },
            ..m
        }
    }
}

/// The resolver with the next token of the innermost file passed.
pub open spec fn token_passed(m: ResolverModel) -> ResolverModel {
    let top = m.stack.last();
    with_top(m, FrameModel { next: top.next + 1, ..top })
}

/// The resolver after a variable has been defined: what files gave before no
/// longer counts.
pub open spec fn variable_defined(
    m: ResolverModel,
    variable: Seq<char>,
    value: Seq<char>,
) -> ResolverModel {
    ResolverModel {
        defines: defined(m.defines, variable, value),
        cache: Seq::empty(),
        generation: if m.generation == usize::MAX {
            0
        } else {
            (m.generation + 1) as usize
        },
        ..m
    }
}

/// How many tokens and files are still to be read.
pub open spec fn work(stack: Seq<FrameModel>) -> nat
    decreases stack.len(),
{
    if stack.len() == 0 {
        0
    } else {
        let top = stack.last();
        let left: nat = if 0 <= top.next < top.tokens.len() {
            (top.tokens.len() - top.next) as nat
        } else {
            0
        };
        left + 1 + work(stack.drop_last())
    }
}

proof fn work_of_replaced(stack: Seq<FrameModel>, frame: FrameModel)
    requires
        stack.len() > 0,
    ensures
        work(stack.drop_last().push(frame)) == work(stack.drop_last()) + 1 + (if 0 <= frame.next
            < frame.tokens.len() {
            (frame.tokens.len() - frame.next) as nat
        } else {
            0
        }),
{
    assert(stack.drop_last().push(frame).drop_last() =~= stack.drop_last());
}

/// Reads on until the end or until the file system has to be asked.
pub open spec fn run(m: ResolverModel) -> (ResolverModel, ResolverAction<Seq<char>>)
    decreases work(m.stack),
    via run_ends
{
    if m.stack.len() == 0 {
        (m, ResolverAction::Done)
    } else {
        let top = m.stack.last();
        if !(0 <= top.next < top.tokens.len()) {
            run(file_ended(m))
        } else {
            let next = token_passed(m);
            match meaning(top.tokens[top.next], m.defines) {
                None => run(next),
                Some(SfzTokenWithMeta::Group(group)) => run(
                    with_top(next, extended(next.stack.last(), seq![SfzToken::Group(group)])),
                ),
                Some(SfzTokenWithMeta::Opcode(opcode)) => run(
                    with_top(next, extended(next.stack.last(), seq![SfzToken::Opcode(opcode)])),
                ),
                Some(SfzTokenWithMeta::Define(variable, value)) => run(
                    variable_defined(next, variable, value),
                ),
                Some(SfzTokenWithMeta::Import(path)) => {
                    let name = substituted(m.defines, path, 0);
                    let direct = joined(folder_of(top.path), name);
                    (
                        ResolverModel { waiting: Waiting::Direct { name, direct }, ..next },
                        ResolverAction::Probe(direct),
                    )
                },
            }
        }
    }
}

#[via_fn]
proof fn run_ends(m: ResolverModel) {
    if m.stack.len() > 0 {
        work_shrinks(m);
    }
}

/// With every file that ends and every token that is passed there is less to read.
proof fn work_shrinks(m: ResolverModel)
    requires
        m.stack.len() > 0,
    ensures
        ({
            let top = m.stack.last();
            let next = token_passed(m);
            if !(0 <= top.next < top.tokens.len()) {
                work(file_ended(m).stack) < work(m.stack)
            } else {
                &&& work(next.stack) < work(m.stack)
                &&& forall|tokens: Seq<SfzToken<Seq<char>>>|
                    work((#[trigger] with_top(next, extended(next.stack.last(), tokens))).stack)
                        == work(next.stack)
            }
        }),
{
    let top = m.stack.last();
    if !(0 <= top.next < top.tokens.len()) {
        let outer = m.stack.drop_last();
        if outer.len() > 0 {
            work_of_replaced(outer, extended(outer.last(), top.out));
        }
    } else {
        let passed = FrameModel { next: top.next + 1, ..top };
        work_of_replaced(m.stack, passed);
        let next = token_passed(m);
        assert(next.stack.last() == passed);
        assert forall|tokens: Seq<SfzToken<Seq<char>>>|
            work((#[trigger] with_top(next, extended(passed, tokens))).stack) == work(
                next.stack,
            ) by {
            work_of_replaced(next.stack, extended(passed, tokens));
            work_of_replaced(next.stack, passed);
        }
    }
}

/// One of the files that are being read is known by `path`.
pub open spec fn being_read(stack: Seq<FrameModel>, path: Seq<char>) -> bool {
    exists|i: int| 0 <= i < stack.len() && (#[trigger] stack[i]).path == path
}

/// The resolver waiting for nothing.
pub open spec fn idle(m: ResolverModel) -> ResolverModel {
    ResolverModel { waiting: Waiting::Nothing, ..m }
}

/// A resolver that is to read the file at `path`.
pub open spec fn fresh_resolver(path: Seq<char>) -> ResolverModel {
    ResolverModel {
        defines: Seq::empty(),
        stack: Seq::empty(),
        cache: Seq::empty(),
        generation: 0,
        waiting: Waiting::Location { requested: path, key: None },
        result: Seq::empty(),
    }
}

/// The answer to the question where a file is. A file that is being read already
/// must not be read again.
pub open spec fn located(m: ResolverModel, found: Option<Seq<char>>) -> (
    ResolverModel,
    ResolverAction<Seq<char>>,
) {
    match (m.waiting, found) {
        (Waiting::Location { requested, key }, None) => (
            idle(m),
            ResolverAction::Failed(SfzParseError::FailedToReadFile(requested)),
        ),
        (Waiting::Location { requested, key }, Some(path)) => if being_read(m.stack, path) {
            (idle(m), ResolverAction::Failed(SfzParseError::IncludeCycle(path)))
        } else {
            (
                ResolverModel { waiting: Waiting::Bytes { path, key }, ..m },
                ResolverAction::Read(path),
            )
        },
        _ => (m, ResolverAction::Done),
    }
}

/// The answer to the question what a file holds.
pub open spec fn file_read(m: ResolverModel, text: Option<Seq<char>>) -> (
    ResolverModel,
    ResolverAction<Seq<char>>,
) {
    match (m.waiting, text) {
        (Waiting::Bytes { path, key }, None) => (
            idle(m),
            ResolverAction::Failed(SfzParseError::FailedToReadFile(path)),
        ),
        (Waiting::Bytes { path, key }, Some(text)) => run(
            ResolverModel {
                stack: m.stack.push(
                    FrameModel {
                        path,
                        tokens: tokens_from(text, 0),
                        next: 0,
                        out: Seq::empty(),
                        key,
                    },
                ),
                ..idle(m)
            },
        ),
        _ => (m, ResolverAction::Done),
    }
}

/// The import of the file at `path`: what it gave the last time under the same
/// definitions, or else the file itself.
pub open spec fn imported(m: ResolverModel, path: Seq<char>) -> (
    ResolverModel,
    ResolverAction<Seq<char>>,
) {
    let key = (path, m.generation);
    match cached(m.cache, key) {
        Some(tokens) => run(with_top(idle(m), extended(m.stack.last(), tokens))),
        None => (
            ResolverModel {
                waiting: Waiting::Location { requested: path, key: Some(key) },
                ..m
            },
            ResolverAction::Locate(path),
        ),
    }
}

/// The answer to the question whether there is anything at a path. An import is
/// looked for beside the file that makes it, then beside the first file; where it
/// is in neither place, the first of the two is the one that is reported.
pub open spec fn probed(m: ResolverModel, exists_there: bool) -> (
    ResolverModel,
    ResolverAction<Seq<char>>,
) {
    match m.waiting {
        Waiting::Direct { name, direct } => if exists_there {
            imported(m, direct)
        } else {
            let relative = joined(folder_of(m.stack[0].path), name);
            (
                ResolverModel { waiting: Waiting::RootRelative { direct, relative }, ..m },
                ResolverAction::Probe(relative),
            )
        },
        Waiting::RootRelative { direct, relative } => imported(
            m,
            if exists_there {
                relative
            } else {
                direct
            },
        ),
        _ => (m, ResolverAction::Done),
    }
}

/// No file is being read twice, and a question about an import is asked while a
/// file is being read.
pub open spec fn resolver_wf(m: ResolverModel) -> bool {
    &&& forall|i: int, j: int|
        0 <= i < j < m.stack.len() ==> (#[trigger] m.stack[i]).path != (#[trigger] m.stack[j]).path
    &&& forall|i: int|
        0 <= i < m.stack.len() ==> 0 <= (#[trigger] m.stack[i]).next <= m.stack[i].tokens.len()
    &&& (m.waiting matches Waiting::Bytes { path, key } ==> !being_read(m.stack, path))
    &&& (m.waiting is Direct || m.waiting is RootRelative ==> m.stack.len() > 0)
}

/// Reading on keeps the resolver in order.
pub proof fn run_keeps_order(m: ResolverModel)
    requires
        resolver_wf(m),
        m.waiting is Nothing,
    ensures
        resolver_wf(run(m).0),
    decreases work(m.stack),
{
    if m.stack.len() > 0 {
        work_shrinks(m);
        let top = m.stack.last();
        if !(0 <= top.next < top.tokens.len()) {
            let ended = file_ended(m);
            assert forall|i: int| 0 <= i < ended.stack.len() implies (#[trigger] ended.stack[i]).path
                == m.stack[i].path && ended.stack[i].next == m.stack[i].next
                && ended.stack[i].tokens == m.stack[i].tokens by {}
            run_keeps_order(ended);
        } else {
            let next = token_passed(m);
            assert forall|i: int| 0 <= i < next.stack.len() implies (#[trigger] next.stack[i]).path
                == m.stack[i].path by {}
            assert(resolver_wf(next));
            match meaning(top.tokens[top.next], m.defines) {
                None => {
                    run_keeps_order(next);
                },
                Some(SfzTokenWithMeta::Group(group)) => {
                    push_keeps_order(next, seq![SfzToken::Group(group)]);
                    run_keeps_order(
                        with_top(next, extended(next.stack.last(), seq![SfzToken::Group(group)])),
                    );
                },
                Some(SfzTokenWithMeta::Opcode(opcode)) => {
                    push_keeps_order(next, seq![SfzToken::Opcode(opcode)]);
                    run_keeps_order(
                        with_top(next, extended(next.stack.last(), seq![SfzToken::Opcode(opcode)])),
                    );
                },
                Some(SfzTokenWithMeta::Define(variable, value)) => {
                    run_keeps_order(variable_defined(next, variable, value));
                },
                Some(SfzTokenWithMeta::Import(path)) => {},
            }
        }
    }
}

proof fn push_keeps_order(m: ResolverModel, tokens: Seq<SfzToken<Seq<char>>>)
    requires
        resolver_wf(m),
        m.waiting is Nothing,
        m.stack.len() > 0,
    ensures
        resolver_wf(with_top(m, extended(m.stack.last(), tokens))),
{
    let next = with_top(m, extended(m.stack.last(), tokens));
    assert forall|i: int| 0 <= i < next.stack.len() implies (#[trigger] next.stack[i]).path
        == m.stack[i].path && next.stack[i].next == m.stack[i].next && next.stack[i].tokens
        == m.stack[i].tokens by {}
}

/// Whatever the file system answers, no file is ever read while it is being read
/// already, directly or by way of other files.
pub proof fn answers_keep_order(
    m: ResolverModel,
    found: Option<Seq<char>>,
    text: Option<Seq<char>>,
    exists_there: bool,
)
    requires
        resolver_wf(m),
    ensures
        resolver_wf(located(m, found).0),
        resolver_wf(file_read(m, text).0),
        resolver_wf(probed(m, exists_there).0),
{
    if let (Waiting::Bytes { path, key }, Some(text)) = (m.waiting, text) {
        let frame = FrameModel {
            path,
            tokens: tokens_from(text, 0),
            next: 0,
            out: Seq::empty(),
            key,
        };
        pushed_file_keeps_order(m, frame);
        run_keeps_order(ResolverModel { stack: m.stack.push(frame), ..idle(m) });
    }
    if m.waiting is Direct {
        import_keeps_order(m, m.waiting->Direct_direct);
    }
    if m.waiting is RootRelative {
        import_keeps_order(m, m.waiting->RootRelative_relative);
        import_keeps_order(m, m.waiting->RootRelative_direct);
    }
}

proof fn import_keeps_order(m: ResolverModel, path: Seq<char>)
    requires
        resolver_wf(m),
        m.stack.len() > 0,
    ensures
        resolver_wf(imported(m, path).0),
{
    if let Some(tokens) = cached(m.cache, (path, m.generation)) {
        push_keeps_order(idle(m), tokens);
        run_keeps_order(with_top(idle(m), extended(m.stack.last(), tokens)));
    }
}

/// A file that imports a file which is being read is refused.
pub proof fn cycles_are_refused(m: ResolverModel, path: Seq<char>)
    requires
        m.waiting is Location,
        being_read(m.stack, path),
    ensures
        located(m, Some(path)).1 == ResolverAction::<Seq<char>>::Failed(
            SfzParseError::IncludeCycle(path),
        ),
{
}

/// A definition makes everything count as unread: no import after it is answered
/// from what a file gave before it.
pub proof fn definitions_empty_the_cache(
    m: ResolverModel,
    variable: Seq<char>,
    value: Seq<char>,
    key: (Seq<char>, usize),
)
    ensures
        cached(variable_defined(m, variable, value).cache, key) is None,
{
}

fn copy_tokens(tokens: &Vec<SfzToken>) -> (r: Vec<SfzToken>)
    ensures
        r.deep_view() == tokens.deep_view(),
{
    let mut out: Vec<SfzToken> = Vec::new();
    let mut i: usize = 0;
    while i < tokens.len()
        invariant
            i <= tokens.len(),
            out@ == tokens@.take(i as int),
        decreases tokens.len() - i,
    {
        out.push(tokens[i].clone());
        i = i + 1;
        assert(tokens@.take(i as int) =~= tokens@.take(i - 1).push(tokens@[i - 1]));
    }
    assert(out@ =~= tokens@);
    assert(out.deep_view() =~= tokens.deep_view());
    out
}

fn find_cached(
    cache: &Vec<((String, usize), Vec<SfzToken>)>,
    path: &str,
    generation: usize,
) -> (r: Option<Vec<SfzToken>>)
    ensures
        r.deep_view() == cached(cache.deep_view(), (path@, generation)),
{
    let ghost all = cache.deep_view();
    let mut n: usize = cache.len();
    assert(all.take(n as int) =~= all);
    while n > 0
        invariant
            n <= cache.len(),
            all == cache.deep_view(),
            cached(all, (path@, generation)) == cached(all.take(n as int), (path@, generation)),
        decreases n,
    {
        assert(all.take(n as int).drop_last() =~= all.take(n - 1));
        assert(all.take(n as int).last() == cache@[n - 1].deep_view());
        if cache[n - 1].0.1 == generation && same_text(&cache[n - 1].0.0, path) {
            return Some(copy_tokens(&cache[n - 1].1));
        }
        n = n - 1;
    }
    None
}

impl TokenResolver {
    /// A resolver for the file at `path`, and what it wants first.
    pub fn new(path: &str) -> (r: (TokenResolver, ResolverAction))
        ensures
            r.0.deep_view() == fresh_resolver(path@),
            r.1.deep_view() == ResolverAction::<Seq<char>>::Locate(path@),
            resolver_wf(r.0.deep_view()),
    {
        let resolver = TokenResolver {
            defines: Vec::new(),
            stack: Vec::new(),
            cache: Vec::new(),
            generation: 0,
            waiting: Waiting::Location { requested: path.to_owned(), key: None },
            result: Vec::new(),
        };
        assert(resolver.deep_view() =~= fresh_resolver(path@));
        (resolver, ResolverAction::Locate(path.to_owned()))
    }

    /// Takes tokens into the innermost file.
    fn extend_top(&mut self, mut tokens: Vec<SfzToken>)
        requires
            old(self).stack.len() > 0,
        ensures
            final(self).deep_view() == with_top(
                old(self).deep_view(),
                extended(old(self).deep_view().stack.last(), tokens.deep_view()),
            ),
    {
        let ghost before = self.deep_view();
        let ghost given = tokens.deep_view();
        assert(before.stack.last() == self.stack@.last().deep_view());
        if let Some(mut top) = self.stack.pop() {
            let ghost out = top.out.deep_view();
            top.out.append(&mut tokens);
            assert(top.out.deep_view() =~= out + given);
            self.stack.push(top);
            assert(self.stack.deep_view() =~= before.stack.drop_last().push(top.deep_view()));
        }
    }

    /// Ends the innermost file.
    fn end_file(&mut self)
        requires
            old(self).stack.len() > 0,
        ensures
            final(self).deep_view() == file_ended(old(self).deep_view()),
    {
        let ghost before = self.deep_view();
        assert(before.stack.last() == self.stack@.last().deep_view());
        if let Some(top) = self.stack.pop() {
            assert(self.stack.deep_view() =~= before.stack.drop_last());
            if self.stack.len() == 0 {
                self.result = top.out;
                self.waiting = Waiting::Nothing;
            } else {
                if let Some(key) = top.key {
                    let ghost cache = self.cache.deep_view();
                    let kept = copy_tokens(&top.out);
                    let ghost entry = (key.deep_view(), kept.deep_view());
                    self.cache.push((key, kept));
                    assert(self.cache.deep_view() =~= cache.push(entry));
                }
                self.extend_top(top.out);
            }
        }
    }

    /// Passes the next token of the innermost file and says what it means.
    fn pass_token(&mut self) -> (r: Option<SfzTokenWithMeta>)
        requires
            old(self).stack.len() > 0,
            old(self).stack@.last().next < old(self).stack@.last().tokens.len(),
        ensures
            final(self).deep_view() == token_passed(old(self).deep_view()),
            ({
                let top = old(self).deep_view().stack.last();
                r.deep_view() == meaning(top.tokens[top.next], old(self).deep_view().defines)
            }),
    {
        let ghost before = self.deep_view();
        assert(before.stack.last() == self.stack@.last().deep_view());
        match self.stack.pop() {
            Some(mut top) => {
                let meant = grammar_token_into_sfz_token(&top.tokens[top.next], &self.defines);
                top.next = top.next + 1;
                self.stack.push(top);
                assert(self.stack.deep_view() =~= before.stack.drop_last().push(top.deep_view()));
                meant
            },
            None => None,
        }
    }

    /// Reads on until the end or until the file system has to be asked.
    fn run(&mut self) -> (r: ResolverAction)
        requires
            resolver_wf(old(self).deep_view()),
        ensures
            (final(self).deep_view(), r.deep_view()) == run(old(self).deep_view()),
    {
        let ghost goal = run(self.deep_view());
        loop
            invariant
                goal == run(old(self).deep_view()),
                goal == run(self.deep_view()),
                forall|i: int|
                    0 <= i < self.stack.len() ==> 0 <= (#[trigger] self.deep_view().stack[i]).next
                        <= self.deep_view().stack[i].tokens.len(),
            decreases work(self.deep_view().stack),
        {
            proof {
                if self.deep_view().stack.len() > 0 {
                    work_shrinks(self.deep_view());
                }
            }
            let ghost m = self.deep_view();
            let depth = self.stack.len();
            if depth == 0 {
                return ResolverAction::Done;
            }
            let ghost top = m.stack.last();
            assert(top == self.stack@.last().deep_view());
            if self.stack[depth - 1].next >= self.stack[depth - 1].tokens.len() {
                self.end_file();
                assert forall|i: int| 0 <= i < self.stack.len() implies 0 <= (
                #[trigger] self.deep_view().stack[i]).next
                    <= self.deep_view().stack[i].tokens.len() by {
                    assert(m.stack[i].next <= m.stack[i].tokens.len());
                }
                continue;
            }
            let meant = self.pass_token();
            let ghost next = self.deep_view();
            assert forall|i: int| 0 <= i < next.stack.len() implies 0 <= (
            #[trigger] next.stack[i]).next <= next.stack[i].tokens.len() by {
                assert(m.stack[i].next <= m.stack[i].tokens.len());
            }
            match meant {
                None => {},
                Some(SfzTokenWithMeta::Group(group)) => {
                    let mut tokens: Vec<SfzToken> = Vec::new();
                    tokens.push(SfzToken::Group(group));
                    assert(tokens.deep_view() =~= seq![SfzToken::Group(group)]);
                    self.extend_top(tokens);
                    assert forall|i: int| 0 <= i < self.stack.len() implies 0 <= (
                    #[trigger] self.deep_view().stack[i]).next
                        <= self.deep_view().stack[i].tokens.len() by {
                        assert(next.stack[i].next <= next.stack[i].tokens.len());
                    }
                },
                Some(SfzTokenWithMeta::Opcode(opcode)) => {
                    let ghost model = opcode.deep_view();
                    let mut tokens: Vec<SfzToken> = Vec::new();
                    tokens.push(SfzToken::Opcode(opcode));
                    assert(tokens.deep_view() =~= seq![SfzToken::Opcode(model)]);
                    self.extend_top(tokens);
                    assert forall|i: int| 0 <= i < self.stack.len() implies 0 <= (
                    #[trigger] self.deep_view().stack[i]).next
                        <= self.deep_view().stack[i].tokens.len() by {
                        assert(next.stack[i].next <= next.stack[i].tokens.len());
                    }
                },
                Some(SfzTokenWithMeta::Define(variable, value)) => {
                    self.generation = self.generation.wrapping_add(1);
                    self.cache.clear();
                    assert(self.cache.deep_view() =~= Seq::empty());
                    define(&mut self.defines, variable, value);
                },
                Some(SfzTokenWithMeta::Import(path)) => {
                    let name = apply_defines(&path, &self.defines);
                    let folder = parent_path(&self.stack[depth - 1].path);
                    assert(next.stack.last().path == self.stack@.last().path@);
                    let direct = join_path(&folder, &name);
                    self.waiting = Waiting::Direct { name, direct: direct.clone() };
                    return ResolverAction::Probe(direct);
                },
            }
        }
    }

    /// Whether the file that is known by `path` is being read.
    fn reads(&self, path: &str) -> (r: bool)
        ensures
            r == being_read(self.deep_view().stack, path@),
    {
        let ghost stack = self.deep_view().stack;
        let mut i: usize = 0;
        while i < self.stack.len()
            invariant
                i <= self.stack.len(),
                stack == self.stack.deep_view(),
                forall|j: int| 0 <= j < i ==> (#[trigger] stack[j]).path != path@,
            decreases self.stack.len() - i,
        {
            assert(stack[i as int].path == self.stack@[i as int].path@);
            if same_text(&self.stack[i].path, path) {
                return true;
            }
            i = i + 1;
        }
        false
    }

    /// Tells the resolver by which path the file is known that it asked for, or
    /// that there is no such file.
    pub fn located(&mut self, found: Option<String>) -> (r: ResolverAction)
        requires
            resolver_wf(old(self).deep_view()),
            old(self).waiting is Location,
        ensures
            (final(self).deep_view(), r.deep_view()) == located(
                old(self).deep_view(),
                found.deep_view(),
            ),
            resolver_wf(final(self).deep_view()),
    {
        proof {
            answers_keep_order(self.deep_view(), found.deep_view(), None, false);
        }
        let ghost m = self.deep_view();
        let mut waiting = Waiting::Nothing;
        std::mem::swap(&mut waiting, &mut self.waiting);
        match waiting {
            Waiting::Location { requested, key } => match found {
                None => ResolverAction::Failed(SfzParseError::FailedToReadFile(requested)),
                Some(path) => {
                    if self.reads(&path) {
                        return ResolverAction::Failed(SfzParseError::IncludeCycle(path));
                    }
                    self.waiting = Waiting::Bytes { path: path.clone(), key };
                    ResolverAction::Read(path)
                },
            },
            _ => ResolverAction::Done,
        }
    }

    /// Gives the resolver the bytes of the file that it asked for, or tells it that
    /// the file cannot be read.
    pub fn read(&mut self, bytes: Option<Vec<u8>>) -> (r: ResolverAction)
        requires
            resolver_wf(old(self).deep_view()),
            old(self).waiting is Bytes,
        ensures
            (final(self).deep_view(), r.deep_view()) == file_read(
                old(self).deep_view(),
                match bytes {
                    Some(bytes) => decoded_text(bytes@),
                    None => None,
                },
            ),
            resolver_wf(final(self).deep_view()),
    {
        match bytes {
            None => self.read_text(None),
            Some(bytes) => match read_file(&bytes, "") {
                Ok(text) => self.read_text(Some(text)),
                Err(_) => self.read_text(None),
            },
        }
    }

    /// Gives the resolver the text of the file that it asked for.
    pub fn read_text(&mut self, text: Option<String>) -> (r: ResolverAction)
        requires
            resolver_wf(old(self).deep_view()),
            old(self).waiting is Bytes,
        ensures
            (final(self).deep_view(), r.deep_view()) == file_read(
                old(self).deep_view(),
                text.deep_view(),
            ),
            resolver_wf(final(self).deep_view()),
    {
        proof {
            answers_keep_order(self.deep_view(), None, text.deep_view(), false);
        }
        let ghost m = self.deep_view();
        let mut waiting = Waiting::Nothing;
        std::mem::swap(&mut waiting, &mut self.waiting);
        match waiting {
            Waiting::Bytes { path, key } => match text {
                None => ResolverAction::Failed(SfzParseError::FailedToReadFile(path)),
                Some(text) => {
                    let frame = Frame {
                        path,
                        tokens: tokenize(&text),
                        next: 0,
                        out: Vec::new(),
                        key,
                    };
                    let ghost model = frame.deep_view();
                    assert(model.out =~= Seq::empty());
                    self.stack.push(frame);
                    assert(self.stack.deep_view() =~= m.stack.push(model));
                    proof {
                        pushed_file_keeps_order(m, model);
                    }
                    self.run()
                },
            },
            _ => ResolverAction::Done,
        }
    }

    /// Imports the file at `path`.
    fn import(&mut self, path: String) -> (r: ResolverAction)
        requires
            resolver_wf(old(self).deep_view()),
            old(self).stack.len() > 0,
        ensures
            (final(self).deep_view(), r.deep_view()) == imported(old(self).deep_view(), path@),
    {
        match find_cached(&self.cache, &path, self.generation) {
            Some(tokens) => {
                self.waiting = Waiting::Nothing;
                proof {
                    push_keeps_order(self.deep_view(), tokens.deep_view());
                }
                self.extend_top(tokens);
                self.run()
            },
            None => {
                let key = (path.clone(), self.generation);
                self.waiting = Waiting::Location { requested: path.clone(), key: Some(key) };
                ResolverAction::Locate(path)
            },
        }
    }

    /// Tells the resolver whether there is anything at the path that it asked about.
    pub fn probed(&mut self, exists_there: bool) -> (r: ResolverAction)
        requires
            resolver_wf(old(self).deep_view()),
            old(self).waiting is Direct || old(self).waiting is RootRelative,
        ensures
            (final(self).deep_view(), r.deep_view()) == probed(old(self).deep_view(), exists_there),
            resolver_wf(final(self).deep_view()),
    {
        proof {
            answers_keep_order(self.deep_view(), None, None, exists_there);
        }
        let ghost m = self.deep_view();
        let mut waiting = Waiting::Nothing;
        std::mem::swap(&mut waiting, &mut self.waiting);
        match waiting {
            Waiting::Direct { name, direct } => {
                if exists_there {
                    self.import(direct)
                } else {
                    assert(m.stack[0].path == self.stack@[0].path@);
                    let folder = parent_path(&self.stack[0].path);
                    let relative = join_path(&folder, &name);
                    self.waiting = Waiting::RootRelative { direct, relative: relative.clone() };
                    ResolverAction::Probe(relative)
                }
            },
            Waiting::RootRelative { direct, relative } => self.import(
                if exists_there {
                    relative
                } else {
                    direct
                },
            ),
            _ => ResolverAction::Done,
        }
    }

    /// What the first file gave, once the resolver is done.
    pub fn into_tokens(self) -> (r: Vec<SfzToken>)
        ensures
            r.deep_view() == self.deep_view().result,
    {
        self.result
    }
}

proof fn pushed_file_keeps_order(m: ResolverModel, frame: FrameModel)
    requires
        resolver_wf(m),
        m.waiting is Bytes,
        frame.path == m.waiting->Bytes_path,
        frame.next == 0,
    ensures
        resolver_wf(ResolverModel { stack: m.stack.push(frame), ..idle(m) }),
{
    let pushed = ResolverModel { stack: m.stack.push(frame), ..idle(m) };
    assert forall|i: int, j: int| 0 <= i < j < pushed.stack.len() implies (
    #[trigger] pushed.stack[i]).path != (#[trigger] pushed.stack[j]).path by {
        if j == m.stack.len() {
            assert(m.stack[i].path != frame.path);
        } else {
            assert(m.stack[i].path != m.stack[j].path);
        }
    }
    assert forall|i: int| 0 <= i < pushed.stack.len() implies 0 <= (#[trigger] pushed.stack[i]).next
        <= pushed.stack[i].tokens.len() by {
        if i < m.stack.len() {
            assert(m.stack[i] == pushed.stack[i]);
        }
    }
}

/// The tokens that some tokens of a file stand for, where they import and define nothing.
pub open spec fn plain_tokens(
    tokens: Seq<Token<Seq<char>>>,
    defines: Seq<(Seq<char>, Seq<char>)>,
) -> Seq<SfzToken<Seq<char>>>
    decreases tokens.len(),
{
    if tokens.len() == 0 {
        Seq::empty()
    } else {
        let rest = plain_tokens(tokens.drop_first(), defines);
        match tokens[0] {
            Token::Group(name) => seq![SfzToken::Group(group_named(name))] + rest,
            Token::Opcode { name, value } => match opcode_of(
                substituted(defines, name, 0),
                substituted(defines, value, 0),
            ) {
                Some(op) => seq![SfzToken::Opcode(op)] + rest,
                None => rest,
            },
            _ => rest,
        }
    }
}

/// A file that imports and defines nothing gives its headers and opcodes in their order, with
/// the variables replaced. Opcodes that the library has no use for are left out.
pub proof fn plain_files_give_their_tokens(m: ResolverModel)
    requires
        m.stack.len() == 1,
        0 <= m.stack[0].next <= m.stack[0].tokens.len(),
        forall|i: int|
            m.stack[0].next <= i < m.stack[0].tokens.len() ==> !((#[trigger] m.stack[0].tokens[i])
                is Import) && !(m.stack[0].tokens[i] is Define),
    ensures
        ({
            let top = m.stack[0];
            let (end, action) = run(m);
            &&& action is Done
            &&& end.stack.len() == 0
            &&& end.result == top.out + plain_tokens(top.tokens.skip(top.next), m.defines)
            &&& end.defines == m.defines
        }),
    decreases m.stack[0].tokens.len() - m.stack[0].next,
{
    let top = m.stack[0];
    assert(m.stack.last() == top);
    let rest = top.tokens.skip(top.next);
    if top.next < top.tokens.len() {
        let next = token_passed(m);
        assert(next.stack.last() == (FrameModel { next: top.next + 1, ..top }));
        assert(rest.drop_first() =~= top.tokens.skip(top.next + 1));
        assert(rest[0] == top.tokens[top.next]);
        let more = match meaning(top.tokens[top.next], m.defines) {
            Some(SfzTokenWithMeta::Group(group)) => seq![SfzToken::Group(group)],
            Some(SfzTokenWithMeta::Opcode(op)) => seq![SfzToken::Opcode(op)],
            _ => Seq::empty(),
        };
        if meaning(top.tokens[top.next], m.defines) is None {
            plain_files_give_their_tokens(next);
        } else {
            let after = with_top(next, extended(next.stack.last(), more));
            assert(after.stack.last() == extended(next.stack.last(), more));
            plain_files_give_their_tokens(after);
            let tail = plain_tokens(rest.drop_first(), m.defines);
            assert((top.out + more) + tail =~= top.out + (more + tail));
        }
    } else {
        assert(rest =~= Seq::empty());
        assert(top.out + Seq::empty() =~= top.out);
        let ended = file_ended(m);
        assert(ended.stack.len() == 0);
        assert(run(ended) == (ended, ResolverAction::<Seq<char>>::Done));
    }
}

/// A definition counts for what comes after it: the file is read on with the variable standing
/// for its value, and gives no token itself.
pub proof fn definitions_count_from_where_they_stand(
    m: ResolverModel,
    variable: Seq<char>,
    value: Seq<char>,
)
    requires
        m.stack.len() > 0,
        0 <= m.stack.last().next < m.stack.last().tokens.len(),
        m.stack.last().tokens[m.stack.last().next] == (Token::Define { variable, value }),
    ensures
        ({
            let top = m.stack.last();
            let after = ResolverModel {
                defines: defined(m.defines, variable, value),
                stack: m.stack.drop_last().push(FrameModel { next: top.next + 1, ..top }),
                cache: Seq::empty(),
                generation: if m.generation == usize::MAX {
                    0
                } else {
                    (m.generation + 1) as usize
                },
                waiting: m.waiting,
                result: m.result,
            };
            run(m) == run(after)
        }),
{
}

/// A file that has been read to its end gives its tokens to the file that imports it, in the
/// place of the import, and what it gave is kept under its name.
pub proof fn imports_stand_in_their_place(m: ResolverModel, key: (Seq<char>, usize))
    requires
        m.stack.len() >= 2,
        m.stack.last().next >= m.stack.last().tokens.len(),
        m.stack.last().key == Some(key),
    ensures
        ({
            let top = m.stack.last();
            let outer = m.stack[m.stack.len() - 2];
            let after = file_ended(m);
            &&& run(m) == run(after)
            &&& after.stack.len() == m.stack.len() - 1
            &&& after.stack.last().out == outer.out + top.out
            &&& after.stack.last().next == outer.next
            &&& after.stack.last().tokens == outer.tokens
            &&& after.stack.last().path == outer.path
            &&& cached(after.cache, key) == Some(top.out)
        }),
{
}

/// An import is looked for beside the file that makes it, under the name with its variables
/// replaced. Where there is nothing it is looked for beside the first file; where it is in
/// neither place, the first of the two is asked for, so that its absence is reported.
pub proof fn imports_are_looked_for(m: ResolverModel, path: Seq<char>)
    requires
        m.stack.len() > 0,
        0 <= m.stack.last().next < m.stack.last().tokens.len(),
        m.stack.last().tokens[m.stack.last().next] == Token::<Seq<char>>::Import(path),
    ensures
        ({
            let name = substituted(m.defines, replaced(path, '\\', '/'), 0);
            let beside = joined(folder_of(m.stack.last().path), name);
            let asked = run(m);
            let again = probed(asked.0, false);
            let first = joined(folder_of(asked.0.stack[0].path), name);
            &&& asked.1 == ResolverAction::<Seq<char>>::Probe(beside)
            &&& probed(asked.0, true) == imported(asked.0, beside)
            &&& again.1 == ResolverAction::<Seq<char>>::Probe(first)
            &&& probed(again.0, true) == imported(again.0, first)
            &&& probed(again.0, false) == imported(again.0, beside)
        }),
{
}

/// An import is answered with what the file gave before, where that is kept under the same
/// definitions; otherwise the file is asked for.
pub proof fn imports_are_answered(m: ResolverModel, path: Seq<char>)
    requires
        m.stack.len() > 0,
    ensures
        cached(m.cache, (path, m.generation)) is None ==> imported(m, path).1
            == ResolverAction::<Seq<char>>::Locate(path),
        cached(m.cache, (path, m.generation)) matches Some(tokens) ==> imported(m, path) == run(
            ResolverModel {
                stack: m.stack.drop_last().push(
                    FrameModel { out: m.stack.last().out + tokens, ..m.stack.last() },
                ),
                waiting: Waiting::Nothing,
                ..m
            },
        ),
{
}

/// A file that cannot be found or read is reported by its name, and a file that is there is read
/// from its beginning.
pub proof fn files_are_found_and_read(
    m: ResolverModel,
    path: Seq<char>,
    text: Seq<char>,
    key: Option<(Seq<char>, usize)>,
)
    ensures
        m.waiting == (Waiting::Location { requested: path, key }) ==> located(m, None).1
            == ResolverAction::<Seq<char>>::Failed(SfzParseError::FailedToReadFile(path)),
        m.waiting == (Waiting::Location { requested: path, key }) && !being_read(m.stack, path)
            ==> located(m, Some(path)) == (
            (ResolverModel { waiting: Waiting::Bytes { path, key }, ..m }),
            ResolverAction::<Seq<char>>::Read(path),
        ),
        m.waiting == (Waiting::Bytes { path, key }) ==> file_read(m, None).1
            == ResolverAction::<Seq<char>>::Failed(SfzParseError::FailedToReadFile(path)),
        m.waiting == (Waiting::Bytes { path, key }) ==> file_read(m, Some(text)) == run(
            ResolverModel {
                stack: m.stack.push(
                    FrameModel {
                        path,
                        tokens: tokens_from(text, 0),
                        next: 0,
                        out: Seq::empty(),
                        key,
                    },
                ),
                waiting: Waiting::Nothing,
                ..m
            },
        ),
{
}

} // verus!
